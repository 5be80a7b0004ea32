//! The browser's own pages, the menu bar's commands, and what the reader keeps.

use otlyra_app::arriving::{Arrival, Attachment, Document, Fetched};
use otlyra_app::browser::{
    Bookmarked, Browser, Command, Destination, Place, Settings, Surface, Target,
};
use otlyra_app::building::Parsed;
use otlyra_app::input::MenuCommand;
use otlyra_app::offering::{PageFacts, UiAction};
use otlyra_app::pages::{
    choose_download_directory, choose_download_path, extensions, may_send, Attempt,
    BookmarksAction, CacheAction, CookiesAction, DownloadsAction, HistoryAction, SettingsAction,
    LARGEST_FILE,
};
use otlyra_app::system::SystemPage;

fn target(url: &str) -> Target {
    Target { url: url.to_owned(), site: None, refused: false }
}

fn facts() -> PageFacts {
    PageFacts { occurrences: 0, refused: false, selected: None, takes_focus: false }
}

fn browser() -> Browser {
    Browser::new(1)
}

fn menu(browser: &mut Browser, command: MenuCommand) {
    assert_eq!(browser.menu_command(command, false, None), None);
}

/// Answer the one request on the wire with a titled document.
fn arrive(browser: &mut Browser, title: &str) {
    let request = browser.requests.remove(0);
    browser.receive(Fetched::Document {
        id: request.id,
        result: Ok(Arrival::Document(Document {
            url: request.url,
            site: None,
            scripts: None,
            parsed: Parsed {
                title: Some(title.to_owned()),
                sheets: Vec::new(),
                pictures: Vec::new(),
                deferred: Vec::new(),
                stopped_at: None,
                runner: false,
            },
        })),
    });
}

fn attach(browser: &mut Browser) {
    browser.navigate(target("https://example.test/export"));
    let request = browser.requests.remove(0);
    let received = browser.receive(Fetched::Document {
        id: request.id,
        result: Ok(Arrival::Attachment(Attachment {
            filename: "people.csv".to_owned(),
            recorded: Some(1),
        })),
    });
    assert!(received.changed);
}

#[test]
fn choosing_a_page_from_the_menu_opens_it_beside_what_was_being_read() {
    let mut browser = browser();

    // The first tab is blank, so the settings fill it rather than leaving an empty tab
    // behind.
    browser.apply(UiAction::OpenPage(SystemPage::Settings), facts());
    assert_eq!(browser.tabs().len(), 1);
    assert_eq!(browser.system_page(), Some(SystemPage::Settings));

    // From a tab that is showing something, a second one opens.
    browser.open_system_in_new_tab(SystemPage::About);
    assert_eq!(browser.tabs().len(), 2);
    assert_eq!(browser.active(), 1);
    assert_eq!(browser.system_page(), Some(SystemPage::About));
    assert_eq!(
        browser.tabs()[0].system,
        Some(SystemPage::Settings),
        "what was being read stayed where it was"
    );
}

#[test]
fn typing_the_same_address_navigates_in_place() {
    let mut browser = browser();
    browser.navigate(target("about:otlyra"));
    browser.navigate(target("about:settings"));

    assert_eq!(browser.tabs().len(), 1, "typing is a decision to leave");
    assert_eq!(browser.system_page(), Some(SystemPage::Settings));
}

#[test]
fn a_browser_page_belongs_to_its_tab_and_not_to_the_window() {
    let mut browser = browser();
    browser.navigate(target("about:settings"));
    assert_eq!(browser.system_page(), Some(SystemPage::Settings));

    // A second tab is a second place, and it is not on the settings.
    browser.new_tab();
    assert_eq!(browser.system_page(), None);

    browser.select_tab(0);
    assert_eq!(
        browser.system_page(),
        Some(SystemPage::Settings),
        "the first tab kept what it was showing"
    );
}

#[test]
fn a_browser_page_earns_a_history_entry_and_back_leaves_it() {
    let mut browser = browser();
    browser.navigate(target("about:otlyra"));
    browser.navigate(target("about:settings"));
    assert_eq!(browser.system_page(), Some(SystemPage::Settings));
    assert!(browser.can_go_back());

    browser.go_back();
    assert_eq!(
        browser.system_page(),
        Some(SystemPage::About),
        "back reaches the browser page that was there"
    );

    browser.go_forward();
    assert_eq!(browser.system_page(), Some(SystemPage::Settings));
}

#[test]
fn done_on_the_settings_goes_back_rather_than_emptying_the_tab() {
    let mut browser = browser();
    browser.navigate(target("about:otlyra"));
    browser.navigate(target("about:settings"));

    browser.handle_settings_action(SettingsAction::Close);
    assert_eq!(browser.system_page(), Some(SystemPage::About), "done is back");
}

#[test]
fn done_with_nowhere_behind_it_empties_the_tab() {
    let mut browser = browser();
    browser.navigate(target("about:settings"));

    browser.handle_settings_action(SettingsAction::Close);
    assert_eq!(browser.system_page(), None);
    assert_eq!(browser.tabs()[0].title, "New tab");
}

#[test]
fn typing_a_browser_address_opens_a_surface_rather_than_fetching() {
    let mut browser = browser();
    browser.navigate(target("about:settings"));

    assert_eq!(browser.system_page(), Some(SystemPage::Settings));
    assert_eq!(browser.tabs()[0].url, "about:settings");
    assert_eq!(browser.ui().address, "about:settings");
    assert!(browser.tabs()[0].error.is_none(), "nothing was fetched, so nothing failed");
    assert!(browser.requests.is_empty());
}

#[test]
fn the_spellings_a_person_might_type_all_arrive_at_the_same_page() {
    for spelling in ["about:settings", "About:Settings", "about:preferences/"] {
        let mut browser = browser();
        browser.navigate(target(spelling));
        assert_eq!(
            browser.system_page(),
            Some(SystemPage::Settings),
            "{spelling} should open the settings"
        );
    }

    let mut browser = browser();
    browser.navigate(target("about:otlyra"));
    assert_eq!(browser.system_page(), Some(SystemPage::About));
}

#[test]
fn native_commands_open_the_surfaces_they_name() {
    let mut settings = Settings::new();
    settings.home = "about:otlyra".to_owned();
    let mut browser = Browser::with_settings(1, settings);

    menu(&mut browser, MenuCommand::Home);
    assert_eq!(browser.system_page(), Some(SystemPage::About));
    menu(&mut browser, MenuCommand::Settings);
    assert_eq!(browser.system_page(), Some(SystemPage::Settings));
    menu(&mut browser, MenuCommand::ShowHistory);
    assert_eq!(browser.system_page(), Some(SystemPage::History));
    menu(&mut browser, MenuCommand::ShowDownloads);
    assert_eq!(browser.system_page(), Some(SystemPage::Downloads));
}

#[test]
fn going_home_with_no_home_goes_nowhere() {
    let mut browser = browser();
    assert_eq!(browser.home(), "");
    menu(&mut browser, MenuCommand::Home);
    assert!(browser.requests.is_empty());
    assert_eq!(browser.tabs()[0].url, "");
}

#[test]
fn native_developer_tools_command_toggles_the_inspector() {
    let mut browser = browser();

    menu(&mut browser, MenuCommand::ToggleDevTools);
    assert!(browser.inspector().open);
    assert_eq!(browser.keyboard_surface(), Surface::Inspector);

    menu(&mut browser, MenuCommand::ToggleDevTools);
    assert!(!browser.inspector().open);
    assert_eq!(browser.keyboard_surface(), browser.tab_surface());
}

#[test]
fn downloads_address_opens_the_native_surface_without_fetching() {
    let mut browser = browser();
    browser.navigate(target("about:downloads"));

    assert_eq!(browser.system_page(), Some(SystemPage::Downloads));
    assert_eq!(browser.tabs()[0].url, "about:downloads");
    assert!(browser.tabs()[0].error.is_none());
}

#[test]
fn an_attachment_becomes_a_completed_download_instead_of_a_document() {
    let mut browser = browser();
    attach(&mut browser);

    assert_eq!(browser.system_page(), Some(SystemPage::Downloads));
    assert_eq!(browser.tabs()[0].url, "about:downloads");
    assert!(browser.tabs()[0].page.is_none());
    assert!(!browser.tabs()[0].loading());
}

#[test]
fn an_attachment_saves_itself_when_the_preference_says_not_to_ask() {
    let mut settings = Settings::new();
    settings.ask_where_to_save = false;
    settings.download_directory = Some("/tmp/downloads".to_owned());
    let mut browser = Browser::with_settings(1, settings);
    attach(&mut browser);

    assert!(browser.told.iter().any(|command| matches!(
        command,
        Command::Save(1, Destination::Into { directory, filename })
            if directory == "/tmp/downloads" && filename == "people.csv"
    )));
}

#[test]
fn an_attachment_waits_to_be_asked_about_by_default() {
    let mut browser = browser();
    assert!(browser.settings.ask_where_to_save);
    attach(&mut browser);

    assert!(
        !browser.told.iter().any(|command| matches!(command, Command::Save(_, _))),
        "it saved itself uninvited"
    );
}

#[test]
fn bookmarks_address_opens_the_native_surface_without_fetching() {
    let mut browser = browser();
    browser.navigate(target("about:bookmarks"));

    assert_eq!(browser.system_page(), Some(SystemPage::Bookmarks));
    assert_eq!(browser.tabs()[0].url, "about:bookmarks");
    assert!(browser.tabs()[0].error.is_none());
}

#[test]
fn the_bookmark_command_keeps_the_page_and_then_drops_it() {
    let mut browser = browser();
    browser.navigate(target("https://example.test/keep"));
    arrive(&mut browser, "Kept");
    assert!(!browser.is_bookmarked());
    assert_eq!(browser.ui().bookmark, Bookmarked::No);

    menu(&mut browser, MenuCommand::ToggleBookmark);
    assert!(browser.is_bookmarked());
    assert_eq!(
        browser.ui().bookmark,
        Bookmarked::Yes,
        "the star and the menu must know, or they offer to keep it twice"
    );
    let kept: Vec<(String, String)> = browser
        .bookmarks
        .iter()
        .map(|bookmark| (bookmark.url.clone(), bookmark.title.clone()))
        .collect();
    assert_eq!(
        kept,
        [("https://example.test/keep".to_owned(), "Kept".to_owned())],
        "the document's own title names it"
    );

    menu(&mut browser, MenuCommand::ToggleBookmark);
    assert!(!browser.is_bookmarked());
    assert_eq!(browser.ui().bookmark, Bookmarked::No);
    assert!(browser.bookmarks.is_empty());
}

#[test]
fn the_cookies_page_opens_and_closes() {
    let mut browser = browser();
    browser.navigate(target("about:cookies"));
    assert_eq!(browser.system_page(), Some(SystemPage::Cookies));
    assert_eq!(browser.tabs()[0].url, "about:cookies");

    let mut fresh = Browser::new(1);
    menu(&mut fresh, MenuCommand::ShowCookies);
    assert_eq!(fresh.system_page(), Some(SystemPage::Cookies));
    fresh.handle_cookies_action(CookiesAction::Close);
    assert_eq!(fresh.system_page(), None);
}

#[test]
fn the_page_can_be_rid_of_one_site_or_of_everything() {
    let mut browser = browser();
    browser.handle_cookies_action(CookiesAction::Settled);
    assert!(browser.told.is_empty());
    browser.handle_cookies_action(CookiesAction::ClearSite("one.test".to_owned()));
    assert!(matches!(&browser.told[0], Command::ClearSite(site) if site == "one.test"));
    assert!(matches!(browser.told[1], Command::FlushCookies), "at once, not at the next fetch");
    browser.handle_cookies_action(CookiesAction::Clear);
    assert!(matches!(browser.told[2], Command::ClearCookies));
    assert!(matches!(browser.told[3], Command::FlushCookies));
}

#[test]
fn the_third_party_switch_reaches_the_jar() {
    let mut browser = browser();
    assert!(browser.accepts_third_party, "the default is what every browser still ships");

    browser.settings.block_third_party_cookies = true;
    browser.handle_settings_action(SettingsAction::Applied);
    assert!(!browser.accepts_third_party);

    // And a browser built from preferences that already say so starts that way.
    let mut settings = Settings::new();
    settings.block_third_party_cookies = true;
    let started = Browser::with_settings(1, settings);
    assert!(!started.accepts_third_party);
}

#[test]
fn the_bookmark_command_does_nothing_on_a_blank_tab() {
    let mut browser = browser();
    assert_eq!(
        browser.ui().bookmark,
        Bookmarked::Impossible,
        "and the star says as much rather than looking pressable"
    );
    menu(&mut browser, MenuCommand::ToggleBookmark);
    assert!(browser.bookmarks.is_empty());
}

#[test]
fn the_native_bookmarks_command_opens_the_page() {
    let mut browser = browser();
    menu(&mut browser, MenuCommand::ShowBookmarks);
    assert_eq!(browser.system_page(), Some(SystemPage::Bookmarks));
}

#[test]
fn a_kept_page_can_be_opened_from_the_list_again() {
    let mut browser = browser();
    browser.bookmarks.push(Place {
        url: "https://example.test/keep".to_owned(),
        title: "Kept".to_owned(),
    });
    browser.handle_bookmarks_action(BookmarksAction::Open(target("https://example.test/keep")));
    arrive(&mut browser, "Kept");

    assert_eq!(browser.tabs()[0].url, "https://example.test/keep");
    assert_eq!(
        browser.ui().bookmark,
        Bookmarked::Yes,
        "arriving at a kept page must fill the star"
    );
}

#[test]
fn leaving_the_settings_leaves_the_tab_blank_rather_than_still_on_them() {
    let mut browser = browser();
    browser.navigate(target("about:settings"));
    browser.handle_settings_action(SettingsAction::Close);

    assert_eq!(browser.system_page(), None);
    assert_eq!(browser.ui().address, "");
    assert_eq!(browser.tabs()[0].title, "New tab");
}

#[test]
fn bookmarks_are_removed_one_by_one_or_all_at_once() {
    let mut browser = browser();
    for name in ["a", "b", "c"] {
        browser.bookmarks.push(Place { url: name.to_owned(), title: name.to_owned() });
    }
    browser.handle_bookmarks_action(BookmarksAction::Remove("b".to_owned()));
    let left: Vec<&str> = browser.bookmarks.iter().map(|place| place.url.as_str()).collect();
    assert_eq!(left, ["a", "c"]);
    browser.handle_bookmarks_action(BookmarksAction::Clear);
    assert!(browser.bookmarks.is_empty());
}

#[test]
fn the_history_is_emptied_and_the_cache_and_the_downloads_with_it() {
    let mut browser = browser();
    browser.navigate(target("about:otlyra"));
    assert_eq!(browser.visits.len(), 1);
    browser.told.clear();
    browser.handle_history_action(HistoryAction::Clear);
    assert!(browser.visits.is_empty());
    browser.handle_cache_action(CacheAction::Clear);
    browser.handle_downloads_action(DownloadsAction::Clear);
    assert!(matches!(browser.told[0], Command::ClearVisits));
    assert!(matches!(browser.told[1], Command::ClearCache));
    assert!(matches!(browser.told[2], Command::ClearDownloads));
}

#[test]
fn a_download_is_saved_where_the_reader_said_and_again_where_they_say_now() {
    let mut browser = browser();
    browser.handle_downloads_action(DownloadsAction::Save(3, None));
    browser.handle_downloads_action(DownloadsAction::Retry(3, Some(Attempt::Into("a".to_owned()))));
    assert!(browser.told.is_empty(), "no file was named and there is no folder");

    browser.handle_settings_action(SettingsAction::DownloadDirectoryChosen(Some("/d".to_owned())));
    assert!(matches!(browser.told[0], Command::SavePreferences));
    assert_eq!(browser.download_directory().as_deref(), Some("/d"));
    browser.handle_downloads_action(DownloadsAction::Save(3, Some("/x/a".to_owned())));
    browser.handle_downloads_action(DownloadsAction::Retry(3, Some(Attempt::Into("a".to_owned()))));
    browser.handle_downloads_action(DownloadsAction::Retry(4, Some(Attempt::Exact("/y".to_owned()))));
    browser.handle_downloads_action(DownloadsAction::Retry(5, None));
    assert!(matches!(&browser.told[1], Command::Save(3, Destination::Exact(path)) if path == "/x/a"));
    assert!(matches!(
        &browser.told[2],
        Command::Save(3, Destination::Into { directory, filename })
            if directory == "/d" && filename == "a"
    ));
    assert!(matches!(&browser.told[3], Command::Save(4, Destination::Exact(path)) if path == "/y"));
    assert_eq!(browser.told.len(), 4);
}

#[test]
fn a_dialogue_opens_only_in_a_folder_that_is_there() {
    let there = choose_download_path("a.csv".to_owned(), Some("/d".to_owned()), true);
    assert_eq!(there.filename.as_deref(), Some("a.csv"));
    assert_eq!(there.directory.as_deref(), Some("/d"));
    let gone = choose_download_path("a.csv".to_owned(), Some("/d".to_owned()), false);
    assert_eq!(gone.directory, None);
    assert_eq!(choose_download_directory(Some("/d".to_owned()), true).directory.as_deref(), Some("/d"));
    assert_eq!(choose_download_directory(Some("/d".to_owned()), false).directory, None);
}

#[test]
fn a_file_picker_takes_only_extensions_and_files_that_fit() {
    let hints = vec![".png".to_owned(), "image/*".to_owned(), ".tar.gz".to_owned(), String::new()];
    assert_eq!(extensions(&hints), ["png", "tar.gz"]);
    assert!(may_send(LARGEST_FILE));
    assert!(!may_send(LARGEST_FILE + 1));
}

#[test]
fn a_new_tab_has_no_star() {
    let mut browser = browser();
    browser.navigate(target("https://kept.example/"));
    arrive(&mut browser, "Kept");
    menu(&mut browser, MenuCommand::ToggleBookmark);
    assert_eq!(browser.ui().bookmark, Bookmarked::Yes);
    browser.new_tab();
    assert_eq!(browser.ui().bookmark, Bookmarked::Impossible, "there is nothing to keep");
    browser.select_tab(0);
    assert_eq!(browser.ui().bookmark, Bookmarked::Yes);
    browser.close_tab(1);
    browser.close_tab(0);
    assert_eq!(browser.ui().bookmark, Bookmarked::Impossible);
}
