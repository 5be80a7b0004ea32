//! Going places: loads, the history, reloading, stopping, and what a page asks for.

use otlyra_app::arriving::{
    Arrival, Document, Fetched, ParseState, ParseStep, Resource, ScriptNavigation, SourceTag,
    SCRIPT_HOP_LIMIT,
};
use otlyra_app::asking::Link;
use otlyra_app::browser::{
    Body, Browser, CacheMode, Command, Request, ResourceKind, Settings, Target,
};
use otlyra_app::building::{Parsed, PictureTag, ScriptTag, SheetTag, STYLESHEET_LIMIT};
use otlyra_app::frames::PageSource;
use otlyra_app::images::Picture;
use otlyra_app::navigation::{form_target, link_target, Method, Submission};
use otlyra_app::needs::{BackgroundTag, ChoiceTag, FaceTag, Showing};
use otlyra_app::offering::{PageFacts, UiAction};
use otlyra_app::pages::{HistoryAction, SettingsAction};
use otlyra_app::system::SystemPage;
use otlyra_app::zoom::ZoomStep;

/// The site an address is on.
fn site_of(url: &str) -> Option<String> {
    let rest = url.strip_prefix("https://")?;
    let host = rest.split('/').next().unwrap_or(rest);
    Some(format!("https://{host}"))
}

fn target(url: &str) -> Target {
    Target { url: url.to_owned(), site: site_of(url), refused: false }
}

fn refused(url: &str) -> Target {
    Target { url: url.to_owned(), site: site_of(url), refused: true }
}

fn link(url: &str) -> Link {
    Link { resolved: Some(url.to_owned()), refused: false }
}

fn facts() -> PageFacts {
    PageFacts { occurrences: 0, refused: false, selected: None, takes_focus: false }
}

/// A document with a title and nothing else in it.
fn titled(title: &str) -> Parsed {
    Parsed {
        title: Some(title.to_owned()),
        sheets: Vec::new(),
        pictures: Vec::new(),
        deferred: Vec::new(),
        stopped_at: None,
        runner: false,
    }
}

/// Where a bare host name ends up, the way a loader normalizes one.
fn final_url(url: &str) -> String {
    if url.contains("://") {
        url.to_owned()
    } else {
        format!("https://{url}/")
    }
}

fn arrival(url: &str, parsed: Parsed) -> Arrival {
    Arrival::Document(Document {
        site: site_of(url),
        url: url.to_owned(),
        scripts: Some(Vec::new()),
        parsed,
    })
}

fn text(text: &str) -> Resource {
    Resource { text: text.to_owned(), picture: None, registered: false }
}

/// What a fake loader answers a request for a document with.
type Pages = fn(&str) -> Result<(String, Parsed), String>;

fn canned(url: &str) -> Result<(String, Parsed), String> {
    if url == "broken.example" {
        return Err("could not fetch broken.example".to_owned());
    }
    Ok((final_url(url), titled(&format!("Title of {url}"))))
}

/// Answer everything on the wire until nothing is, noting what was asked for.
fn settle_with(browser: &mut Browser, pages: Pages, log: &mut Vec<String>) {
    loop {
        let wire: Vec<Request> = std::mem::take(&mut browser.requests);
        if wire.is_empty() {
            return;
        }
        for request in wire {
            log.push(request.url.clone());
            let fetched = match request.kind {
                ResourceKind::Document => Fetched::Document {
                    id: request.id,
                    result: pages(&request.url).map(|(url, parsed)| arrival(&url, parsed)),
                },
                ResourceKind::Image => Fetched::Resource {
                    id: request.id,
                    url: request.url,
                    result: Ok(Resource {
                        text: String::new(),
                        picture: Some(Picture { handle: request.id, bytes: 4 }),
                        registered: false,
                    }),
                },
                _ => Fetched::Resource {
                    id: request.id,
                    url: request.url,
                    result: Ok(Resource { registered: true, ..text("p { color: green }") }),
                },
            };
            browser.receive(fetched);
        }
    }
}

fn settle(browser: &mut Browser) {
    settle_with(browser, canned, &mut Vec::new());
}

fn go(browser: &mut Browser, url: &str) {
    browser.navigate(target(url));
    settle(browser);
}

fn type_url(browser: &mut Browser, url: &str, log: &mut Vec<String>) {
    browser.apply(UiAction::Navigate(target(url)), facts());
    settle_with(browser, canned, log);
}

fn browser() -> Browser {
    Browser::new(1)
}

fn scroll_to(browser: &mut Browser, index: usize, scroll: f32) {
    browser.tabs[index].page.as_mut().expect("a page").scroll = scroll.to_bits();
}

fn scroll(browser: &Browser, index: usize) -> f32 {
    f32::from_bits(browser.tabs()[index].page.as_ref().expect("a page").scroll)
}

fn visits(browser: &Browser) -> Vec<&str> {
    browser.visits.iter().map(|visit| visit.place.url.as_str()).collect()
}

#[test]
fn typing_an_address_and_pressing_enter_loads_it() {
    let mut browser = browser();
    let mut requested = Vec::new();
    type_url(&mut browser, "example.com", &mut requested);

    assert_eq!(requested, ["example.com"]);
    assert_eq!(browser.tabs()[0].title, "Title of example.com");
    assert!(browser.tabs()[0].page.is_some());
}

#[test]
fn a_navigation_lands_in_the_history_once_with_its_final_url() {
    let mut browser = browser();
    go(&mut browser, "example.com");
    assert_eq!(visits(&browser), ["https://example.com/"]);

    // The same address again moved nowhere, so it is not a second visit.
    go(&mut browser, "https://example.com/");
    assert_eq!(browser.visits.len(), 1);

    // And going back re-reads a place already recorded.
    go(&mut browser, "https://two.example/");
    browser.go_back();
    settle(&mut browser);
    assert_eq!(browser.visits.len(), 2, "back re-reads, it does not re-visit");
}

#[test]
fn a_press_on_a_history_row_navigates_there() {
    let mut browser = browser();
    go(&mut browser, "example.com");
    browser.open_system(SystemPage::History);
    assert_eq!(browser.system_page(), Some(SystemPage::History));

    browser.handle_history_action(HistoryAction::Open(target("https://example.com/")));
    settle(&mut browser);
    assert!(browser.system_page().is_none(), "a visit's row navigates when pressed");
    assert_eq!(browser.ui().address, "https://example.com/");
}

#[test]
fn the_address_bar_shows_the_final_url() {
    let mut browser = browser();
    type_url(&mut browser, "example.com", &mut Vec::new());
    assert_eq!(browser.ui().address, "https://example.com/");
}

#[test]
fn a_failed_load_keeps_the_tab_and_says_what_happened() {
    let mut browser = browser();
    type_url(&mut browser, "broken.example", &mut Vec::new());

    assert_eq!(browser.tabs().len(), 1);
    assert!(browser.tabs()[0].page.is_none());
    assert_eq!(browser.tabs()[0].title, "Failed");
    assert!(browser.tabs()[0]
        .error
        .as_deref()
        .is_some_and(|error| error.contains("broken.example")));
}

#[test]
fn tabs_are_opened_selected_and_closed() {
    let mut browser = browser();
    type_url(&mut browser, "first.example", &mut Vec::new());

    browser.new_tab();
    assert_eq!(browser.tabs().len(), 2);
    assert_eq!(browser.active(), 1);
    type_url(&mut browser, "second.example", &mut Vec::new());

    browser.select_tab(0);
    assert_eq!(browser.active(), 0);
    assert_eq!(
        browser.ui().address,
        "https://first.example/",
        "switching tabs puts that tab's address back"
    );

    browser.close_tab(0);
    assert_eq!(browser.tabs().len(), 1);
    assert_eq!(browser.tabs()[0].title, "Title of second.example");
}

#[test]
fn closing_the_last_tab_empties_it_rather_than_leaving_no_tabs() {
    let mut browser = browser();
    type_url(&mut browser, "example.com", &mut Vec::new());
    browser.close_tab(0);

    assert_eq!(browser.tabs().len(), 1);
    assert!(browser.tabs()[0].page.is_none());
    assert_eq!(browser.ui().address, "");
}

#[test]
fn back_and_forward_walk_the_history() {
    let mut browser = browser();
    assert!(!browser.can_go_back() && !browser.can_go_forward());

    go(&mut browser, "one.example");
    assert!(!browser.can_go_back(), "one entry is nowhere to go back to");
    go(&mut browser, "two.example");
    go(&mut browser, "three.example");

    assert!(browser.can_go_back() && !browser.can_go_forward());
    browser.go_back();
    settle(&mut browser);
    assert_eq!(browser.tabs()[0].url, "https://two.example/");
    assert!(browser.can_go_forward());

    browser.go_back();
    settle(&mut browser);
    assert_eq!(browser.tabs()[0].url, "https://one.example/");
    assert!(!browser.can_go_back());
    browser.go_back();
    settle(&mut browser);
    assert_eq!(browser.tabs()[0].url, "https://one.example/", "and no further");

    browser.go_forward();
    settle(&mut browser);
    browser.go_forward();
    settle(&mut browser);
    assert_eq!(browser.tabs()[0].url, "https://three.example/");
    browser.go_forward();
    settle(&mut browser);
    assert_eq!(browser.tabs()[0].url, "https://three.example/", "nor further");
}

#[test]
fn navigating_after_going_back_drops_the_forward_entries() {
    let mut browser = browser();
    go(&mut browser, "one.example");
    go(&mut browser, "two.example");
    browser.go_back();
    settle(&mut browser);
    go(&mut browser, "three.example");

    assert!(!browser.can_go_forward());
    browser.go_back();
    settle(&mut browser);
    assert_eq!(browser.tabs()[0].url, "https://one.example/");
}

#[test]
fn a_reload_adds_no_history_entry() {
    let mut browser = browser();
    go(&mut browser, "one.example");
    go(&mut browser, "two.example");
    browser.reload(false);
    settle(&mut browser);

    assert!(!browser.can_go_forward());
    browser.go_back();
    settle(&mut browser);
    assert_eq!(browser.tabs()[0].url, "https://one.example/");
}

#[test]
fn going_back_restores_where_the_reader_was() {
    let mut browser = browser();
    go(&mut browser, "long.example");
    scroll_to(&mut browser, 0, 120.0);

    go(&mut browser, "long.example/second");
    browser.go_back();
    settle(&mut browser);
    assert_eq!(scroll(&browser, 0), 120.0);
}

#[test]
fn reloading_keeps_the_scroll_position() {
    let mut browser = browser();
    go(&mut browser, "long.example");
    scroll_to(&mut browser, 0, 200.0);

    browser.reload(false);
    settle(&mut browser);
    assert_eq!(scroll(&browser, 0), 200.0);
    assert!(browser.told.iter().any(|command| {
        matches!(command, Command::SetScroll(_, bits) if *bits == 200.0f32.to_bits())
    }));
}

#[test]
fn reloading_fetches_the_same_address_again() {
    let mut browser = browser();
    let mut requested = Vec::new();
    type_url(&mut browser, "example.com", &mut requested);
    browser.reload(false);
    settle_with(&mut browser, canned, &mut requested);

    assert_eq!(
        requested,
        ["example.com", "https://example.com/"],
        "the reload asks for where the first load ended up"
    );
}

#[test]
fn reloading_a_blank_tab_does_nothing() {
    let mut browser = browser();
    let mut requested = Vec::new();
    browser.reload(false);
    settle_with(&mut browser, canned, &mut requested);
    assert!(requested.is_empty());
}

#[test]
fn a_reload_does_not_make_every_later_click_a_reload() {
    let mut browser = browser();
    browser.navigate(target("https://example.test/"));
    browser.reload(false);
    assert_eq!(
        browser.next_cache_mode,
        CacheMode::Default,
        "the navigation it was set for took it"
    );
    browser.reload_ignoring_cache(false);
    assert_eq!(browser.next_cache_mode, CacheMode::Default);

    browser.navigate(target("https://example.test/later"));
    let modes: Vec<CacheMode> = browser.requests.iter().map(|request| request.cache).collect();
    assert_eq!(
        modes,
        [CacheMode::Default, CacheMode::Revalidate, CacheMode::Bypass, CacheMode::Default]
    );
}

#[test]
fn a_hard_reload_empties_the_cache_and_an_ordinary_one_does_not() {
    let mut browser = browser();
    browser.navigate(target("https://example.test/"));
    let emptied = |browser: &Browser| {
        browser.told.iter().any(|command| matches!(command, Command::ClearCache))
    };

    browser.reload(false);
    assert!(
        !emptied(&browser),
        "an ordinary reload asks about what is kept rather than throwing it away"
    );
    browser.reload_ignoring_cache(false);
    assert!(emptied(&browser), "and a hard one starts over");
}

#[test]
fn stopping_a_load_rejects_its_late_document() {
    let mut browser = browser();
    go(&mut browser, "first.example");
    browser.navigate(target("second.example"));
    assert!(browser.tabs()[0].loading());
    let late = browser.requests[0].id;

    browser.stop();
    assert!(!browser.tabs()[0].loading(), "the spinner should stop at once");

    let received = browser.receive(Fetched::Document {
        id: late,
        result: Ok(arrival("https://second.example/", titled("Second"))),
    });
    assert!(!received.changed);
    assert!(browser.tabs()[0].page.is_some(), "the first page remains");
    assert_eq!(browser.finished.len(), 1, "and nothing else was built");
}

#[test]
fn a_web_page_may_not_navigate_to_a_file_url() {
    let mut browser = browser();
    let mut requested = Vec::new();
    type_url(&mut browser, "example.com", &mut requested);
    browser.navigate_from(refused("file:///etc/passwd"), false);
    settle_with(&mut browser, canned, &mut requested);

    assert_eq!(browser.tabs()[0].url, "https://example.com/");
    assert_eq!(
        browser.tabs()[0].error.as_deref(),
        Some("Refused to open file:///etc/passwd from https://example.com/")
    );
    assert_eq!(requested, ["example.com"], "the loader is never even asked");
}

#[test]
fn the_user_may_open_a_file_url_and_so_may_a_local_page() {
    let mut browser = browser();
    let mut requested = Vec::new();
    browser.navigate(refused("file:///tmp/one.html"));
    settle_with(&mut browser, canned, &mut requested);
    assert_eq!(requested.len(), 1);

    browser.navigate_from(target("file:///tmp/two.html"), false);
    settle_with(&mut browser, canned, &mut requested);
    assert_eq!(requested.len(), 2, "a local page's own link is allowed");
}

#[test]
fn a_web_page_may_not_link_a_stylesheet_on_disk() {
    fn disk(_: &str) -> Result<(String, Parsed), String> {
        let mut parsed = titled("Site");
        parsed.sheets.push(SheetTag {
            node: 7,
            link: Link { resolved: Some("file:///etc/theme.css".to_owned()), refused: true },
        });
        Ok(("https://site.example/".to_owned(), parsed))
    }

    let mut browser = browser();
    let mut requested = Vec::new();
    browser.navigate(target("site.example"));
    settle_with(&mut browser, disk, &mut requested);
    assert_eq!(requested, ["site.example"]);
    assert!(browser.tabs()[0].page.is_some());
    assert!(!browser.tabs()[0].loading());
}

/// A site whose stylesheets live in files next to the page.
fn site(_: &str) -> Result<(String, Parsed), String> {
    let mut parsed = titled("Site");
    for (node, name) in [(3, "site.css"), (4, "missing.css")] {
        let url = format!("https://site.example/{name}");
        parsed.sheets.push(SheetTag { node, link: link(&url) });
    }
    Ok(("https://site.example/".to_owned(), parsed))
}

#[test]
fn navigation_fetches_the_stylesheets_the_page_links() {
    let mut browser = browser();
    let mut requested = Vec::new();
    browser.navigate(target("site.example"));
    settle_with(&mut browser, site, &mut requested);
    requested.sort();
    assert_eq!(
        requested,
        [
            "https://site.example/missing.css",
            "https://site.example/site.css",
            "site.example"
        ],
        "the icon is not a stylesheet and is not fetched"
    );
    let load = &browser.finished[0].load;
    assert_eq!(load.sheets.get(&3).map(String::as_str), Some("p { color: green }"));
}

#[test]
fn a_failed_stylesheet_is_waited_for_no_longer() {
    let mut browser = browser();
    browser.navigate(target("site.example"));
    let document = browser.requests.remove(0);
    let (url, parsed) = site("").expect("a page");
    browser.receive(Fetched::Document { id: document.id, result: Ok(arrival(&url, parsed)) });
    assert!(browser.tabs()[0].page.is_some(), "shown before its sheets have come");
    let sheets: Vec<u64> = browser.requests.iter().map(|request| request.id).collect();
    assert_eq!(sheets.len(), 2);

    let answer = |id: u64, result: Result<Resource, String>| Fetched::Resource {
        id,
        url: "https://site.example/sheet".to_owned(),
        result,
    };
    let first = browser.receive(answer(sheets[0], Ok(text("a"))));
    assert!(first.changed && first.resume.is_none());
    assert!(browser.tabs()[0].loading());
    browser.receive(answer(sheets[1], Err("404".to_owned())));
    assert!(!browser.tabs()[0].loading());
    assert_eq!(browser.finished[0].load.sheets.len(), 1);

    let again = browser.receive(answer(sheets[1], Ok(text("late"))));
    assert!(!again.changed, "nobody waits for it any more");
}

#[test]
fn a_document_is_not_drawn_before_the_stylesheet_it_links() {
    let mut browser = browser();
    browser.navigate(target("slow.example"));
    let document = browser.requests.remove(0);
    let mut parsed = titled("T");
    parsed.sheets.push(SheetTag { node: 9, link: link("https://slow.example/s.css") });
    browser.receive(Fetched::Document {
        id: document.id,
        result: Ok(arrival("https://slow.example/", parsed)),
    });
    assert!(browser.blocked_on_style(0, &Vec::new()), "the sheet is still outstanding");
    assert_eq!(
        browser.page_source(&Vec::new()),
        PageSource::Blank,
        "the document was drawn before its stylesheet arrived"
    );

    settle(&mut browser);
    assert!(!browser.blocked_on_style(0, &Vec::new()), "the sheet arrived");
    assert_eq!(
        browser.page_source(&Vec::new()),
        PageSource::Document,
        "and it was drawn once the stylesheet was in"
    );
}

#[test]
fn a_print_stylesheet_does_not_hold_the_screen() {
    let mut browser = browser();
    browser.navigate(target("print.example"));
    let document = browser.requests.remove(0);
    let mut parsed = titled("T");
    parsed.sheets.push(SheetTag { node: 9, link: link("https://print.example/p.css") });
    browser.receive(Fetched::Document {
        id: document.id,
        result: Ok(arrival("https://print.example/", parsed)),
    });
    assert!(!browser.blocked_on_style(0, &vec![9]), "a print-only sheet held the screen");
    assert_eq!(
        browser.page_source(&vec![9]),
        PageSource::Document,
        "the document was drawn while the print sheet was still coming"
    );
}

/// A page that shows one picture twice.
fn pictures(_: &str) -> Result<(String, Parsed), String> {
    let mut parsed = titled("Pictures");
    for node in [11, 12] {
        parsed.pictures.push(PictureTag {
            node,
            src: "/pic.png".to_owned(),
            density: 1.0f32.to_bits(),
            link: link("https://pictures.example/pic.png"),
        });
    }
    Ok(("https://pictures.example/".to_owned(), parsed))
}

#[test]
fn a_cached_picture_is_not_fetched_twice() {
    let mut browser = browser();
    let mut requested = Vec::new();
    let fetches = |requested: &Vec<String>| {
        requested.iter().filter(|url| url.ends_with(".png")).count()
    };

    browser.navigate(target("pictures.example"));
    settle_with(&mut browser, pictures, &mut requested);
    assert_eq!(
        fetches(&requested),
        1,
        "one address, one fetch, however many elements ask for it"
    );
    assert_eq!(browser.finished[0].load.images.len(), 2);

    browser.navigate(target("pictures.example"));
    settle_with(&mut browser, pictures, &mut requested);
    assert_eq!(fetches(&requested), 1, "the picture was decoded again on the second visit");
    assert_eq!(browser.finished[1].load.images.len(), 2);
}

#[test]
fn turning_pictures_off_means_none_are_asked_for() {
    let asked = |browser: &mut Browser| {
        let mut requested = Vec::new();
        browser.navigate(target("https://pictures.example/"));
        settle_with(browser, pictures, &mut requested);
        requested
    };

    let with = asked(&mut browser());
    assert!(with.iter().any(|url| url.contains("pic.png")), "asked for by default: {with:?}");

    let mut settings = Settings::new();
    settings.load_images = false;
    let without = asked(&mut Browser::with_settings(1, settings));
    assert!(!without.iter().any(|url| url.contains("pic.png")), "{without:?}");
    assert!(
        without.iter().any(|url| url.contains("pictures.example")),
        "the page itself still loads"
    );
}

#[test]
fn a_widened_window_asks_for_a_larger_picture() {
    let mut browser = browser();
    let choice = |src: &str, showing: &str| ChoiceTag {
        node: 5,
        src: src.to_owned(),
        density: 1.0f32.to_bits(),
        link: link(&format!("https://pictures.example{src}")),
        showing: Some(Showing { src: showing.to_owned(), same_density: true }),
    };
    browser.navigate(target("pictures.example"));
    settle_with(&mut browser, pictures, &mut Vec::new());

    let narrow = (400.0f32.to_bits(), 1.0f32.to_bits());
    assert!(browser.window_changed(narrow));
    assert!(!browser.window_changed(narrow), "asked once for one window");
    browser.rechoose_pictures(0, vec![choice("/narrow.png", "/narrow.png")]);
    assert!(browser.requests.is_empty(), "a narrow window takes the small file");

    let wide = (1400.0f32.to_bits(), 1.0f32.to_bits());
    assert!(browser.window_changed(wide));
    browser.rechoose_pictures(0, vec![choice("/wide.png", "/narrow.png")]);
    assert_eq!(browser.requests[0].url, "https://pictures.example/wide.png");
    settle(&mut browser);
    let tab = browser.tabs()[0].id;
    assert!(
        browser.told.iter().any(|command| matches!(
            command,
            Command::SetImage(id, 5, src, _, _) if *id == tab && src == "/wide.png"
        )),
        "the element now holds it"
    );
}

#[test]
fn a_page_brings_its_own_font() {
    let mut browser = browser();
    go(&mut browser, "https://type.example/");
    let face = || FaceTag {
        family: "Brought".to_owned(),
        sources: vec![
            Link { resolved: Some("file:///fonts/x.ttf".to_owned()), refused: true },
            link("https://type.example/fonts/brought.ttf"),
            link("https://type.example/fonts/second.ttf"),
        ],
    };
    browser.fetch_fonts(0, vec![face()]);
    browser.fetch_fonts(0, vec![face()]);
    assert_eq!(browser.requests.len(), 1, "asked for once");
    assert_eq!(browser.requests[0].url, "https://type.example/fonts/brought.ttf");
    assert!(!browser.frame_is_complete());

    settle(&mut browser);
    assert!(browser.frame_is_complete());
    let tab = browser.tabs()[0].id;
    assert!(browser
        .told
        .iter()
        .any(|command| matches!(command, Command::FontArrived(id) if *id == tab)));
}

#[test]
fn a_face_that_cannot_be_registered_changes_nothing() {
    let mut browser = browser();
    go(&mut browser, "https://type.example/");
    browser.fetch_fonts(
        0,
        vec![FaceTag { family: "B".to_owned(), sources: vec![link("https://type.example/b.ttf")] }],
    );
    let id = browser.requests[0].id;
    let received = browser.receive(Fetched::Resource {
        id,
        url: "https://type.example/b.ttf".to_owned(),
        result: Ok(text("not a face")),
    });
    assert!(!received.changed);
}

#[test]
fn a_background_is_given_to_its_page_and_asked_for_once() {
    let mut browser = browser();
    go(&mut browser, "https://paper.example/");
    let tags = || {
        vec![
            BackgroundTag { url: "paper.png".to_owned(), link: link("https://paper.example/paper.png") },
            BackgroundTag {
                url: "file:///x.png".to_owned(),
                link: Link { resolved: Some("file:///x.png".to_owned()), refused: true },
            },
        ]
    };
    browser.fetch_backgrounds(0, tags());
    assert_eq!(browser.requests.len(), 1, "what may not be fetched is not");
    browser.fetch_backgrounds(0, tags());
    assert_eq!(browser.requests.len(), 1, "and nothing is asked for twice");

    settle(&mut browser);
    assert!(browser
        .told
        .iter()
        .any(|command| matches!(command, Command::SetPicture(_, url, _) if url == "paper.png")));
}

#[test]
fn two_tabs_keep_their_own_contents_across_a_switch() {
    let mut browser = browser();
    go(&mut browser, "long.example");

    browser.new_tab();
    browser.open_system(SystemPage::Settings);
    assert_eq!(browser.system_page(), Some(SystemPage::Settings));

    browser.select_tab(0);
    assert_eq!(browser.system_page(), None);
    assert!(browser.tabs()[0].page.is_some());

    browser.select_tab(1);
    assert_eq!(browser.system_page(), Some(SystemPage::Settings));
    assert!(browser.tabs()[1].page.is_none());
}

#[test]
fn the_history_walks_through_a_browser_page_like_any_other() {
    let mut browser = browser();
    go(&mut browser, "long.example");
    let document = browser.tabs()[0].url.clone();
    scroll_to(&mut browser, 0, 120.0);

    browser.open_system(SystemPage::Settings);
    assert_eq!(browser.tabs()[0].url, "about:settings");

    browser.go_back();
    settle(&mut browser);
    assert_eq!(browser.tabs()[0].url, document);
    assert_eq!(scroll(&browser, 0), 120.0, "and at the place it was left at");

    browser.go_forward();
    settle(&mut browser);
    assert_eq!(browser.system_page(), Some(SystemPage::Settings));
}

#[test]
fn done_goes_back_rather_than_wiping_the_tab() {
    let mut browser = browser();
    go(&mut browser, "long.example");
    let document = browser.tabs()[0].url.clone();
    browser.open_system(SystemPage::Settings);

    browser.handle_settings_action(SettingsAction::Close);
    settle(&mut browser);
    assert_eq!(browser.tabs()[0].url, document, "the reader goes back to what they were reading");

    // And with nowhere to go back to, an empty tab rather than a settings page nobody can
    // leave.
    let mut fresh = Browser::new(1);
    fresh.open_system(SystemPage::Settings);
    fresh.handle_settings_action(SettingsAction::Close);
    assert_eq!(fresh.system_page(), None);
    assert!(fresh.tabs()[0].url.is_empty());
}

#[test]
fn a_browser_page_is_left_and_returned_to_where_the_reader_was() {
    let mut browser = browser();
    browser.open_system(SystemPage::Settings);
    let left_at = 140.0f32.to_bits();
    browser.settings.scroll = left_at;

    go(&mut browser, "long.example");

    // Scrambled while nobody is looking at it: what brings the reader back to where they
    // were is the history entry.
    browser.settings.scroll = 999.0f32.to_bits();

    browser.go_back();
    settle(&mut browser);
    assert_eq!(browser.system_page(), Some(SystemPage::Settings));
    assert_eq!(
        browser.settings.scroll, left_at,
        "and a browser page is returned to where the reader was, like any other"
    );
}

#[test]
fn a_browser_page_is_reached_by_typing_its_address() {
    let mut browser = browser();
    browser.navigate(target("about:settings"));
    assert_eq!(browser.system_page(), Some(SystemPage::Settings));
    assert_eq!(browser.ui().address, "about:settings");
}

#[test]
fn a_form_that_posts_sends_its_body() {
    let mut browser = browser();
    go(&mut browser, "https://site.example/");
    let body = Body {
        content_type: "application/x-www-form-urlencoded".to_owned(),
        bytes: b"who=Ada".to_vec(),
    };
    browser.follow_submission(Submission {
        method: Method::Post,
        target: target("https://site.example/save"),
        body,
    });

    let sent = browser.requests.last().expect("the form was sent");
    assert_eq!(sent.url, "https://site.example/save");
    let body = sent.body.as_ref().expect("a POST carries a body");
    assert_eq!(body.content_type, "application/x-www-form-urlencoded");
    assert_eq!(body.bytes, b"who=Ada");
    settle(&mut browser);
    assert_eq!(
        browser.tabs()[browser.active()].url,
        "https://site.example/save",
        "and the tab is where the form sent it"
    );
}

#[test]
fn a_form_that_gets_carries_no_body_and_a_dialogue_sends_nothing() {
    let mut browser = browser();
    go(&mut browser, "https://site.example/");
    let form = |method| Submission {
        method,
        target: target("https://site.example/?who=Ada"),
        body: Body { content_type: String::new(), bytes: Vec::new() },
    };
    browser.follow_submission(form(Method::Dialog));
    assert!(browser.requests.is_empty());
    browser.follow_submission(form(Method::Get));
    assert_eq!(browser.requests.len(), 1);
    assert!(browser.requests[0].body.is_none());
}

#[test]
fn where_a_link_and_a_form_lead() {
    assert_eq!(link_target(Some("https://a.test/x".to_owned()), "/x".to_owned()), "https://a.test/x");
    assert_eq!(link_target(None, "mailto:x".to_owned()), "mailto:x");
    let here = || "https://a.test/page".to_owned();
    assert_eq!(form_target(here(), String::new(), None), "https://a.test/page");
    assert_eq!(
        form_target(here(), "/go".to_owned(), Some("https://a.test/go".to_owned())),
        "https://a.test/go"
    );
}

#[test]
fn a_zoom_belongs_to_the_site_it_was_set_on() {
    let mut browser = browser();
    go(&mut browser, "one.example");
    browser.step_zoom(ZoomStep::In);
    assert_eq!(browser.zoom(), 1_100_000);

    go(&mut browser, "two.example");
    assert_eq!(browser.zoom(), 1_000_000, "the next site is left alone");

    go(&mut browser, "one.example");
    assert_eq!(browser.zoom(), 1_100_000, "and the first is as it was left");

    // Every page of a site is the site.
    go(&mut browser, "https://one.example/deep/page");
    assert_eq!(browser.zoom(), 1_100_000);

    // Back to its own size and the site stops being one this browser knows anything about.
    browser.step_zoom(ZoomStep::Reset);
    assert!(browser.zooms.is_empty());
    assert_eq!(browser.zooms.get(&"https://one.example".to_owned()), None);
}

#[test]
fn a_script_waits_for_its_source_and_runs_where_it_stands() {
    let mut browser = browser();
    browser.navigate(target("https://app.example/"));
    let document = browser.requests.remove(0);
    let script = |node: u64, src: &str| ScriptTag {
        node,
        src: Some(format!(" {src} ")),
        link: link(&format!("https://app.example/{src}")),
    };
    let mut parsed = titled("App");
    parsed.stopped_at = Some(script(4, "main.js"));
    parsed.deferred.push(script(6, "later.js"));
    parsed.deferred.push(ScriptTag { node: 7, src: Some("  ".to_owned()), link: link("x") });
    browser.receive(Fetched::Document {
        id: document.id,
        result: Ok(Arrival::Document(Document {
            url: "https://app.example/".to_owned(),
            site: site_of("https://app.example/"),
            scripts: Some(vec![SourceTag {
                src: "main.js".to_owned(),
                link: link("https://app.example/main.js"),
            }]),
            parsed,
        })),
    });
    let asked: Vec<&str> = browser.requests.iter().map(|request| request.url.as_str()).collect();
    assert_eq!(
        asked,
        ["https://app.example/main.js", "https://app.example/later.js"],
        "what the scan asked for is adopted rather than asked for again"
    );
    let (main, later) = (browser.requests[0].id, browser.requests[1].id);
    assert!(matches!(browser.resume_parse(0), ParseStep::Rest), "its script is still coming");

    let received = browser.receive(Fetched::Resource {
        id: main,
        url: "https://app.example/main.js".to_owned(),
        result: Ok(text("go()")),
    });
    assert_eq!(received.resume, Some(0));
    match browser.resume_parse(0) {
        ParseStep::Supply { node, source } => {
            assert_eq!((node, source.as_str()), (4, "go()"));
        }
        step => panic!("{step:?}"),
    }

    // Stopped again, at one that never comes.
    browser.after_parse_step(0, ParseState::Stopped(script(9, "gone.js")));
    let gone = browser.requests.last().expect("asked for").id;
    let received = browser.receive(Fetched::Resource {
        id: gone,
        url: "https://app.example/gone.js".to_owned(),
        result: Err("404".to_owned()),
    });
    assert_eq!(received.resume, Some(0), "one that failed must not stop the page for ever");
    assert!(matches!(browser.resume_parse(0), ParseStep::Skip { node: 9 }));
    let mut whole = titled("App");
    whole.deferred.push(script(6, "later.js"));
    whole.runner = true;
    let asked = browser.requests.len();
    browser.after_parse_step(0, ParseState::Finished(whole));
    assert_eq!(browser.requests.len(), asked, "the deferred one is not asked for again");
    browser.finish_if_settled(0);
    assert!(browser.tabs()[0].loading(), "the deferred one is still coming");

    browser.receive(Fetched::Resource {
        id: later,
        url: "https://app.example/later.js".to_owned(),
        result: Ok(text("late()")),
    });
    browser.finish_if_settled(0);
    assert!(!browser.tabs()[0].loading());
    assert!(browser.tabs()[0].scripts, "the page's code outlives the load");
    let load = &browser.finished[0].load;
    assert_eq!(otlyra_app::arriving::scripts_to_run(load), [6]);
}

#[test]
fn no_more_than_so_many_stylesheets_are_asked_for() {
    let mut browser = browser();
    browser.navigate(target("https://many.example/"));
    let document = browser.requests.remove(0);
    let mut parsed = titled("Many");
    for node in 0..40u64 {
        parsed.sheets.push(SheetTag { node, link: link(&format!("https://many.example/{node}.css")) });
    }
    browser.receive(Fetched::Document {
        id: document.id,
        result: Ok(arrival("https://many.example/", parsed)),
    });
    assert_eq!(browser.requests.len(), STYLESHEET_LIMIT);
    assert_eq!(otlyra_app::asking::report_limit(40, STYLESHEET_LIMIT), Some(8));
    assert_eq!(otlyra_app::asking::report_limit(32, STYLESHEET_LIMIT), None);
}

#[test]
fn a_script_that_navigates_in_a_loop_is_stopped() {
    let mut browser = browser();
    go(&mut browser, "https://loop.example/");
    for _ in 0..SCRIPT_HOP_LIMIT {
        browser.follow_script_navigation(
            0,
            ScriptNavigation::Url { target: target("https://loop.example/next"), replace: true },
        );
        assert_eq!(browser.requests.len(), 1);
        settle(&mut browser);
    }
    browser.follow_script_navigation(0, ScriptNavigation::Reload(target("https://loop.example/")));
    assert!(browser.requests.is_empty(), "the loop goes no further");
    assert!(!browser.can_go_back(), "and none of it is an entry");

    // The reader going somewhere starts the count again.
    go(&mut browser, "https://other.example/");
    browser.follow_script_navigation(0, ScriptNavigation::Submit(None));
    browser.follow_script_navigation(0, ScriptNavigation::Reload(target("https://other.example/")));
    assert_eq!(browser.requests.len(), 1);
    assert_eq!(browser.hops(), 2);
}

#[test]
fn a_background_tab_is_not_followed_and_loads_on_its_own() {
    let mut browser = browser();
    browser.navigate(target("https://one.example/"));
    browser.new_tab();
    let first = browser.requests.remove(0);
    browser.receive(Fetched::Document {
        id: first.id,
        result: Ok(arrival("https://one.example/", titled("One"))),
    });
    assert_eq!(browser.tabs()[0].title, "One");
    assert_eq!(browser.ui().address, "", "the address is the active tab's");

    browser.follow_script_navigation(0, ScriptNavigation::Reload(target("https://one.example/")));
    assert!(browser.requests.is_empty());
}

#[test]
fn a_picture_goes_to_the_tab_it_was_asked_for() {
    let mut browser = browser();
    go(&mut browser, "https://zero.example/");
    browser.new_tab();
    go(&mut browser, "https://one.example/");
    browser.new_tab();
    go(&mut browser, "https://two.example/");
    let asker = browser.tabs()[1].id;
    let paper = |url: &str| BackgroundTag {
        url: url.to_owned(),
        link: link(&format!("https://one.example/{url}")),
    };
    browser.fetch_backgrounds(1, vec![paper("paper.png"), paper("wood.png")]);
    browser.rechoose_pictures(
        1,
        vec![ChoiceTag {
            node: 8,
            src: "large.png".to_owned(),
            density: 2.0f32.to_bits(),
            link: link("https://one.example/large.png"),
            showing: Some(Showing { src: "small.png".to_owned(), same_density: false }),
        }],
    );
    assert_eq!(browser.requests.len(), 3);
    let wood = browser.requests.remove(1);

    // The tab before it goes, and it is one place further on.
    browser.close_tab(0);
    browser.told.clear();
    settle(&mut browser);
    let given: Vec<_> = browser
        .told
        .iter()
        .filter_map(|command| match command {
            Command::SetPicture(tab, url, _) => Some((*tab, url.as_str())),
            Command::SetImage(tab, 8, src, _, _) => Some((*tab, src.as_str())),
            _ => None,
        })
        .collect();
    assert_eq!(given, [(asker, "paper.png"), (asker, "large.png")]);

    // And with the tab itself gone there is nobody to give it to.
    browser.close_tab(0);
    browser.told.clear();
    browser.receive(Fetched::Resource {
        id: wood.id,
        url: wood.url,
        result: Ok(Resource {
            text: String::new(),
            picture: Some(Picture { handle: 1, bytes: 4 }),
            registered: false,
        }),
    });
    assert!(browser.told.is_empty());
}

#[test]
fn what_a_document_names_after_its_last_script_is_asked_for() {
    let mut browser = browser();
    browser.navigate(target("https://site.example/"));
    let document = browser.requests.remove(0);
    let sheet = |node: u64, name: &str| SheetTag {
        node,
        link: link(&format!("https://site.example/{name}")),
    };
    let stop = || ScriptTag {
        node: 2,
        src: Some("/a.js".to_owned()),
        link: link("https://site.example/a.js"),
    };
    let mut so_far = titled("Site");
    so_far.title = None;
    so_far.sheets.push(sheet(1, "first.css"));
    so_far.stopped_at = Some(stop());
    browser.receive(Fetched::Document {
        id: document.id,
        result: Ok(arrival("https://site.example/", so_far)),
    });
    assert_eq!(browser.tabs()[0].title, "https://site.example/", "it has none yet");
    let wire: Vec<Request> = std::mem::take(&mut browser.requests);
    let asked: Vec<&str> = wire.iter().map(|request| request.url.as_str()).collect();
    assert_eq!(asked, ["https://site.example/first.css", "https://site.example/a.js"]);

    let script = Fetched::Resource {
        id: wire[1].id,
        url: wire[1].url.clone(),
        result: Ok(text("go()")),
    };
    assert_eq!(browser.receive(script).resume, Some(0));
    assert!(matches!(browser.resume_parse(0), ParseStep::Supply { node: 2, .. }));
    let mut whole = titled("Site");
    whole.sheets.push(sheet(1, "first.css"));
    whole.sheets.push(sheet(5, "s.css"));
    whole.pictures.push(PictureTag {
        node: 6,
        src: "late.png".to_owned(),
        density: 1.0f32.to_bits(),
        link: link("https://site.example/late.png"),
    });
    whole.deferred.push(ScriptTag {
        node: 7,
        src: Some("d.js".to_owned()),
        link: link("https://site.example/d.js"),
    });
    browser.after_parse_step(0, ParseState::Finished(whole));
    assert_eq!(browser.tabs()[0].title, "Site");
    let asked: Vec<&str> = browser.requests.iter().map(|request| request.url.as_str()).collect();
    assert_eq!(
        asked,
        [
            "https://site.example/s.css",
            "https://site.example/late.png",
            "https://site.example/d.js"
        ],
        "and what was asked for already is not asked for again"
    );
    browser.finish_if_settled(0);
    assert!(browser.tabs()[0].loading(), "the page is not built before they come");

    let first = Fetched::Resource {
        id: wire[0].id,
        url: wire[0].url.clone(),
        result: Ok(text("p {}")),
    };
    browser.receive(first);
    settle(&mut browser);
    browser.finish_if_settled(0);
    assert!(!browser.tabs()[0].loading());
    let load = &browser.finished[0].load;
    assert_eq!(load.sheets.len(), 2);
    assert!(load.images.contains_key(&6));
    assert_eq!(otlyra_app::arriving::scripts_to_run(load), [7]);
}

#[test]
fn the_limit_on_stylesheets_is_on_the_document_as_a_whole() {
    let mut browser = browser();
    browser.navigate(target("https://many.example/"));
    let document = browser.requests.remove(0);
    let sheets = |count: u64| -> Vec<SheetTag> {
        (0..count)
            .map(|node| SheetTag { node, link: link(&format!("https://many.example/{node}.css")) })
            .collect()
    };
    let mut so_far = titled("Many");
    so_far.sheets = sheets(STYLESHEET_LIMIT as u64 - 1);
    so_far.stopped_at = Some(ScriptTag { node: 900, src: None, link: link("x") });
    let received = browser.receive(Fetched::Document {
        id: document.id,
        result: Ok(arrival("https://many.example/", so_far)),
    });
    assert_eq!(browser.requests.len(), STYLESHEET_LIMIT - 1);

    // A script with nothing to fetch does not stop the page either.
    assert_eq!(received.resume, Some(0));
    assert!(matches!(browser.resume_parse(0), ParseStep::Skip { node: 900 }));
    let mut whole = titled("Many");
    whole.sheets = sheets(STYLESHEET_LIMIT as u64 + 5);
    browser.after_parse_step(0, ParseState::Finished(whole));
    assert_eq!(browser.requests.len(), STYLESHEET_LIMIT);
}

#[test]
fn a_reload_that_fetches_nothing_is_spent() {
    let mut browser = browser();
    browser.navigate(target("about:settings"));
    browser.settings.scroll = 140.0f32.to_bits();
    browser.reload(false);
    assert_eq!(browser.next_cache_mode, CacheMode::Default);
    assert_eq!(browser.settings.scroll, 140.0f32.to_bits(), "and stays where the reader was");
    assert_eq!(browser.system_page(), Some(SystemPage::Settings));
    assert_eq!((browser.tabs()[0].history.len(), browser.tabs()[0].position), (1, 0));

    browser.new_tab();
    browser.reload_ignoring_cache(false);
    assert_eq!(browser.next_cache_mode, CacheMode::Default);
    assert!(browser.requests.is_empty());

    browser.navigate(target("https://next.example/"));
    assert_eq!(browser.requests[0].cache, CacheMode::Default);

    // Nor does one that is refused outlive itself.
    browser.reload(true);
    assert_eq!(browser.next_cache_mode, CacheMode::Default);
}

#[test]
fn a_reload_that_ignores_the_cache_asks_for_the_pictures_again() {
    let mut browser = browser();
    let pictured = || {
        let mut parsed = titled("Pictures");
        parsed.pictures.push(PictureTag {
            node: 4,
            src: "/pic.png".to_owned(),
            density: 1.0f32.to_bits(),
            link: link("https://pictures.example/pic.png"),
        });
        parsed
    };
    let answer = |browser: &mut Browser| {
        let document = browser.requests.remove(0);
        browser.receive(Fetched::Document {
            id: document.id,
            result: Ok(arrival("https://pictures.example/", pictured())),
        });
    };
    browser.navigate(target("https://pictures.example/"));
    answer(&mut browser);
    assert_eq!(browser.requests.len(), 1);
    settle(&mut browser);

    browser.reload(false);
    answer(&mut browser);
    assert!(browser.requests.is_empty(), "it is still here");

    browser.reload_ignoring_cache(false);
    answer(&mut browser);
    let asked: Vec<&str> = browser.requests.iter().map(|request| request.url.as_str()).collect();
    assert_eq!(asked, ["https://pictures.example/pic.png"]);
}

#[test]
fn back_and_forward_over_a_page_of_the_browsers_own_records_nothing() {
    let mut browser = browser();
    go(&mut browser, "https://one.example/");
    browser.open_system(SystemPage::Settings);
    browser.settings.scroll = 90.0f32.to_bits();
    let visits = browser.visits.len();
    let places = |browser: &Browser| -> Vec<String> {
        browser.tabs()[0].history.iter().map(|entry| entry.url.clone()).collect()
    };
    let before = places(&browser);
    browser.go_back();
    settle(&mut browser);
    browser.go_forward();
    assert_eq!(browser.system_page(), Some(SystemPage::Settings));
    assert_eq!(browser.settings.scroll, 90.0f32.to_bits());
    assert_eq!((places(&browser), browser.tabs()[0].position), (before, 1));
    assert_eq!(browser.visits.len(), visits);

    browser.go_forward();
    assert!(!browser.can_go_forward() && browser.requests.is_empty(), "there is no way past it");
    assert_eq!(browser.tabs()[0].position, 1);
}

#[test]
fn with_pictures_turned_off_no_element_chooses_again() {
    let mut browser = browser();
    go(&mut browser, "https://one.example/");
    let chosen = || {
        vec![ChoiceTag {
            node: 8,
            src: "large.png".to_owned(),
            density: 2.0f32.to_bits(),
            link: link("https://one.example/large.png"),
            showing: Some(Showing { src: "small.png".to_owned(), same_density: false }),
        }]
    };
    browser.settings.load_images = false;
    browser.rechoose_pictures(0, chosen());
    assert!(browser.requests.is_empty());
    browser.settings.load_images = true;
    browser.rechoose_pictures(0, chosen());
    assert_eq!(browser.requests.len(), 1);
}

#[test]
fn a_browser_starts_with_the_preferences_nobody_has_changed() {
    let browser = browser();
    assert_eq!(browser.settings.home, "");
    assert!(browser.settings.load_images && browser.settings.ask_where_to_save);
    assert!(browser.settings.download_directory.is_none());
    assert!(!browser.settings.block_third_party_cookies);
    assert_eq!(browser.settings.scroll, 0);
    assert!(browser.zooms.is_empty());
}
