//! Events, the keyboard, menus, the find bar and frames.

use otlyra_app::arriving::{Arrival, Document, Fetched, Resource, ScriptNavigation};
use otlyra_app::asking::Link;
use otlyra_app::browser::{
    Appearance, Body, Browser, Command, ContextCommand, ContextRow, ContextTarget, FindStatus,
    Inspector, Place, Point, Scheme, Surface, Target,
};
use otlyra_app::building::{Parsed, SheetTag};
use otlyra_app::driving::{nearest_node, BoxNode, InspectorAction, Readiness, Wait, FETCH_POLL};
use otlyra_app::frames::{
    accessibility_focus, band, chrome_epoch, dirty_rect, inspector_epoch, layers,
    next_timer_deadline, scaled, work_counters, Band, CursorFrom, Described, Frame, FrameRequest,
    InterfaceBuilds, Layer, LayerRect, Moved, PageVersion, Scaled, SystemBuilds, Window,
};
use otlyra_app::input::{
    keystroke, select_kind, Ask, Event, Key, MenuCommand, Modifiers, Platform, Pressed,
    ReaderAction, ReaderStep, SelectKind,
};
use otlyra_app::keys::{
    page_edit_key, page_selection_key, scroll_by_key, EditAction, EditAsk, Motion, ScrollStep,
    SelectAsk, SliderMotion,
};
use otlyra_app::navigation::{Method, Submission};
use otlyra_app::needs::FaceTag;
use otlyra_app::offering::{PageFacts, UiAction};
use otlyra_app::system::SystemPage;
use otlyra_app::tab::TabId;
use otlyra_app::zoom::ZoomStep;

const PLAIN: Modifiers =
    Modifiers { shift: false, control: false, alt: false, command: false, accelerator: false };

const ACCELERATOR: Modifiers =
    Modifiers { shift: false, control: true, alt: false, command: false, accelerator: true };

const AT: Point = Point { x: 0, y: 0 };

fn target(url: &str) -> Target {
    Target { url: url.to_owned(), site: None, refused: false }
}

fn facts() -> PageFacts {
    PageFacts { occurrences: 0, refused: false, selected: None, takes_focus: false }
}

fn browser() -> Browser {
    Browser::new(1)
}

/// Where a bare host name ends up.
fn final_url(url: &str) -> String {
    if url.contains("://") {
        url.to_owned()
    } else {
        format!("https://{url}/")
    }
}

fn settle(browser: &mut Browser) {
    while !browser.requests.is_empty() {
        let request = browser.requests.remove(0);
        let title = format!("Title of {}", request.url);
        browser.receive(Fetched::Document {
            id: request.id,
            result: Ok(Arrival::Document(Document {
                url: final_url(&request.url),
                site: None,
                scripts: None,
                parsed: Parsed {
                    title: Some(title),
                    sheets: Vec::new(),
                    pictures: Vec::new(),
                    deferred: Vec::new(),
                    stopped_at: None,
                    runner: false,
                },
            })),
        });
    }
}

fn go(browser: &mut Browser, url: &str) {
    browser.navigate(target(url));
    settle(browser);
}

fn press_key(browser: &mut Browser, key: Key, modifiers: Modifiers) -> Vec<Ask> {
    browser.on_event(Event::KeyPressed {
        key,
        modifiers,
        platform: Platform::Other,
        popup_open: false,
    })
}

/// A press below the toolbar, on nothing that pops up.
fn press_page(browser: &mut Browser, clicks: u32) -> Vec<Ask> {
    assert_eq!(browser.pointer_pressed(AT, false, true, false), Pressed::GoesOn);
    browser.on_event(Event::PressGoesOn {
        owned: false,
        below_bar: true,
        owns_pointer: false,
        clicks,
    })
}

/// A move within the page that changes nothing on it.
fn within_the_page() -> Moved {
    Moved {
        still: false,
        was_below_bar: true,
        below_bar: true,
        was_in_dock: false,
        in_dock: false,
        popup_open: false,
        captured: false,
        damage_changed: false,
        layout_damaged: false,
    }
}

const NO_INSPECTOR: Inspector = Inspector { open: false, picking: false, selected: None };

#[test]
fn a_repeated_pointer_position_requests_no_frame() {
    let mut browser = browser();
    let first = Moved { was_below_bar: false, ..within_the_page() };
    assert_eq!(browser.handle_event(NO_INSPECTOR, Some(first)), FrameRequest::Now);
    let again = Moved { still: true, ..within_the_page() };
    assert_eq!(
        browser.handle_event(NO_INSPECTOR, Some(again)),
        FrameRequest::Idle,
        "identical input changes neither hover nor drag geometry"
    );
}

#[test]
fn pointer_motion_across_an_unchanged_page_requests_no_frame() {
    let mut browser = browser();
    let first = Moved { was_below_bar: false, ..within_the_page() };
    assert_eq!(
        browser.handle_event(NO_INSPECTOR, Some(first)),
        FrameRequest::Now,
        "leaving the initial off-window position clears any chrome hover"
    );
    assert_eq!(
        browser.handle_event(NO_INSPECTOR, Some(within_the_page())),
        FrameRequest::Idle,
        "the cursor moved, but no pixels changed"
    );
}

#[test]
fn only_the_active_loading_tab_drives_vsync() {
    let mut browser = browser();
    browser.navigate(target("example.com"));
    assert_eq!(browser.next_frame(false, false, None, None, None), FrameRequest::Vsync);

    browser.new_tab();
    assert_eq!(
        browser.next_frame(false, false, None, None, None),
        FrameRequest::Idle,
        "a background load wakes on model changes instead of repainting continuously"
    );
    assert_eq!(
        browser.next_frame(true, false, None, None, None),
        FrameRequest::Vsync,
        "but for a strip whose marks turn"
    );
}

#[test]
fn a_static_browser_page_has_no_follow_up_frame() {
    let mut browser = browser();
    browser.open_system(SystemPage::About);
    assert_eq!(browser.next_frame(true, true, None, None, None), FrameRequest::Idle);
    assert_eq!(
        browser.next_frame(true, true, Some(40), Some(30), Some(50)),
        FrameRequest::At(30),
        "one wake serves them all"
    );
    assert_eq!(next_timer_deadline(&vec![None, Some(9), Some(4), None]), Some(4));
    assert_eq!(next_timer_deadline(&vec![None]), None);
}

#[test]
fn an_unchanged_frame_does_not_rebuild_accessibility() {
    let mut browser = browser();
    assert!(browser.accessibility().is_some(), "the first tree is published");
    assert!(
        browser.accessibility().is_none(),
        "and remains valid until semantics, geometry or focus changes"
    );

    let request = browser.handle_event(NO_INSPECTOR, Some(within_the_page()));
    assert_eq!(request, FrameRequest::Idle);
    assert!(browser.accessibility().is_none(), "paint-free pointer motion changes no accessibility nodes");

    let damaged = Moved { damage_changed: true, layout_damaged: true, ..within_the_page() };
    assert_eq!(browser.handle_event(NO_INSPECTOR, Some(damaged)), FrameRequest::Now);
    assert!(browser.accessibility().is_some());
    assert_eq!(browser.handle_event(NO_INSPECTOR, None), FrameRequest::Now);
    assert!(browser.accessibility().is_some());
}

#[test]
fn the_interface_follows_the_system_appearance_without_a_restart() {
    let mut browser = browser();
    assert_eq!(browser.theme, Scheme::Light);
    assert!(browser.on_event(Event::AppearanceChanged(Scheme::Dark)).is_empty());
    assert_eq!(browser.theme, Scheme::Dark);
    assert_eq!(browser.window_appearance(), None);
}

#[test]
fn a_chosen_appearance_outranks_the_system() {
    let mut browser = browser();
    browser.settings.appearance = Appearance::Light;
    browser.apply_theme();
    browser.on_event(Event::AppearanceChanged(Scheme::Dark));
    assert_eq!(browser.theme, Scheme::Light, "Light means light, whatever the platform says");
    assert_eq!(browser.window_appearance(), Some(Scheme::Light));
}

#[test]
fn scrolling_belongs_to_the_active_tab() {
    let mut browser = browser();
    go(&mut browser, "long.example");
    browser.new_tab();
    go(&mut browser, "other.example");

    let asks = browser.on_event(Event::Scroll {
        accelerator: false,
        turn: Some(ZoomStep::Out),
        owns_pointer: false,
        over_strip: false,
        popup_open: false,
        in_dock: false,
    });
    assert_eq!(asks, [Ask::Page]);
    let active = browser.active();
    assert_eq!(browser.tabs()[1 - active].page.as_ref().expect("page").scroll, 0);
}

#[test]
fn a_scroll_over_the_interface_does_not_scroll_the_page() {
    let mut browser = browser();
    go(&mut browser, "example.com");
    let wheel = |over_strip| Event::Scroll {
        accelerator: false,
        turn: Some(ZoomStep::Out),
        owns_pointer: true,
        over_strip,
        popup_open: false,
        in_dock: false,
    };
    assert!(browser.on_event(wheel(false)).is_empty());
    assert_eq!(browser.on_event(wheel(true)), [Ask::Interface]);
    assert_eq!(browser.tabs()[0].page.as_ref().expect("page").scroll, 0);
}

#[test]
fn clicking_a_link_navigates_to_it() {
    let mut browser = browser();
    go(&mut browser, "start.example");
    assert_eq!(
        browser.update_cursor(false, false, false, true),
        CursorFrom::Pointer,
        "the pointer says so first"
    );

    let asks = press_page(&mut browser, 1);
    assert_eq!(
        asks,
        [Ask::Scrollbar, Ask::LinkUnder, Ask::Control, Ask::Select(SelectKind::From)],
        "a link comes before a control, and a control before the text"
    );
    browser.navigate_from(target("https://start.example/next"), false);
    assert_eq!(browser.tabs()[0].url, "https://start.example/next");
}

#[test]
fn a_press_on_the_page_that_is_not_a_link_navigates_nowhere() {
    let mut browser = browser();
    go(&mut browser, "start.example");
    let asks = press_page(&mut browser, 1);
    assert_eq!(asks.last(), Some(&Ask::Select(SelectKind::From)));
    browser.start_selection(true);
    assert!(browser.is_selecting());
    assert_eq!(browser.tabs()[0].url, "https://start.example/");
    assert!(browser.requests.is_empty());

    let drag = Event::PointerMoved { at: AT, over_page: true, owns_pointer: false, dragging: false };
    assert_eq!(browser.on_event(drag), [Ask::SelectTo], "the drag selects wherever it wanders");
    assert_eq!(browser.on_event(Event::PointerReleased), [Ask::Release]);
    assert!(!browser.is_selecting());
    assert_eq!(browser.on_event(drag), [Ask::Hover(true)]);
}

#[test]
fn dragging_a_tab_reorders_the_strip() {
    let mut browser = browser();
    browser.new_tab();
    browser.new_tab();
    let order: Vec<TabId> = browser.tabs().iter().map(|tab| tab.id).collect();
    assert_eq!(browser.active_id(), order[2]);

    // Carry the last tab to the front.
    browser.apply(UiAction::MoveTab { id: order[2], to: 0 }, facts());
    assert_eq!(
        browser.tabs().iter().map(|tab| tab.id).collect::<Vec<_>>(),
        vec![order[2], order[0], order[1]],
        "the dragged tab did not land where it was dropped"
    );
    assert_eq!(
        browser.active_id(),
        order[2],
        "the tab being read must still be the tab being read"
    );
}

#[test]
fn tab_walks_the_page_and_leaves_it_at_the_end() {
    let mut browser = browser();
    go(&mut browser, "https://walk.example/");
    press_page(&mut browser, 1);
    assert_eq!(browser.keyboard_surface(), Surface::Page);
    assert_eq!(press_key(&mut browser, Key::Tab, PLAIN), [Ask::FocusStep(true)]);
    browser.document_walked(true, true);
    assert_eq!(browser.keyboard_surface(), Surface::Page);
    let shift = Modifiers { shift: true, ..PLAIN };
    assert_eq!(
        press_key(&mut browser, Key::Tab, shift),
        [Ask::FocusStep(false)],
        "shift-Tab walks back the way it came"
    );

    // Return on a link the keyboard reached follows it.
    let asks = press_key(&mut browser, Key::Enter, PLAIN);
    assert_eq!(
        asks,
        [Ask::FocusedLink, Ask::ImplicitSubmit, Ask::Edit, Ask::MoveSelection, Ask::Scroll]
    );
    browser.navigate_from(target("https://walk.example/first"), false);
    settle(&mut browser);
    assert_eq!(browser.tabs()[browser.active()].url, "https://walk.example/first");
}

#[test]
fn tab_off_the_end_of_the_chrome_goes_back_into_the_page() {
    let mut browser = browser();
    go(&mut browser, "start.example");
    browser.activate_surface(Surface::Chrome);
    let entering = PageFacts { takes_focus: true, ..facts() };
    browser.apply(UiAction::LeaveChrome(true), entering);
    assert_eq!(
        browser.keyboard_surface(),
        Surface::Page,
        "the toolbar kept the keyboard to itself"
    );

    // A page with nothing to focus leaves it with the chrome, at its other end.
    browser.activate_surface(Surface::Chrome);
    browser.apply(UiAction::LeaveChrome(true), facts());
    assert_eq!(browser.keyboard_surface(), Surface::Chrome);
    assert!(matches!(browser.told.last(), Some(Command::FocusEdge(true))));
}

#[test]
fn tab_past_the_end_of_the_page_reaches_the_interface() {
    let mut browser = browser();
    go(&mut browser, "start.example");
    press_page(&mut browser, 1);
    assert_eq!(press_key(&mut browser, Key::Tab, PLAIN), [Ask::FocusStep(true)]);
    browser.document_walked(false, true);
    assert_eq!(browser.keyboard_surface(), Surface::Chrome);
    assert!(matches!(browser.told.last(), Some(Command::FocusEdge(true))));
}

#[test]
fn typing_offers_places_and_the_arrows_take_one() {
    let mut browser = browser();
    go(&mut browser, "start.example");
    browser.bookmarks.push(Place {
        url: "https://kept.example/page".to_owned(),
        title: "A kept page".to_owned(),
    });

    browser.activate_surface(Surface::Chrome);
    browser.refresh_suggestions(true, "example");
    let offered: Vec<String> =
        browser.ui().suggestions.iter().map(|row| row.url.clone()).collect();
    assert_eq!(
        offered.first().map(String::as_str),
        Some("https://kept.example/page"),
        "a kept page comes before a place merely visited"
    );
    assert!(offered.iter().any(|url| url.contains("start.example")));
    assert!(browser.ui().suggestions[0].kept);

    // Return takes the row the arrows reached. Going there writes the address over what was
    // typed and takes the caret out of the field.
    assert_eq!(press_key(&mut browser, Key::Enter, PLAIN), [Ask::Interface]);
    browser.interface_took_key(
        UiAction::Navigate(target("https://kept.example/page")),
        facts(),
        true,
        false,
        "https://kept.example/page",
    );
    assert_eq!(
        browser.requests.last().map(|request| request.url.as_str()),
        Some("https://kept.example/page")
    );
    assert!(browser.ui().suggestions.is_empty(), "the list outlived the choice");
}

#[test]
fn what_is_offered_is_short_and_names_no_place_twice() {
    let mut browser = browser();
    for number in 0..9 {
        browser.bookmarks.push(Place {
            url: format!("https://site.test/{number}"),
            title: "Straße".to_owned(),
        });
    }
    go(&mut browser, "https://site.test/0");
    browser.refresh_suggestions(true, "  SITE ");
    assert_eq!(browser.ui().suggestions.len(), 6);
    browser.refresh_suggestions(true, "STRAß");
    assert_eq!(browser.ui().suggestions.len(), 6, "the title is matched without case too");
    browser.refresh_suggestions(true, "site.test/0");
    assert_eq!(browser.ui().suggestions.len(), 1, "kept and visited is offered once");
    assert!(browser.ui().suggestions[0].kept);
    browser.refresh_suggestions(true, "   ");
    assert!(browser.ui().suggestions.is_empty());
    browser.refresh_suggestions(false, "site");
    assert!(browser.ui().suggestions.is_empty());
}

#[test]
fn visits_are_offered_newest_first() {
    let mut browser = browser();
    for url in ["https://a.test/", "https://b.test/", "https://c.test/"] {
        go(&mut browser, url);
    }
    browser.refresh_suggestions(true, "test");
    let offered: Vec<&str> =
        browser.ui().suggestions.iter().map(|row| row.url.as_str()).collect();
    assert_eq!(offered, ["https://c.test/", "https://b.test/", "https://a.test/"]);
}

#[test]
fn a_press_on_the_page_goes_through_the_suggestions() {
    let mut browser = browser();
    go(&mut browser, "start.example");
    browser.activate_surface(Surface::Chrome);
    browser.refresh_suggestions(true, "start");
    assert!(!browser.ui().suggestions.is_empty());

    let asks = press_page(&mut browser, 1);
    assert!(browser.ui().suggestions.is_empty(), "the list stayed over the page");
    assert!(
        asks.contains(&Ask::LinkUnder),
        "the press that dismissed the list never reached the link"
    );
}

/// Ask for a menu over the page.
fn ask_for_a_menu(browser: &mut Browser, link: Option<Target>) {
    browser.context_menu_requested(ContextTarget { at: AT, link }, true, false);
}

/// What the open context menu offers, in the order it offers it.
fn context_rows(browser: &Browser) -> Vec<ContextCommand> {
    browser
        .ui()
        .menu
        .iter()
        .flatten()
        .filter_map(|row| match row {
            ContextRow::Command(command, _) => Some(*command),
            ContextRow::Divider => None,
        })
        .collect()
}

#[test]
fn a_menu_asked_for_over_a_link_offers_the_link() {
    let mut browser = browser();
    go(&mut browser, "https://start.example/");
    ask_for_a_menu(&mut browser, Some(target("https://start.example/next")));

    let rows = context_rows(&browser);
    assert_eq!(
        rows.first(),
        Some(&ContextCommand::OpenLinkInNewTab),
        "the link is what the reader asked about, so it comes first"
    );
    assert!(rows.contains(&ContextCommand::CopyLinkAddress));
    assert!(rows.contains(&ContextCommand::InspectElement));
    assert!(
        !rows.contains(&ContextCommand::CopySelection),
        "nothing is selected, so there is nothing to copy"
    );

    // And choosing the first row opens the link the press landed on, in a tab of its own.
    let before = browser.tabs().len();
    browser.apply(UiAction::Context(ContextCommand::OpenLinkInNewTab), facts());
    settle(&mut browser);
    assert_eq!(browser.tabs().len(), before + 1);
    assert_eq!(browser.tabs()[before].url, "https://start.example/next");
    assert_eq!(browser.tabs()[0].url, "https://start.example/");
    assert!(browser.ui().menu.is_none(), "choosing a row closes the menu");
}

#[test]
fn a_menu_over_the_page_offers_what_the_page_can_do() {
    let mut browser = browser();
    go(&mut browser, "start.example");
    ask_for_a_menu(&mut browser, None);

    assert_eq!(
        context_rows(&browser),
        vec![
            ContextCommand::Back,
            ContextCommand::Forward,
            ContextCommand::Reload,
            ContextCommand::SelectAll,
            ContextCommand::InspectElement,
        ]
    );
    let back = browser.ui().menu.iter().flatten().find(|row| {
        matches!(row, ContextRow::Command(ContextCommand::Back, _))
    });
    assert_eq!(
        back,
        Some(&ContextRow::Command(ContextCommand::Back, false)),
        "there is nowhere to go back to, and a row that says otherwise is a lie"
    );
}

#[test]
fn asking_for_a_menu_over_a_link_does_not_follow_it() {
    let mut browser = browser();
    go(&mut browser, "https://start.example/");
    ask_for_a_menu(&mut browser, Some(target("https://start.example/next")));
    settle(&mut browser);

    assert_eq!(browser.tabs()[0].url, "https://start.example/");
    assert!(browser.ui().menu.is_some());
    assert_eq!(browser.keyboard_surface(), Surface::Chrome);
}

#[test]
fn navigating_puts_away_a_menu_asked_for_on_the_page() {
    let mut browser = browser();
    go(&mut browser, "start.example");
    ask_for_a_menu(&mut browser, None);
    assert!(browser.ui().menu.is_some());

    browser.navigate(target("start.example/elsewhere"));
    assert!(browser.ui().menu.is_none(), "the menu outlived the page it described");
    assert!(!browser.has_context());
}

#[test]
fn resizing_puts_away_a_menu_asked_for_on_the_page() {
    let mut browser = browser();
    go(&mut browser, "start.example");
    ask_for_a_menu(&mut browser, None);
    browser.on_event(Event::Resized { changed: false });
    assert!(browser.ui().menu.is_some());
    browser.on_event(Event::Resized { changed: true });
    assert!(browser.ui().menu.is_none());
}

#[test]
fn asking_for_a_menu_over_the_toolbar_offers_nothing() {
    let mut browser = browser();
    go(&mut browser, "start.example");
    browser.context_menu_requested(ContextTarget { at: AT, link: None }, false, false);
    assert!(browser.ui().menu.is_none());
}

#[test]
fn a_row_of_the_menu_acts_on_what_it_was_asked_about() {
    let mut browser = browser();
    go(&mut browser, "https://a.test/");
    go(&mut browser, "https://b.test/");
    let copied = |browser: &Browser| match browser.told.last() {
        Some(Command::Copy(text)) => Some(text.clone()),
        _ => None,
    };

    ask_for_a_menu(&mut browser, Some(target("https://b.test/x")));
    browser.apply_context(ContextCommand::CopyLinkAddress, facts());
    assert_eq!(copied(&browser).as_deref(), Some("https://b.test/x"));
    browser.apply_context(ContextCommand::Back, facts());
    assert!(browser.requests.is_empty(), "the row was chosen already");

    browser.context_menu_requested(ContextTarget { at: AT, link: None }, true, true);
    assert!(context_rows(&browser).contains(&ContextCommand::CopySelection));
    let selected = PageFacts { selected: Some("words".to_owned()), ..facts() };
    browser.apply_context(ContextCommand::CopySelection, selected);
    assert_eq!(copied(&browser).as_deref(), Some("words"));

    ask_for_a_menu(&mut browser, None);
    browser.apply_context(ContextCommand::SelectAll, facts());
    assert_eq!(browser.keyboard_surface(), Surface::Page);
    assert!(browser.told.iter().any(|command| matches!(command, Command::SelectAll(_))));

    ask_for_a_menu(&mut browser, None);
    browser.apply_context(ContextCommand::InspectElement, facts());
    assert!(browser.inspector().open);
    assert_eq!(browser.keyboard_surface(), Surface::Inspector);
    assert!(browser.told.iter().any(|command| matches!(command, Command::PickAt(_))));

    ask_for_a_menu(&mut browser, None);
    browser.apply_context(ContextCommand::Back, facts());
    assert_eq!(browser.tabs()[0].url, "https://a.test/");
}

#[test]
fn the_cursor_is_ordinary_away_from_a_link() {
    let mut browser = browser();
    go(&mut browser, "start.example");
    assert_eq!(browser.update_cursor(false, false, false, false), CursorFrom::Default);
    // Over the interface, where nothing responds, and where something does.
    assert_eq!(browser.update_cursor(false, true, false, false), CursorFrom::Default);
    assert_eq!(browser.update_cursor(true, true, false, false), CursorFrom::Interface);
    // Over the panel, and over a page of the browser's own.
    assert_eq!(browser.update_cursor(false, false, true, true), CursorFrom::Inspector);
    browser.open_system(SystemPage::About);
    assert_eq!(
        browser.update_cursor(false, false, false, false),
        CursorFrom::System(SystemPage::About)
    );
}

#[test]
fn a_press_on_an_open_menu_never_reaches_the_page_behind_it() {
    let mut browser = browser();
    go(&mut browser, "start.example");
    assert_eq!(browser.pointer_pressed(AT, true, true, false), Pressed::GoesOn);
    assert_eq!(browser.keyboard_surface(), Surface::Chrome);
    let asks = browser.on_event(Event::PressGoesOn {
        owned: true,
        below_bar: true,
        owns_pointer: true,
        clicks: 2,
    });
    assert_eq!(asks, [Ask::Interface]);
    assert!(!browser.is_selecting(), "the page took a press that belonged to the menu");
}

#[test]
fn clicks_take_a_place_a_word_and_a_block_and_start_over() {
    let kinds: Vec<SelectKind> = (0..7).map(select_kind).collect();
    assert_eq!(
        kinds,
        [
            SelectKind::From,
            SelectKind::From,
            SelectKind::Word,
            SelectKind::Paragraph,
            SelectKind::From,
            SelectKind::Word,
            SelectKind::Paragraph,
        ]
    );
}

#[test]
fn a_press_on_the_page_blurs_the_address_field() {
    let mut browser = browser();
    go(&mut browser, "long.example");
    browser.activate_surface(Surface::Chrome);
    browser.told.clear();
    press_page(&mut browser, 1);
    assert!(
        browser.told.iter().any(|command| matches!(command, Command::BlurChrome)),
        "a press on the page takes the focus off the address field"
    );
}

#[test]
fn a_press_on_a_system_page_blurs_the_address_field() {
    let mut browser = browser();
    browser.open_system(SystemPage::Settings);
    browser.activate_surface(Surface::Chrome);
    browser.told.clear();
    let asks = press_page(&mut browser, 1);
    assert_eq!(asks, [Ask::System(SystemPage::Settings)]);
    assert_eq!(browser.keyboard_surface(), Surface::System);
    assert!(
        browser.told.iter().any(|command| matches!(command, Command::BlurChrome)),
        "a press on a system page blurs the address field too"
    );
}

#[test]
fn the_picker_takes_one_press_and_moving_it_shows_what_it_would_take() {
    let mut browser = browser();
    go(&mut browser, "start.example");
    browser.toggle_inspector();
    browser.inspector.picking = true;
    browser.told.clear();
    let over = Event::PointerMoved { at: AT, over_page: true, owns_pointer: false, dragging: false };
    assert!(browser.on_event(over).is_empty());
    assert!(matches!(browser.told.last(), Some(Command::PickAt(_))));

    let boxes = vec![
        BoxNode { parent: None, node: Some(70) },
        BoxNode { parent: Some(0), node: None },
        BoxNode { parent: Some(1), node: None },
    ];
    let before = browser.inspector();
    browser.pick_at(&boxes, Some(2));
    assert_eq!(browser.inspector().selected, Some(70), "what a person means by this element");
    assert_eq!(browser.handle_event(before, Some(within_the_page())), FrameRequest::Now);

    assert_eq!(browser.pointer_pressed(AT, false, true, false), Pressed::Picked);
    assert!(!browser.inspector().picking, "one press, one element");
    assert_eq!(browser.pointer_pressed(AT, false, true, true), Pressed::Inspector);
    assert_eq!(nearest_node(&boxes, None), None);
    assert_eq!(nearest_node(&vec![BoxNode { parent: Some(0), node: None }], Some(0)), None);
}

#[test]
fn the_inspector_edits_the_chosen_element_of_a_document() {
    let mut browser = browser();
    let edit = || InspectorAction::SetAttribute { name: "id".to_owned(), value: "x".to_owned() };
    go(&mut browser, "start.example");
    browser.apply_inspector(edit());
    assert!(!browser.told.iter().any(|command| matches!(command, Command::SetAttribute(..))));
    browser.inspect_at(AT);
    assert!(browser.inspector().open);
    browser.pick_at(&vec![BoxNode { parent: None, node: Some(3) }], Some(0));
    browser.apply_inspector(edit());
    let tab = browser.active_id();
    assert!(matches!(
        browser.told.last(),
        Some(Command::SetAttribute(id, 3, name, value))
            if *id == tab && name == "id" && value == "x"
    ));
    assert!(browser.docks());
    browser.open_system(SystemPage::About);
    assert!(!browser.docks(), "a page of the browser's own has nothing to inspect");
}

#[test]
fn the_developer_tools_have_an_accelerator_of_their_own() {
    let mut browser = browser();
    let combination = Modifiers { alt: true, ..ACCELERATOR };
    assert!(press_key(&mut browser, Key::Character('i'), combination).is_empty());
    assert!(browser.inspector().open);
    assert_eq!(press_key(&mut browser, Key::Up, PLAIN), [Ask::Inspector]);
    browser.inspector_took_key(false);
    assert!(!browser.inspector().open);
    assert_eq!(browser.keyboard_surface(), Surface::Chrome, "where the tab's keyboard belongs");
    let mac = browser.on_event(Event::KeyPressed {
        key: Key::Character('i'),
        modifiers: combination,
        platform: Platform::Mac,
        popup_open: false,
    });
    assert_eq!(mac, [Ask::Interface], "another platform's modifier");
}

#[test]
fn the_zoom_steps_along_a_ladder_from_the_keyboard_the_menu_and_the_wheel() {
    let mut browser = browser();
    go(&mut browser, "example.com");

    press_key(&mut browser, Key::Character('='), ACCELERATOR);
    assert_eq!(browser.zoom(), 1_100_000, "one stop up, not one and a bit");
    press_key(&mut browser, Key::Character('='), ACCELERATOR);
    assert_eq!(browser.zoom(), 1_250_000);
    press_key(&mut browser, Key::Character('-'), ACCELERATOR);
    assert_eq!(browser.zoom(), 1_100_000);
    press_key(&mut browser, Key::Character('0'), ACCELERATOR);
    assert_eq!(browser.zoom(), 1_000_000, "and back to the page's own size");

    // The menu reaches the same ladder.
    browser.menu_command(MenuCommand::ZoomIn, false, None);
    assert_eq!(browser.zoom(), 1_100_000);
    browser.menu_command(MenuCommand::ActualSize, false, None);
    assert_eq!(browser.zoom(), 1_000_000);

    // And the wheel, but only with the modifier held.
    let wheel = |accelerator, turn| Event::Scroll {
        accelerator,
        turn: Some(turn),
        owns_pointer: false,
        over_strip: false,
        popup_open: false,
        in_dock: false,
    };
    browser.on_event(wheel(true, ZoomStep::In));
    assert_eq!(browser.zoom(), 1_100_000, "away from the reader is larger");
    browser.on_event(wheel(true, ZoomStep::Out));
    assert_eq!(browser.zoom(), 1_000_000);
    browser.on_event(wheel(false, ZoomStep::In));
    assert_eq!(browser.zoom(), 1_000_000, "a bare wheel scrolls and does not zoom");

    // The ends of the ladder are ends, not a wrap.
    for _ in 0..40 {
        press_key(&mut browser, Key::Character('='), ACCELERATOR);
    }
    assert_eq!(browser.zoom(), 5_000_000);
    for _ in 0..40 {
        press_key(&mut browser, Key::Character('-'), ACCELERATOR);
    }
    assert_eq!(browser.zoom(), 250_000);
}

/// A page that holds the word being looked for three times.
fn three_needles() -> Browser {
    let mut browser = browser();
    go(&mut browser, "file:///a/needle/needle/needle");
    browser
}

/// Open the bar with `query` in it, which the page holds `occurrences` times.
fn look_for(browser: &mut Browser, query: &str, occurrences: usize) {
    browser.show_bar(Some(query.to_owned()));
    browser.update_find(occurrences);
}

fn step(browser: &mut Browser, forward: bool) {
    browser.apply(UiAction::FindStep(forward), facts());
}

fn matches_on(browser: &Browser, index: usize) -> usize {
    let page = browser.tabs()[index].page.as_ref().expect("a loaded page");
    page.search.as_ref().map_or(0, |search| search.total)
}

fn bar_searches_and_steps() {
    let mut browser = three_needles();
    look_for(&mut browser, "needle", 3);
    assert_eq!(
        browser.ui().find_status,
        FindStatus { total: 3, current: 1 },
        "the bar counts what the page found"
    );
    assert_eq!(matches_on(&browser, 0), 3);

    // Return steps on, shift-Return steps back, and both wrap.
    step(&mut browser, true);
    assert_eq!(browser.ui().find_status.current, 2);
    step(&mut browser, false);
    assert_eq!(browser.ui().find_status.current, 1);
    step(&mut browser, false);
    assert_eq!(browser.ui().find_status.current, 3, "round the start");

    // Closing the bar takes the wash off the page with it.
    browser.show_bar(None);
    browser.update_find(0);
    assert!(browser.ui().finding.is_none());
    assert_eq!(matches_on(&browser, 0), 0);
    assert!(browser.told.iter().any(|command| matches!(command, Command::ClearFind(_))));
}

#[test]
fn browser_the_bar_searches_the_page_and_steps_through_what_it_found() {
    bar_searches_and_steps();
}

#[test]
fn find_tests_the_bar_searches_the_page_and_steps_through_what_it_found() {
    bar_searches_and_steps();
}

fn query_counts_none() {
    let mut browser = three_needles();
    look_for(&mut browser, "haystack", 0);
    assert_eq!(browser.ui().find_status, FindStatus { total: 0, current: 0 });
    step(&mut browser, true);
    assert_eq!(browser.ui().find_status.current, 0, "nowhere to step to");
}

#[test]
fn browser_a_query_the_page_does_not_hold_counts_none() {
    query_counts_none();
}

#[test]
fn find_tests_a_query_the_page_does_not_hold_counts_none() {
    query_counts_none();
}

fn command_g_steps() {
    let mut browser = three_needles();
    look_for(&mut browser, "needle", 3);
    assert_eq!(browser.ui().find_status.current, 1);

    // The keyboard goes back to the document, and the accelerator reaches the interface
    // from there.
    browser.activate_surface(Surface::Page);
    let asks = press_key(&mut browser, Key::Character('g'), ACCELERATOR);
    assert_eq!(asks, [Ask::Edit, Ask::MoveSelection, Ask::Interface]);
    browser.interface_took_key(UiAction::FindStep(true), facts(), false, false, "");
    assert_eq!(browser.ui().find_status.current, 2);
    assert!(!browser.interface_settles(false, false));
    step(&mut browser, false);
    assert_eq!(browser.ui().find_status.current, 1);
    assert!(
        browser.ui().finding.is_some(),
        "stepping never took the bar away or gave it the keyboard"
    );
    assert_eq!(browser.keyboard_surface(), Surface::Page);
}

#[test]
fn browser_command_g_steps_while_the_page_has_the_keyboard() {
    command_g_steps();
}

#[test]
fn find_tests_command_g_steps_while_the_page_has_the_keyboard() {
    command_g_steps();
}

fn search_belongs_to_its_tab() {
    let mut browser = three_needles();
    look_for(&mut browser, "needle", 3);
    assert_eq!(browser.ui().find_status.total, 3);

    // A second tab is not searching anything, so it shows no bar.
    browser.new_tab();
    go(&mut browser, "example.com");
    assert!(browser.ui().finding.is_none(), "the bar came along to another tab");

    // Back to the first, which still is.
    browser.select_tab(0);
    assert_eq!(browser.ui().finding.as_deref(), Some("needle"));
    assert_eq!(browser.ui().find_status.total, 3);

    // And going somewhere else in that tab leaves the search behind.
    go(&mut browser, "example.com");
    assert!(browser.ui().finding.is_none());
    assert_eq!(browser.ui().find_status.total, 0);
}

#[test]
fn browser_a_search_belongs_to_its_tab_and_goes_when_the_page_does() {
    search_belongs_to_its_tab();
}

#[test]
fn find_tests_a_search_belongs_to_its_tab_and_goes_when_the_page_does() {
    search_belongs_to_its_tab();
}

#[test]
fn text_goes_to_the_surface_that_has_the_keyboard() {
    let mut browser = browser();
    assert_eq!(browser.on_event(Event::TextInput), [Ask::Interface]);
    go(&mut browser, "start.example");
    assert_eq!(browser.on_event(Event::TextInput), [Ask::Page]);
    browser.open_system(SystemPage::History);
    assert_eq!(browser.on_event(Event::TextInput), [Ask::System(SystemPage::History)]);
    browser.open_system(SystemPage::About);
    assert!(browser.on_event(Event::TextInput).is_empty());
    browser.toggle_inspector();
    assert_eq!(browser.on_event(Event::TextInput), [Ask::Inspector]);
}

#[test]
fn a_screen_reader_reaches_the_toolbar_the_page_and_the_document() {
    let mut browser = browser();
    browser.open_system(SystemPage::Settings);
    let ask = |index, toolbar| Event::AccessibilityRequest { index, toolbar };
    assert_eq!(browser.on_event(ask(Some(2), 5)), [Ask::InterfaceItem(2)]);
    assert_eq!(browser.keyboard_surface(), Surface::Chrome);
    assert_eq!(
        browser.on_event(ask(Some(7), 5)),
        [Ask::SystemItem(SystemPage::Settings, 2)]
    );
    assert_eq!(browser.keyboard_surface(), Surface::System);
    assert_eq!(browser.on_event(ask(None, 5)), [Ask::Page]);
    assert_eq!(browser.keyboard_surface(), Surface::Page);
    assert_eq!(accessibility_focus(Surface::Chrome, Some(1), Some(2)), Some(1));
    assert_eq!(accessibility_focus(Surface::System, Some(1), Some(2)), Some(2));
    assert_eq!(accessibility_focus(Surface::Page, Some(1), Some(2)), None);
}

#[test]
fn an_editing_command_is_the_key_it_stands_for() {
    assert_eq!(keystroke(MenuCommand::Cut), Some('x'));
    assert_eq!(keystroke(MenuCommand::Copy), Some('c'));
    assert_eq!(keystroke(MenuCommand::Paste), Some('v'));
    assert_eq!(keystroke(MenuCommand::SelectAll), Some('a'));
    assert_eq!(keystroke(MenuCommand::Reload), None);
    let mut browser = browser();
    assert_eq!(browser.menu_command(MenuCommand::Copy, false, None), Some('c'));
}

#[test]
fn the_keys_of_a_field_a_list_and_a_slider() {
    assert_eq!(page_edit_key(Key::Escape, PLAIN, true), [EditAsk::Close]);
    assert_eq!(page_edit_key(Key::Enter, PLAIN, true), [EditAsk::Accept]);
    assert!(page_edit_key(Key::Escape, PLAIN, false).is_empty());
    assert_eq!(
        page_edit_key(Key::Down, PLAIN, true),
        [EditAsk::Step(true), EditAsk::Slide(SliderMotion::Down)]
    );
    let shift = Modifiers { shift: true, ..PLAIN };
    assert_eq!(
        page_edit_key(Key::Left, shift, false),
        [EditAsk::Slide(SliderMotion::Down), EditAsk::Edit(EditAction::Left, true)]
    );
    assert_eq!(
        page_edit_key(Key::Backspace, PLAIN, false),
        [EditAsk::Edit(EditAction::Backspace, false)]
    );
    let command = Modifiers { command: true, ..PLAIN };
    assert!(page_edit_key(Key::Left, command, false).is_empty());
}

#[test]
fn the_keys_that_move_what_is_selected() {
    let command = Modifiers { command: true, ..PLAIN };
    let shift = Modifiers { shift: true, ..PLAIN };
    let both = Modifiers { shift: true, command: true, ..PLAIN };
    assert_eq!(page_selection_key(Key::Character('a'), command, false), Some(SelectAsk::All));
    assert_eq!(page_selection_key(Key::Left, PLAIN, true), None, "it scrolls");
    assert_eq!(page_selection_key(Key::Left, shift, false), None);
    assert_eq!(page_selection_key(Key::Left, shift, true), Some(SelectAsk::Move(Motion::Back)));
    assert_eq!(page_selection_key(Key::Left, both, true), Some(SelectAsk::Move(Motion::LineStart)));
    assert_eq!(page_selection_key(Key::Up, both, true), Some(SelectAsk::Move(Motion::Start)));
    assert_eq!(page_selection_key(Key::End, shift, true), Some(SelectAsk::Move(Motion::LineEnd)));
    assert_eq!(page_selection_key(Key::Tab, shift, true), None);
}

#[test]
fn the_keys_that_scroll() {
    assert_eq!(scroll_by_key(Key::Down, false), Some(ScrollStep::Line(true)));
    assert_eq!(scroll_by_key(Key::Character(' '), false), Some(ScrollStep::Screen(true)));
    assert_eq!(scroll_by_key(Key::Home, false), Some(ScrollStep::Top));
    assert_eq!(scroll_by_key(Key::Character('x'), false), None);
    assert_eq!(scroll_by_key(Key::Down, true), None, "a field is being typed into");
}

#[test]
fn an_open_menu_expands_the_composited_chrome_layer() {
    let closed = band(Layer::Chrome, 2048, 1536, 160, 1536, false);
    assert_eq!(closed, LayerRect { x: 0, y: 0, width: 2048, height: 160 });
    let open = band(Layer::Chrome, 2048, 1536, 160, 1536, true);
    assert_eq!(open.height, 1536);
}

#[test]
fn the_bands_of_a_window_meet() {
    let page = band(Layer::Page, 800, 600, 80, 400, false);
    let dock = band(Layer::Inspector, 800, 600, 80, 400, false);
    assert_eq!(page, LayerRect { x: 0, y: 80, width: 800, height: 320 });
    assert_eq!(dock, LayerRect { x: 0, y: 400, width: 800, height: 200 });
    let short = band(Layer::Page, 800, 50, 80, 400, false);
    assert_eq!(short, LayerRect { x: 0, y: 50, width: 800, height: 0 });
    assert_eq!(layers(true, true, true), [Layer::Page, Layer::Highlight, Layer::Inspector, Layer::Chrome]);
    assert_eq!(layers(false, true, true), [Layer::Page, Layer::Highlight]);
    assert_eq!(dirty_rect(10, 20, 30, 50), LayerRect { x: 10, y: 20, width: 20, height: 30 });
    assert_eq!(dirty_rect(10, 20, 5, 5), LayerRect { x: 10, y: 20, width: 0, height: 0 });
}

fn no_builds() -> (SystemBuilds, InterfaceBuilds) {
    (
        SystemBuilds {
            settings: 1,
            history: 2,
            downloads: 3,
            bookmarks: 4,
            cookies: 5,
            cache: 6,
            about: 7,
        },
        InterfaceBuilds {
            chrome: 10,
            tabs: 20,
            toolbar: 30,
            tab_semantics: 1,
            toolbar_semantics: 2,
            inspector: 40,
            header: 50,
            body: 60,
            header_semantics: 3,
            body_semantics: 4,
        },
    )
}

#[test]
fn what_drawing_has_cost() {
    let (system, interface) = no_builds();
    let work = work_counters(system, interface, &vec![100, 200]);
    assert_eq!(work.chrome_reconciles, 67);
    assert_eq!(work.chrome_layouts, 227);
    assert_eq!(work.chrome_paints, 227);
    assert_eq!(work.chrome_semantics, 10);
    assert_eq!(work.page_paints, 300);
    assert_eq!(chrome_epoch(interface), 60);
    assert_eq!(inspector_epoch(interface), 150);
    let over = InterfaceBuilds { chrome: u64::MAX, tabs: 2, toolbar: 0, ..interface };
    assert_eq!(chrome_epoch(over), 1);
}

#[test]
fn an_unchanged_frame_composes_to_the_same_layer_epochs() {
    let (system, _) = no_builds();
    let window = Window { width: 1, height: 2, scale: 3, dark: false };
    let mut browser = browser();
    match browser.page_epoch(&Vec::new(), system, 5, window, true) {
        PageVersion::Blank { tab, error, window: drawn, marked } => {
            assert_eq!((tab, error, drawn, marked), (TabId(1), None, window, true));
        }
        version => panic!("{version:?}"),
    }
    go(&mut browser, "long.example");
    for _ in 0..2 {
        assert!(matches!(
            browser.page_epoch(&Vec::new(), system, 5, window, true),
            PageVersion::Document { tab: TabId(1), builds: 5, scale: 3 }
        ));
    }
    browser.open_system(SystemPage::Cache);
    assert!(matches!(
        browser.page_epoch(&Vec::new(), system, 5, window, true),
        PageVersion::System { tab: TabId(1), page: SystemPage::Cache, .. }
    ));
}

#[test]
fn the_strip_names_the_tabs_in_order() {
    let mut browser = browser();
    go(&mut browser, "one.example");
    browser.new_tab();
    browser.navigate(target("two.example"));
    let labels = browser.labels();
    assert_eq!(labels[0].title, "Title of one.example");
    assert!(!labels[0].loading && labels[1].loading);
    assert_eq!(labels[1].id, browser.active_id().0);
    assert!(browser.is_loading());
}

#[test]
fn hiding_the_interface_hides_the_scrollbars_of_every_page() {
    let mut browser = browser();
    go(&mut browser, "one.example");
    browser.new_tab();
    browser.told.clear();
    browser.hide_interface();
    assert!(!browser.draws_interface());
    let hidden = browser
        .told
        .iter()
        .filter(|command| matches!(command, Command::HideScrollbars(_)))
        .count();
    assert_eq!(hidden, 1, "the blank tab has none");
}

#[test]
fn a_caller_waits_only_for_what_can_come() {
    let mut browser = browser();
    assert_eq!(browser.wait_for_load(&Vec::new(), 9), Wait::Over);
    assert_eq!(browser.readiness(0), Readiness::Complete);
    browser.navigate(target("https://a.test/"));
    let id = browser.requests[0].id;
    assert_eq!(browser.readiness(0), Readiness::Started);
    assert_eq!(browser.readiness(9), Readiness::Complete);
    assert_eq!(browser.wait_for_load(&vec![id], 9), Wait::Held);
    assert_eq!(browser.wait_for_load(&Vec::new(), 0), Wait::GaveUp);
    assert_eq!(browser.wait_for_load(&Vec::new(), 9), Wait::For(9));
    assert_eq!(browser.wait_for_load(&Vec::new(), FETCH_POLL + 1), Wait::For(FETCH_POLL));
    settle(&mut browser);
    assert_eq!(browser.url(), "https://a.test/");

    let face = Link { resolved: Some("https://a.test/f.ttf".to_owned()), refused: false };
    browser.fetch_fonts(0, vec![FaceTag { family: "F".to_owned(), sources: vec![face] }]);
    let font = browser.requests[0].id;
    assert!(!browser.only_held_remains(&Vec::new()));
    assert_eq!(browser.prepare_frame(&Vec::new(), 9), Wait::For(9));
    assert_eq!(browser.prepare_frame(&vec![1, font], 9), Wait::Held);
    browser.receive(Fetched::Resource {
        id: font,
        url: "https://a.test/f.ttf".to_owned(),
        result: Err("gone".to_owned()),
    });
    assert_eq!(browser.prepare_frame(&Vec::new(), 9), Wait::Over);
    assert!(!browser.only_held_remains(&vec![font]));
}

#[test]
fn a_tabs_clock_runs_while_its_code_is_alive() {
    let mut browser = browser();
    go(&mut browser, "https://a.test/");
    assert!(!browser.timers_are_due(0, Some(5), 9), "the page has no code");
    browser.tabs[0].scripts = true;
    assert!(browser.timers_are_due(0, Some(5), 9));
    assert!(!browser.timers_are_due(0, Some(10), 9));
    assert!(!browser.timers_are_due(0, None, 9));
    assert!(browser.frame_is_due(0, true));
    assert!(!browser.frame_is_due(0, false));
    assert_eq!(browser.next_frame(false, true, None, None, None), FrameRequest::Vsync);
}

const FRAME: Frame = Frame {
    width: 2048,
    height: 1536,
    top: 160,
    bottom: 1200,
    highlight: false,
    dock: false,
    popup_open: false,
    page_dirty: None,
    chrome_dirty: None,
};

#[test]
fn a_frame_is_kept_in_the_layers_it_is_painted_in() {
    let mut browser = browser();
    let dirty = LayerRect { x: 4, y: 200, width: 90, height: 20 };
    let bands = browser
        .compose(Frame { highlight: true, dock: true, page_dirty: Some(dirty), ..FRAME })
        .expect("the interface composes");
    let order: Vec<Layer> = bands.iter().map(|band| band.layer).collect();
    assert_eq!(order, layers(true, true, true));
    assert_eq!(
        bands[0],
        Band {
            layer: Layer::Page,
            rect: LayerRect { x: 0, y: 160, width: 2048, height: 1040 },
            dirty: Some(dirty),
        }
    );
    assert_eq!(bands[1].rect, bands[0].rect);
    assert_eq!(bands[1].dirty, None);
    assert_eq!(bands[2].rect, LayerRect { x: 0, y: 1200, width: 2048, height: 336 });
    assert_eq!(bands[3].rect, LayerRect { x: 0, y: 0, width: 2048, height: 160 });

    browser.hide_interface();
    assert!(browser.compose(FRAME).is_none(), "a frame with no interface is drawn whole");
}

#[test]
fn scrolling_the_page_moves_its_layer_epoch_and_leaves_the_chrome_alone() {
    let (system, interface) = no_builds();
    let window = Window { width: 1024, height: 768, scale: 2, dark: false };
    let mut browser = browser();
    go(&mut browser, "long.example");
    let builds_of = |version| match version {
        PageVersion::Document { tab: TabId(1), builds, .. } => builds,
        version => panic!("{version:?}"),
    };
    let before = builds_of(browser.page_epoch(&Vec::new(), system, 7, window, true));
    let chrome = chrome_epoch(interface);
    // Scrolling builds the page's own list again, and nothing else's.
    let after = builds_of(browser.page_epoch(&Vec::new(), system, 8, window, true));
    assert_ne!(before, after, "the page scrolled, so its layer must be re-rasterized");
    assert_eq!(
        chrome,
        chrome_epoch(interface),
        "the chrome did not change, so the compositor leaves it untouched"
    );
}

#[test]
fn the_tree_holds_the_interface_and_the_document_together() {
    let mut browser = browser();
    assert_eq!(
        browser.accessibility(),
        Some(Described { document: false, interface: true, page: None })
    );
    go(&mut browser, "start.example");
    assert_eq!(
        browser.accessibility(),
        Some(Described { document: true, interface: true, page: None })
    );
}

#[test]
fn a_browser_with_no_interface_hands_over_the_page_alone() {
    let mut browser = browser();
    browser.hide_interface();
    let told = browser.accessibility().expect("a tree");
    assert!(!told.interface);
    browser.open_system(SystemPage::Settings);
    assert_eq!(browser.accessibility().expect("a tree").page, None);
}

#[test]
fn a_browser_page_describes_the_controls_it_drew() {
    let mut browser = browser();
    browser.open_system(SystemPage::Settings);
    let told = browser.accessibility().expect("a tree");
    assert_eq!(told.page, Some(SystemPage::Settings));
    browser.open_system(SystemPage::Cache);
    browser.handle_event(NO_INSPECTOR, None);
    let told = browser.accessibility().expect("a tree");
    assert_eq!(told.page, None, "the cache describes none");
}

#[test]
fn a_readers_press_ticks_a_checkbox_on_the_page() {
    let mut browser = browser();
    go(&mut browser, "https://site.example/");
    let asks = browser.on_event(Event::AccessibilityRequest { index: None, toolbar: 9 });
    assert_eq!(asks, [Ask::Page]);
    assert_eq!(
        browser.accessibility_request_on_page(Some(4), ReaderAction::Activate, None),
        [ReaderStep::Activate(4), ReaderStep::FollowSubmission, ReaderStep::AnswerFileRequest],
        "the press was swallowed"
    );
    assert!(browser.accessibility().is_some(), "and the tree says so afterwards");
}

#[test]
fn a_readers_press_sends_the_form() {
    let mut browser = browser();
    go(&mut browser, "https://site.example/");
    let steps = browser.accessibility_request_on_page(Some(5), ReaderAction::Activate, None);
    assert!(steps.contains(&ReaderStep::FollowSubmission));
    browser.follow_submission(Submission {
        method: Method::Get,
        target: target("https://site.example/search?q=cats"),
        body: Body { content_type: String::new(), bytes: Vec::new() },
    });
    settle(&mut browser);
    assert_eq!(
        browser.tabs()[browser.active()].url,
        "https://site.example/search?q=cats"
    );
}

#[test]
fn a_reader_moves_a_slider_and_follows_a_link() {
    let mut browser = browser();
    assert!(browser
        .accessibility_request_on_page(Some(1), ReaderAction::Focus, None)
        .is_empty(), "there is no document");
    go(&mut browser, "https://site.example/");
    assert!(browser.accessibility_request_on_page(None, ReaderAction::Focus, None).is_empty());
    assert_eq!(
        browser.accessibility_request_on_page(Some(1), ReaderAction::Focus, None),
        [ReaderStep::Focus(1)]
    );
    assert_eq!(
        browser.accessibility_request_on_page(Some(1), ReaderAction::Increment, None),
        [ReaderStep::Focus(1), ReaderStep::Slide(SliderMotion::Up)]
    );
    assert_eq!(
        browser.accessibility_request_on_page(Some(1), ReaderAction::Decrement, None),
        [ReaderStep::Focus(1), ReaderStep::Slide(SliderMotion::Down)]
    );
    let link = || Some(target("https://site.example/next"));
    assert_eq!(
        browser.accessibility_request_on_page(Some(1), ReaderAction::Focus, link()),
        [ReaderStep::Focus(1)]
    );
    assert!(browser
        .accessibility_request_on_page(Some(1), ReaderAction::Activate, link())
        .is_empty());
    assert_eq!(browser.url(), "https://site.example/next");
}

/// The row of the menu that opens this page was chosen.
fn opens(page: SystemPage) {
    let mut browser = browser();
    browser.apply(UiAction::OpenPage(page), facts());
    assert_eq!(browser.system_page(), Some(page));
}

#[test]
fn the_menu_opens_the_pages_that_exist_and_closes_over_the_ones_that_do_not() {
    opens(SystemPage::Settings);
}

#[test]
fn the_history_row_opens_the_history() {
    opens(SystemPage::History);
}

#[test]
fn the_downloads_row_opens_the_downloads() {
    opens(SystemPage::Downloads);
}

#[test]
fn the_bookmarks_row_opens_the_bookmarks() {
    opens(SystemPage::Bookmarks);
}

#[test]
fn another_tab_is_drawn_anew_however_often_it_was_built() {
    let (system, _) = no_builds();
    let window = Window { width: 1, height: 2, scale: 3, dark: false };
    let mut browser = browser();
    go(&mut browser, "one.example");
    browser.new_tab();
    go(&mut browser, "two.example");
    let there = browser.page_epoch(&Vec::new(), system, 5, window, true);
    browser.select_tab(0);
    let here = browser.page_epoch(&Vec::new(), system, 5, window, true);
    assert!(matches!(there, PageVersion::Document { tab: TabId(2), builds: 5, .. }));
    assert!(matches!(here, PageVersion::Document { tab: TabId(1), builds: 5, .. }));

    // A tab that is carried elsewhere is the page it was, and one that takes the place of a
    // tab that is closed is not the page that was there.
    browser.move_tab(TabId(1), 1);
    let carried = browser.page_epoch(&Vec::new(), system, 5, window, true);
    assert!(matches!(carried, PageVersion::Document { tab: TabId(1), builds: 5, .. }));
    browser.move_tab(TabId(1), 0);
    browser.close_tab(0);
    assert_eq!(browser.active(), 0);
    let left = browser.page_epoch(&Vec::new(), system, 5, window, true);
    assert!(matches!(left, PageVersion::Document { tab: TabId(2), builds: 5, .. }));
}

#[test]
fn a_page_at_another_scale_is_drawn_anew() {
    let (system, _) = no_builds();
    let one = Window { width: 1, height: 2, scale: 1.0f64.to_bits(), dark: false };
    let two = Window { scale: 2.0f64.to_bits(), ..one };
    let scale_of = |version| match version {
        PageVersion::System { scale, .. } => scale,
        PageVersion::Document { scale, .. } => scale,
        PageVersion::Blank { window, .. } => window.scale,
    };
    let mut browser = browser();
    let differ = |browser: &Browser| {
        scale_of(browser.page_epoch(&Vec::new(), system, 5, one, true))
            != scale_of(browser.page_epoch(&Vec::new(), system, 5, two, true))
    };
    assert!(differ(&browser));
    go(&mut browser, "long.example");
    assert!(differ(&browser), "the list is the same, and drawn at twice the size");
    browser.open_system(SystemPage::About);
    assert!(differ(&browser));
}

#[test]
fn a_frame_with_nothing_new_is_composed_as_the_last_one_was() {
    let mut browser = browser();
    go(&mut browser, "long.example");
    let parts = |browser: &Browser, frame: Frame| -> Vec<(Layer, LayerRect)> {
        let bands = browser.compose(frame).expect("the interface is drawn");
        bands.iter().map(|band| (band.layer, band.rect)).collect()
    };
    let before = parts(&browser, FRAME);
    let _ = browser.accessibility();
    assert_eq!(parts(&browser, FRAME), before);
    assert_eq!(
        parts(&browser, Frame { page_dirty: Some(dirty_rect(1, 2, 3, 4)), ..FRAME }),
        before,
        "what changed is not where it is drawn"
    );
}

#[test]
fn a_link_chosen_from_the_menu_starts_the_count_of_script_navigations_again() {
    let mut browser = browser();
    go(&mut browser, "https://start.example/");
    for hop in 0..3 {
        let next = target(&format!("https://start.example/{hop}"));
        let wish = ScriptNavigation::Url { target: next, replace: false };
        browser.follow_script_navigation(0, wish);
        settle(&mut browser);
    }
    assert_eq!(browser.hops(), 3);
    ask_for_a_menu(&mut browser, Some(target("https://start.example/next")));
    browser.apply(UiAction::Context(ContextCommand::OpenLinkInNewTab), facts());
    assert_eq!(browser.hops(), 0);
    assert_eq!(browser.requests.len(), 1);
}

#[test]
fn a_link_its_page_may_not_follow_is_not_opened_from_the_menu() {
    let mut browser = browser();
    go(&mut browser, "https://start.example/");
    let file = Target { url: "file:///etc/hosts".to_owned(), site: None, refused: true };
    ask_for_a_menu(&mut browser, Some(file));
    browser.apply(UiAction::Context(ContextCommand::OpenLinkInNewTab), facts());
    assert!(browser.requests.is_empty(), "the address came from the page");
    assert_eq!(browser.tabs().len(), 2);
    assert!(browser.tabs()[1].error.is_some(), "and the tab says so");
    assert!(!browser.tabs()[1].loading());
}

#[test]
fn a_page_that_is_built_with_no_interface_has_no_scrollbars() {
    let mut browser = browser();
    browser.hide_interface();
    browser.navigate(target("https://plain.example/"));
    let request = browser.requests.remove(0);
    browser.told.clear();
    browser.receive(Fetched::Document {
        id: request.id,
        result: Ok(Arrival::Document(Document {
            url: request.url,
            site: None,
            scripts: None,
            parsed: Parsed {
                title: None,
                sheets: vec![SheetTag {
                    node: 3,
                    link: Link {
                        resolved: Some("https://plain.example/s.css".to_owned()),
                        refused: false,
                    },
                }],
                pictures: Vec::new(),
                deferred: Vec::new(),
                stopped_at: None,
                runner: false,
            },
        })),
    });
    let hidden = |browser: &Browser| {
        browser.told.iter().filter(|told| matches!(told, Command::HideScrollbars(_))).count()
    };
    assert_eq!(hidden(&browser), 1, "while the stylesheet is coming");
    let sheet = browser.requests.remove(0);
    browser.receive(Fetched::Resource {
        id: sheet.id,
        url: sheet.url,
        result: Ok(Resource { text: String::new(), picture: None, registered: false }),
    });
    assert!(!browser.tabs()[0].loading());
    assert_eq!(hidden(&browser), 2, "and once the page is built for real");
    assert!(matches!(browser.told.last(), Some(Command::HideScrollbars(_))));

    // With the interface there is nothing to hide.
    let mut browser = Browser::new(1);
    go(&mut browser, "https://plain.example/");
    assert_eq!(hidden(&browser), 0);
}

#[test]
fn an_unchanged_layer_hands_back_the_device_list_it_handed_back_before() {
    let scale = 2.0f64.to_bits();
    assert_eq!(scaled(None, 11, scale), None, "nothing has been scaled yet");
    let kept = Some(Scaled { logical: 11, scale, device: 12 });
    assert_eq!(scaled(kept, 11, scale), Some(12));
    assert_eq!(scaled(kept, 13, scale), None, "another list");
}

#[test]
fn a_changed_scale_scales_the_interface_again() {
    let one = Some(Scaled { logical: 21, scale: 1.0f64.to_bits(), device: 22 });
    assert_eq!(scaled(one, 21, 2.0f64.to_bits()), None, "the list is the same one, and too small");
    assert_eq!(scaled(one, 21, 1.0f64.to_bits()), Some(22));
}

#[test]
fn a_new_tab_brings_neither_a_zoom_nor_a_search_with_it() {
    let mut browser = three_needles();
    look_for(&mut browser, "needle", 3);
    browser.step_zoom(ZoomStep::In);
    assert!(browser.ui().finding.is_some());
    assert_eq!(browser.zoom(), 1_100_000);

    browser.new_tab();
    assert!(browser.ui().finding.is_none(), "a tab that is not searching brings no bar");
    assert_eq!(browser.zoom(), 1_000_000, "and nothing is drawn at its own size");

    browser.select_tab(0);
    assert!(browser.ui().finding.is_some(), "a tab brings its own query with it");
}

#[test]
fn a_zoomed_page_reflows_rather_than_being_magnified() {
    let mut browser = browser();
    go(&mut browser, "prose.example");
    assert_eq!(browser.zoom(), 1_000_000, "a page opens at its own size");
    let tab = browser.active_id();
    let laid_out = |browser: &Browser| {
        browser
            .told
            .iter()
            .filter(|told| matches!(told, Command::InvalidateLayout(id) if *id == tab))
            .count()
    };
    browser.told.clear();
    browser.set_zoom(2_000_000);
    assert_eq!(browser.zoom(), 2_000_000);
    assert_eq!(laid_out(&browser), 1, "the page is laid out again");
    browser.set_zoom(2_000_000);
    assert_eq!(laid_out(&browser), 1, "once");
    browser.set_zoom(1_000_000);
    assert_eq!(laid_out(&browser), 2);

    // A factor outside the range is brought back rather than refused.
    browser.set_zoom(50_000_000);
    assert_eq!(browser.zoom(), 5_000_000);
    browser.set_zoom(10_000);
    assert_eq!(browser.zoom(), 250_000);
}

#[test]
fn a_zoom_keeps_the_reader_where_they_were_reading() {
    let mut browser = browser();
    go(&mut browser, "long.example");
    let tab = browser.active_id();
    browser.told.clear();
    browser.step_zoom(ZoomStep::In);
    let held = |told: &Command| matches!(told, Command::HoldPlace(id) if *id == tab);
    let laid_out = |told: &Command| matches!(told, Command::InvalidateLayout(id) if *id == tab);
    let holding = browser.told.iter().position(held).expect("the place is held");
    let laying_out = browser.told.iter().position(laid_out).expect("the page is laid out again");
    assert!(holding < laying_out, "the layout being left is the one that knows the place");

    // There is nobody to keep in place where there is no page.
    browser.new_tab();
    browser.told.clear();
    browser.step_zoom(ZoomStep::In);
    assert!(!browser.told.iter().any(|told| matches!(told, Command::HoldPlace(_))));
}

#[test]
fn the_appearance_preference_is_what_a_page_asks_for() {
    let mut browser = browser();
    go(&mut browser, "https://themed.example/");
    assert_eq!(browser.effective_scheme(), Scheme::Light, "the preference starts at light");
    browser.settings.appearance = Appearance::Dark;
    assert_eq!(browser.effective_scheme(), Scheme::Dark, "and the page follows it");
    browser.settings.appearance = Appearance::System;
    browser.on_event(Event::AppearanceChanged(Scheme::Dark));
    assert_eq!(browser.effective_scheme(), Scheme::Dark);
    browser.settings.appearance = Appearance::Light;
    assert_eq!(browser.effective_scheme(), Scheme::Light);
}

#[test]
fn a_document_that_waits_for_its_style_is_drawn_as_the_blank_page_is() {
    let (system, _) = no_builds();
    let small = Window { width: 1, height: 2, scale: 3, dark: false };
    let large = Window { width: 7, ..small };
    let mut browser = browser();
    browser.navigate(target("https://plain.example/"));
    let request = browser.requests.remove(0);
    browser.receive(Fetched::Document {
        id: request.id,
        result: Ok(Arrival::Document(Document {
            url: request.url,
            site: None,
            scripts: None,
            parsed: Parsed {
                title: None,
                sheets: vec![SheetTag {
                    node: 3,
                    link: Link {
                        resolved: Some("https://plain.example/s.css".to_owned()),
                        refused: false,
                    },
                }],
                pictures: Vec::new(),
                deferred: Vec::new(),
                stopped_at: None,
                runner: false,
            },
        })),
    });
    let drawn_in = |browser: &Browser, window: Window| {
        match browser.page_epoch(&Vec::new(), system, 0, window, false) {
            PageVersion::Blank { window, .. } => Some(window),
            _ => None,
        }
    };
    assert_eq!(drawn_in(&browser, small), Some(small));
    assert_eq!(drawn_in(&browser, large), Some(large), "and anew in another window");
    assert!(
        matches!(
            browser.page_epoch(&vec![3], system, 0, small, false),
            PageVersion::Document { .. }
        ),
        "a sheet for another medium holds nothing back"
    );
    let sheet = browser.requests.remove(0);
    browser.receive(Fetched::Resource {
        id: sheet.id,
        url: sheet.url,
        result: Ok(Resource { text: String::new(), picture: None, registered: false }),
    });
    assert_eq!(drawn_in(&browser, small), None);
}
