//! The smaller parts: text, markup, addresses of the browser's own pages, zooms, requests.

use otlyra_app::arriving::{document_for, Sniffed};
use otlyra_app::address::site_of;
use otlyra_app::asking::{subresource_url, Link};
use otlyra_app::browser::{Browser, Surface, Target};
use otlyra_app::markup::{escape, image_document, segment_name, text_document};
use otlyra_app::system::SystemPage;
use otlyra_app::tab::{next_tab_id, TabId};
use otlyra_app::text::{contains, is_blank, trim};
use otlyra_app::zoom::{step_from, ZoomMemory, ZoomStep};

#[test]
fn markup_is_shown_rather_than_rendered() {
    assert_eq!(escape("<a href=\"x\">&</a>"), "&lt;a href=&quot;x&quot;&gt;&amp;&lt;/a&gt;");
    assert_eq!(
        text_document("1 < 2"),
        "<!doctype html><meta charset=utf-8><style>pre { font-family: monospace; \
         white-space: pre; margin: 8px }</style><pre>1 &lt; 2</pre>"
    );
    assert_eq!(segment_name("https://a.test/x/pic.png"), "pic.png");
    assert_eq!(segment_name("pic.png"), "pic.png");
    assert_eq!(segment_name("https://a.test/"), "");
    assert_eq!(
        image_document("https://a.test/p&q.png"),
        "<!doctype html><meta charset=utf-8><title>p&amp;q.png</title>\
         <style>html { background: #1c1c1e } body { margin: 0; height: 100vh; display: flex; \
         justify-content: center; align-items: center } img { max-width: 100%; \
         max-height: 100% }</style><img src=\"https://a.test/p&amp;q.png\" alt=\"\">"
    );
}

#[test]
fn a_response_is_shown_as_what_it_is() {
    assert_eq!(document_for(Sniffed::Document, "https://a.test/", "<p>"), None);
    assert_eq!(
        document_for(Sniffed::Image, "https://a.test/p.png", ""),
        Some(image_document("https://a.test/p.png"))
    );
    assert_eq!(document_for(Sniffed::Other, "https://a.test/", "<p>"), Some(text_document("<p>")));
}

#[test]
fn white_space_is_what_the_language_says_it_is() {
    assert!(is_blank(" \t\n\u{a0}\u{3000}"));
    assert!(is_blank(""));
    assert!(!is_blank(" x "));
    assert_eq!(trim("\u{a0} a b \n"), "a b");
    assert_eq!(trim("  "), "");
    assert!(contains("abcabd", "abd"));
    assert!(contains("abc", ""));
    assert!(!contains("ab", "abc"));

    for character in '\u{0}'..=char::MAX {
        let text = character.to_string();
        assert_eq!(is_blank(&text), character.is_whitespace(), "{character:?}");
        assert_eq!(trim(&text), text.trim(), "{character:?}");
    }
}

#[test]
fn the_pages_of_the_browser_have_addresses_and_names() {
    let pages = [
        SystemPage::Settings,
        SystemPage::History,
        SystemPage::Downloads,
        SystemPage::Bookmarks,
        SystemPage::Cookies,
        SystemPage::Cache,
        SystemPage::About,
    ];
    for page in pages {
        assert_eq!(SystemPage::from_url(&page.url()), Some(page));
        assert!(page.available());
        assert!(!page.label().is_empty());
    }
    assert_eq!(SystemPage::from_url("about:blank"), None);
    assert_eq!(SystemPage::from_url("ABOUT:COOKIES/"), Some(SystemPage::Cookies));
    assert_eq!(SystemPage::from_url("about:cookies//"), None);
}

#[test]
fn a_link_that_is_refused_leads_nowhere() {
    let link = |refused| Link { resolved: Some("https://a.test/x".to_owned()), refused };
    assert_eq!(subresource_url(&link(false)).as_deref(), Some("https://a.test/x"));
    assert_eq!(subresource_url(&link(true)), None);
    assert_eq!(subresource_url(&Link { resolved: None, refused: false }), None);
}

#[test]
fn tabs_are_numbered_in_the_order_they_are_made() {
    let mut counter = 7;
    assert_eq!(next_tab_id(&mut counter), TabId(7));
    assert_eq!(next_tab_id(&mut counter), TabId(8));
    assert_eq!(counter, 9);
}

#[test]
fn a_zoom_off_the_ladder_steps_to_the_next_stop() {
    assert_eq!(step_from(ZoomStep::In, 1_000_000), 1_100_000);
    assert_eq!(step_from(ZoomStep::Out, 1_000_000), 900_000);
    assert_eq!(step_from(ZoomStep::In, 1_120_000), 1_250_000);
    assert_eq!(step_from(ZoomStep::Reset, 3_000_000), 1_000_000);
    let mut zooms = ZoomMemory::new();
    let site = "https://a.test".to_owned();
    assert!(zooms.leave_at(site.clone(), 1_500_000));
    assert_eq!(zooms.get(&site), Some(1_500_000));
    assert!(zooms.leave_at(site.clone(), 1_000_000));
    assert_eq!(zooms.get(&site), None, "its own size is no entry at all");
}

#[test]
fn the_keyboard_is_one_surfaces_at_a_time() {
    let mut browser = Browser::new(1);
    assert_eq!(browser.keyboard_surface(), Surface::Chrome);
    browser.activate_surface(Surface::Page);
    let said = browser.told.len();
    browser.activate_surface(Surface::Page);
    assert_eq!(browser.told.len(), said, "taking what it has is nothing");
}

#[test]
fn a_tab_opened_for_a_driver_is_not_turned_to() {
    let mut browser = Browser::new(1);
    let id = browser.open_tab();
    assert_eq!(browser.active(), 0);
    assert_eq!(browser.tab_index(id), Some(1));
    assert_eq!(browser.tab_index(TabId(99)), None);
    browser.move_tab(TabId(99), 0);
    browser.select_tab(9);
    assert_eq!(browser.active(), 0);
    browser.navigate(Target { url: "https://a.test/".to_owned(), site: None, refused: false });
    browser.stop();
    assert!(!browser.is_loading());
}

#[test]
fn escaping_loses_nothing_and_goes_into_a_joining() {
    let (left, right) = ("a<b", "&lt;\"");
    assert_eq!(escape(&format!("{left}{right}")), format!("{}{}", escape(left), escape(right)));
    assert_ne!(escape("<"), escape("&lt;"));
    assert_eq!(escape("&lt;"), "&amp;lt;");
}

#[test]
fn a_site_is_its_scheme_and_its_host() {
    assert_eq!(site_of("https", "a.test"), "https://a.test");
    assert_ne!(site_of("https", "a.test"), site_of("http", "a.test"));
}

#[test]
fn no_name_is_given_twice() {
    let mut one = Browser::new(5);
    one.new_tab();
    let closed = one.active_id();
    one.close_tab(1);
    one.new_tab();
    assert_ne!(one.active_id(), closed);
    assert_eq!(one.next_tab, 8);

    // Another browser starts past what this one has given.
    let other = Browser::new(one.next_tab);
    assert!(one.tabs().iter().all(|tab| tab.id != other.active_id()));

    // The last tab of a window is another tab once it has been emptied.
    let mut alone = Browser::new(20);
    alone.close_tab(0);
    assert_eq!(alone.active_id(), TabId(21));
}

#[test]
fn a_visit_keeps_the_moment_it_was_recorded_at() {
    let mut browser = Browser::new(1);
    let at = jiff::Timestamp::from_second(1_700_000_000).ok();
    browser.record_visit_at("https://a.test/".to_owned(), "A".to_owned(), at);
    browser.record_visit_at("https://b.test/".to_owned(), "B".to_owned(), None);
    assert_eq!(browser.visits[0].at, at);
    assert_eq!(browser.visits[1].at, None);

    // A page that is reached is noted at the moment the clock says it is.
    let before = jiff::Timestamp::now();
    browser.open_system(SystemPage::About);
    let noted = browser.visits[2].at.expect("the clock is set");
    assert!(before <= noted && noted <= jiff::Timestamp::now());
}
