//! What the browser promises of whole journeys: of going somewhere and coming back, of
//! what is asked for and what comes of it, and of answers that come too late.

use vstd::prelude::*;

use crate::address::{address_shown, address_synced, bookmark_of, zoom_restored};
use crate::arriving::{
    answered, attachment_received, attachment_saved, awaiting, awaits_script, background_received,
    document_received, fed_by, hopped, is_outstanding, load_left, load_records, parse_step,
    picture_received, received, resource_received, script_navigated, waits_for, without_request,
    Attachment, Fetched, ParseStep, Resource, SCRIPT_HOP_LIMIT, ScriptNavigation,
};
use crate::asking::{
    allowed, asking_for, asking_is_sound, is_asked, what_may_be_reached_is_asked_for,
};
use crate::browser::{
    changing_a_tab_is_sound, each_tab_is_sound, saying, BackgroundFetch, Body, CacheMode, Command,
    PictureFetch, RequestView, ResourceKind, State, Surface, Target,
};
use crate::building::{
    at_most, document_built, document_here, document_parsed, gathered, is_settled, load_finished,
    outstanding_of, page_shown, picture_wanted, pictures_left, pictures_sorted, scripts_adopted,
    scripts_deferred, scripts_in_order, scripts_left, sheet_wanted, sheets_left, sheets_wanted,
    showing, with_images, IMAGE_LIMIT, NamedView, Parsed, PictureTag, SheetTag, STYLESHEET_LIMIT,
};
use crate::find::{bar_showing, find_updated, query_of, search_after, with_search};
use crate::images::Picture;
use crate::navigation::{
    everything_forgotten, fetch_begun, history_recorded, hops_forgotten, left_entry_at,
    navigated, new_load, off_system_page, on_entry, on_system_page, recorded,
    refusal, reloaded, reloaded_ignoring_cache, scroll_of, scroll_remembered, sent, setting_out,
    settings_at, stopped, submitted, system_opened, system_shown, travelled, waiting_tab,
    with_cache_mode, Method, Submission,
};
use crate::strip::{
    a_tab_is_found_under_its_name, activating_changes_no_tab, first_named, named, names_last,
    place_named, showing_an_address_changes_no_tab,
};
use crate::surface::activated;
use crate::system::{an_address_opens_its_page, page_at, SystemPage};
use crate::tab::{following, EntryView, Outstanding, PendingResource, PendingView, TabView};

verus! {

/// Whether two lists of entries name the same places in the same order.
pub open spec fn same_places(left: Seq<EntryView>, right: Seq<EntryView>) -> bool {
    &&& left.len() == right.len()
    &&& forall|i: int|
        0 <= i < left.len() ==> (#[trigger] left[i]).url == right[i].url && left[i].site
            == right[i].site
}

/// Whether `after` has every tab of `before` but perhaps the active one, in its place.
pub open spec fn others_untouched(before: State, after: State) -> bool {
    &&& after.active == before.active
    &&& after.tabs.len() == before.tabs.len()
    &&& forall|i: int|
        0 <= i < before.tabs.len() && i != before.active ==> after.tabs[i]
            == #[trigger] before.tabs[i]
}

/// The request a navigation puts on the wire.
pub open spec fn document_request(s: State, url: Seq<char>, body: Option<Body>) -> RequestView {
    RequestView {
        id: s.next_request,
        url,
        kind: ResourceKind::Document,
        body,
        cache: s.next_cache_mode,
    }
}

proof fn a_changed_active_tab_is_sound(s: State, tab: TabView)
    requires
        s.wf(),
        s.tab().wf() ==> tab.wf(),
        tab.id == s.tab().id,
    ensures
        s.with_tab(tab).wf(),
        s.with_tab(tab).tab() == tab,
        others_untouched(s, s.with_tab(tab)),
{
    changing_a_tab_is_sound(s, s.active, tab);
}

proof fn recording_is_sound(s: State, index: int, previous: Seq<char>)
    requires
        s.wf(),
        0 <= index < s.tabs.len(),
    ensures
        history_recorded(s, index, previous).wf(),
{
    changing_a_tab_is_sound(s, index, recorded(s.tabs[index]));
}

/// A navigation puts exactly one request on the wire, for the address it names and with
/// what the cache was told to do, and that instruction is spent with it. The tab waits for
/// the answer, on the entry it was on, and no other tab is touched.
pub proof fn a_navigation_asks_once(
    s: State,
    url: Seq<char>,
    site: Option<Seq<char>>,
    refused: bool,
    user_initiated: bool,
    record: bool,
    scroll: u32,
    body: Option<Body>,
)
    requires
        s.wf(),
        page_at(url) is None,
        user_initiated || !refused,
    ensures
        ({
            let after = sent(s, url, site, refused, user_initiated, record, scroll, body);
            &&& after.wf()
            &&& after.requests == s.requests.push(document_request(s, url, body))
            &&& after.next_cache_mode == CacheMode::Default
            &&& after.next_request == following(s.next_request)
            &&& after.script_hops == s.script_hops
            &&& after.visits == s.visits
            &&& after.settings == s.settings
            &&& others_untouched(s, after)
            &&& after.tab().pending == Some(new_load(s.next_request, s.tab().url, record, scroll))
            &&& after.tab().url == url
            &&& after.tab().site == site
            &&& after.tab().title == url
            &&& after.tab().page is Some == s.tab().page is Some
            &&& after.tab().error is None
            &&& after.tab().system is None
            &&& after.tab().history == s.tab().history
            &&& after.tab().position == s.tab().position
            &&& after.tab().navigation == Some(s.next_navigation)
            &&& after.next_navigation == following(s.next_navigation)
            &&& after.chrome.address == url
            &&& after.chrome.menu is None
            &&& after.context is None
            &&& after.keyboard == Surface::Page
            &&& after.extras == s.extras
        }),
{
    reveal(sent);
    let leaving = setting_out(s);
    activating_changes_no_tab(leaving, Surface::Page);
    let given = activated(leaving, Surface::Page);
    let ready = off_system_page(given);
    let begun = fetch_begun(ready, url, site, s.next_cache_mode, record, scroll, body);
    let tab = waiting_tab(
        ready.tab(),
        url,
        site,
        ready.next_navigation,
        new_load(ready.next_request, ready.tab().url, record, scroll),
    );
    assert(begun.tabs == ready.tabs.update(ready.active, tab));
    assert(begun.tab() == tab);
    assert(begun.wf()) by {
        changing_a_tab_is_sound(given, given.active, ready.tab());
        changing_a_tab_is_sound(ready, ready.active, tab);
    }
    showing_an_address_changes_no_tab(begun);
    let after = address_synced(begun);
    assert(after == sent(s, url, site, refused, user_initiated, record, scroll, body));
    assert(after.wf()) by {
        a_synced_address_is_sound(begun);
    }
    assert forall|i: int| 0 <= i < s.tabs.len() && i != s.active implies after.tabs[i]
        == #[trigger] s.tabs[i] by {
        assert(begun.tabs[i] == s.tabs[i]);
    }
}

/// Showing the active tab's address leaves a browser that can be used.
pub proof fn a_synced_address_is_sound(s: State)
    requires
        s.wf(),
    ensures
        address_synced(s).wf(),
{
    showing_an_address_changes_no_tab(s);
    let named = address_shown(s, s.tab().url, bookmark_of(s.bookmarks, s.tab().url));
    let drawn = zoom_restored(named);
    assert(drawn.tabs == s.tabs && drawn.active == s.active);
    let bar = bar_showing(drawn, query_of(drawn.tab()));
    let after = find_updated(bar, 0);
    assert(after == address_synced(s));
    assert(after.tabs == bar.tabs.update(s.active, with_search(bar.tab(), search_after(bar, 0))));
    assert(bar.wf());
    changing_a_tab_is_sound(bar, s.active, with_search(bar.tab(), search_after(bar, 0)));
}

/// A page that may not reach an address does not fetch it, and goes nowhere: the tab stays
/// at the address it was on and says what was refused.
pub proof fn what_a_page_may_not_reach_is_not_fetched(s: State, target: Target)
    requires
        s.wf(),
        page_at(target.url@) is None,
        target.refused,
    ensures
        ({
            let after = navigated(s, target, false);
            &&& after.requests == s.requests
            &&& after.tab().url == s.tab().url
            &&& after.tab().error == Some(refusal(target.url@, s.tab().url))
            &&& after.tab().page is None
            &&& after.tab().pending is None
            &&& others_untouched(s, after)
        }),
{
    reveal(sent);
    let noted = scroll_remembered(s);
    let leaving = setting_out(noted);
    activating_changes_no_tab(leaving, Surface::Page);
}

/// The reader may go where a page may not: what they typed is fetched whatever the rules
/// say of the page they are on, and a run of navigations by script is over.
pub proof fn the_reader_may_go_anywhere(s: State, target: Target)
    requires
        s.wf(),
        page_at(target.url@) is None,
    ensures
        ({
            let after = navigated(s, target, true);
            &&& after.wf()
            &&& after.requests == s.requests.push(document_request(s, target.url@, None))
            &&& after.tab().url == target.url@
            &&& after.tab().pending is Some
            &&& after.tab().pending->0.record
            &&& after.script_hops == 0
            &&& others_untouched(s, after)
        }),
{
    let fresh = hops_forgotten(s);
    noting_the_scroll_is_sound(fresh);
    let noted = scroll_remembered(fresh);
    a_navigation_asks_once(
        noted,
        target.url@,
        target.site.deep_view(),
        target.refused,
        true,
        true,
        0,
        None,
    );
}

/// Noting where the reader is in the entry they are about to leave changes nothing else: the
/// history holds the same places, and the browser can be used as before.
pub proof fn noting_the_scroll_is_sound(s: State)
    requires
        s.wf(),
    ensures
        scroll_remembered(s).wf(),
        others_untouched(s, scroll_remembered(s)),
        scroll_remembered(s).requests == s.requests,
        scroll_remembered(s).next_request == s.next_request,
        scroll_remembered(s).next_cache_mode == s.next_cache_mode,
        scroll_remembered(s).tab().url == s.tab().url,
        scroll_remembered(s).tab().position == s.tab().position,
        same_places(scroll_remembered(s).tab().history, s.tab().history),
        s.tab().history.len() > 0 ==> scroll_remembered(s).tab().history[s.tab().position].scroll
            == scroll_of(s.tab(), s.settings),
        forall|i: int|
            0 <= i < s.tab().history.len() && i != s.tab().position ==> scroll_remembered(
                s,
            ).tab().history[i] == #[trigger] s.tab().history[i],
{
    changing_a_tab_is_sound(s, s.active, left_entry_at(s.tab(), scroll_of(s.tab(), s.settings)));
    each_tab_is_sound(s);
}

/// One of the browser's own pages is fetched from nothing: opening it puts no request on
/// the wire, and the tab is at its address at once.
pub proof fn a_page_of_its_own_is_fetched_from_nothing(s: State, page: SystemPage)
    requires
        s.wf(),
    ensures
        ({
            let after = system_opened(s, page);
            &&& after.requests == s.requests
            &&& after.tab().system == Some(page)
            &&& after.tab().url == page.address()
            &&& after.tab().pending is None
            &&& others_untouched(s, after)
        }),
{
    reveal(sent);
    an_address_opens_its_page(page);
    activating_changes_no_tab(s, Surface::System);
    let ready = hops_forgotten(activated(s, Surface::System));
    noting_the_scroll_is_sound(ready);
    let noted = scroll_remembered(ready);
    showing_a_system_page(setting_out(noted), page, true, 0);
}

/// What showing one of the browser's own pages in the active tab does.
pub proof fn showing_a_system_page(s: State, page: SystemPage, record: bool, scroll: u32)
    requires
        s.wf(),
    ensures
        ({
            let after = system_shown(s, page, record, scroll);
            &&& after.requests == s.requests
            &&& after.next_request == s.next_request
            &&& after.next_cache_mode == s.next_cache_mode
            &&& after.tab().system == Some(page)
            &&& after.tab().url == page.address()
            &&& after.tab().pending is None
            &&& after.tab().page is None
            &&& after.wf()
            &&& others_untouched(s, after)
            &&& after.settings == settings_at(s, scroll).settings
            &&& !record ==> after.tab().history == s.tab().history && after.tab().position
                == s.tab().position && after.visits == s.visits
            &&& record ==> after.tab().history == history_recorded(
                s.with_tab(on_system_page(s.tab(), page)),
                s.active,
                s.tab().url,
            ).tab().history
            &&& record ==> after.tab().position == history_recorded(
                s.with_tab(on_system_page(s.tab(), page)),
                s.active,
                s.tab().url,
            ).tab().position
            &&& record ==> after.visits == history_recorded(
                s.with_tab(on_system_page(s.tab(), page)),
                s.active,
                s.tab().url,
            ).visits
            &&& after.tab().title == page.name()
            &&& after.tab().error is None
            &&& after.chrome.address == page.address()
            &&& after.keyboard == Surface::System
            &&& after.script_hops == s.script_hops
        }),
{
    let there = s.with_tab(on_system_page(s.tab(), page));
    let noted = if record {
        history_recorded(there, s.active, s.tab().url)
    } else {
        there
    };
    changing_a_tab_is_sound(s, s.active, on_system_page(s.tab(), page));
    recording_is_sound(there, s.active, s.tab().url);
    let placed = settings_at(noted, scroll);
    assert(placed.wf());
    showing_an_address_changes_no_tab(placed);
    a_synced_address_is_sound(placed);
    activating_changes_no_tab(address_synced(placed), Surface::System);
}

/// Where a tab is once it has reached the place an address names: one of the browser's own
/// pages is always at its own address.
pub open spec fn reached(url: Seq<char>) -> Seq<char> {
    match page_at(url) {
        Some(page) => page.address(),
        None => url,
    }
}

/// Whether a tab shows, or waits to show, the place of an entry where the reader left it,
/// and notes nowhere that it came there.
pub open spec fn is_back_at(s: State, url: Seq<char>, scroll: u32) -> bool {
    &&& s.tab().url == reached(url)
    &&& s.tab().system == page_at(url)
    &&& match page_at(url) {
        Some(_) => s.tab().pending is None && s.settings.scroll == scroll,
        None => s.tab().pending matches Some(load) && load.restore_scroll == scroll && !load.record,
    }
}

/// Moving through the history adds no entry and drops none: the same places are in it, in
/// the same order, and the tab is on the one it was asked for, where the reader left it. No
/// visit is recorded, nor will be when what was asked for comes.
pub proof fn travelling_keeps_the_history(s: State, offset: int)
    requires
        s.wf(),
        0 <= s.tab().position + offset < s.tab().history.len(),
    ensures
        ({
            let after = travelled(s, offset);
            let entry = s.tab().history[s.tab().position + offset];
            &&& after.wf()
            &&& after.tab().position == s.tab().position + offset
            &&& same_places(after.tab().history, s.tab().history)
            &&& others_untouched(s, after)
            &&& after.visits == s.visits
            &&& is_back_at(after, entry.url, entry.scroll)
            &&& offset != 0 ==> after.tab().history[s.tab().position].scroll == scroll_of(
                s.tab(),
                s.settings,
            )
            &&& match page_at(entry.url) {
                None => {
                    &&& after.tab().pending == Some(
                        new_load(s.next_request, s.tab().url, false, entry.scroll),
                    )
                    &&& after.requests == s.requests.push(document_request(s, entry.url, None))
                    &&& after.settings == s.settings
                    &&& after.tab().site == entry.site
                    &&& after.tab().title == entry.url
                    &&& after.keyboard == Surface::Page
                },
                Some(_) => {
                    &&& after.requests == s.requests
                    &&& after.settings == settings_at(s, entry.scroll).settings
                },
            }
        }),
{
    reveal(sent);
    let target = s.tab().position + offset;
    let entry = s.tab().history[target];
    noting_the_scroll_is_sound(s);
    let noted = scroll_remembered(s);
    let there = on_entry(noted, target);
    a_changed_active_tab_is_sound(noted, TabView { position: target, ..noted.tab() });
    assert(there.wf());
    match page_at(entry.url) {
        None => a_navigation_asks_once(
            there,
            entry.url,
            entry.site,
            false,
            true,
            false,
            entry.scroll,
            None,
        ),
        Some(page) => showing_a_system_page(setting_out(there), page, false, entry.scroll),
    }
}

/// There is no way past either end of the history: where a tab cannot go back, or forward,
/// being asked to changes nothing at all.
pub proof fn there_is_no_way_past_the_ends(s: State)
    requires
        s.wf(),
    ensures
        !s.tab().has_back() ==> travelled(s, -1) == s,
        !s.tab().has_forward() ==> travelled(s, 1) == s,
{
    each_tab_is_sound(s);
}

/// Going back and then forward again comes to the place it began at, and to where in it
/// the reader was, also where that place or the one before it is one of the browser's own
/// pages. The history holds the same places, and nothing is noted as visited.
pub proof fn back_and_forward_again_is_where_it_began(s: State)
    requires
        s.wf(),
        s.tab().has_back(),
    ensures
        ({
            let back = travelled(s, -1);
            let after = travelled(back, 1);
            let before = s.tab().history[s.tab().position - 1];
            &&& is_back_at(back, before.url, before.scroll)
            &&& after.tab().position == s.tab().position
            &&& same_places(after.tab().history, s.tab().history)
            &&& is_back_at(
                after,
                s.tab().history[s.tab().position].url,
                scroll_of(s.tab(), s.settings),
            )
            &&& after.visits == s.visits
            &&& others_untouched(s, after)
        }),
{
    each_tab_is_sound(s);
    travelling_keeps_the_history(s, -1);
    let back = travelled(s, -1);
    assert(back.tab().history[s.tab().position].url == s.tab().history[s.tab().position].url);
    travelling_keeps_the_history(back, 1);
}

/// Going somewhere new drops what was ahead: an entry that is recorded is the last one,
/// nothing is in front of it, and what was behind it stays.
pub proof fn a_new_place_drops_what_was_ahead(tab: TabView)
    requires
        tab.wf(),
    ensures
        recorded(tab).wf(),
        !recorded(tab).has_forward(),
        recorded(tab).history.last() == (EntryView { url: tab.url, site: tab.site, scroll: 0 }),
        tab.history.len() > 0 ==> recorded(tab).has_back() && recorded(tab).position
            == tab.position + 1 && recorded(tab).history.take(tab.position + 1)
            == tab.history.take(tab.position + 1),
        tab.history.len() == 0 ==> recorded(tab).history.len() == 1,
{
    if tab.history.len() > 0 {
        assert(recorded(tab).history.take(tab.position + 1) =~= tab.history.take(
            tab.position + 1,
        ));
    }
}

/// A reload asks the server whether what is kept still holds, one that ignores the cache
/// does not consult it at all, and neither outlives itself: the next navigation is an
/// ordinary one again. Neither adds an entry, and both come back to where the reader was.
pub proof fn a_reload_is_for_one_fetch(s: State, later: Target)
    requires
        s.wf(),
        s.tab().url.len() > 0,
        page_at(s.tab().url) is None,
        page_at(later.url@) is None,
    ensures
        ({
            let after = reloaded(s, false);
            &&& after.requests == s.requests.push(
                RequestView {
                    cache: CacheMode::Revalidate,
                    ..document_request(s, s.tab().url, None)
                },
            )
            &&& after.tab().pending == Some(
                new_load(s.next_request, s.tab().url, false, scroll_of(s.tab(), s.settings)),
            )
            &&& after.tab().history == s.tab().history
            &&& navigated(after, later, true).requests.last().cache == CacheMode::Default
        }),
        ({
            let after = reloaded_ignoring_cache(s, false);
            &&& after.requests == s.requests.push(
                RequestView { cache: CacheMode::Bypass, ..document_request(s, s.tab().url, None) },
            )
            &&& after.tab().history == s.tab().history
            &&& navigated(after, later, true).requests.last().cache == CacheMode::Default
        }),
{
    let told = with_cache_mode(s, CacheMode::Revalidate);
    assert(told.wf());
    a_navigation_asks_once(
        told,
        s.tab().url,
        s.tab().site,
        false,
        false,
        false,
        scroll_of(s.tab(), s.settings),
        None,
    );
    the_reader_may_go_anywhere(reloaded(s, false), later);
    let cleared = with_cache_mode(everything_forgotten(s), CacheMode::Bypass);
    assert(cleared.wf());
    a_navigation_asks_once(
        cleared,
        s.tab().url,
        s.tab().site,
        false,
        false,
        false,
        scroll_of(s.tab(), s.settings),
        None,
    );
    the_reader_may_go_anywhere(reloaded_ignoring_cache(s, false), later);
}

/// A reload that fetches nothing does not outlive itself either: neither that of one of the
/// browser's own pages, which stays where the reader was in it, nor that of a tab with no
/// address, nor one that is refused.
pub proof fn a_reload_that_fetches_nothing_is_spent(s: State, refused: bool)
    requires
        s.wf(),
        s.tab().url.len() == 0 || refused || page_at(s.tab().url) is Some,
    ensures
        reloaded(s, refused).requests == s.requests,
        s.next_cache_mode == CacheMode::Default ==> reloaded(s, refused).next_cache_mode
            == CacheMode::Default,
        reloaded_ignoring_cache(s, refused).requests == s.requests,
        reloaded_ignoring_cache(s, refused).next_cache_mode == CacheMode::Default,
        s.tab().url.len() > 0 && page_at(s.tab().url) is Some ==> {
            let after = reloaded(s, refused);
            &&& after.tab().system == page_at(s.tab().url)
            &&& after.settings.scroll == scroll_of(s.tab(), s.settings)
            &&& after.tab().history == s.tab().history
            &&& after.tab().position == s.tab().position
            &&& after.visits == s.visits
        },
{
    reveal(sent);
    let told = with_cache_mode(s, CacheMode::Revalidate);
    let cleared = with_cache_mode(everything_forgotten(s), CacheMode::Bypass);
    let scroll = scroll_of(s.tab(), s.settings);
    match page_at(s.tab().url) {
        Some(page) => {
            showing_a_system_page(setting_out(told), page, false, scroll);
            showing_a_system_page(setting_out(cleared), page, false, scroll);
        },
        None => {
            activating_changes_no_tab(setting_out(told), Surface::Page);
            activating_changes_no_tab(setting_out(cleared), Surface::Page);
        },
    }
}

/// A reload that ignores the cache has nothing to answer from: nothing decoded for an
/// earlier page is left, and so every picture a page names is wanted and none is there.
pub proof fn a_reload_ignoring_the_cache_forgets_every_picture(
    s: State,
    refused: bool,
    tags: Seq<PictureTag>,
)
    requires
        s.wf(),
    ensures
        reloaded_ignoring_cache(s, refused).extras.images == Seq::<(Seq<char>, Picture)>::empty(),
        ({
            let images = reloaded_ignoring_cache(s, refused).extras.images;
            let sorting = pictures_sorted(images, tags);
            &&& sorting.ready.len() == 0
            &&& sorting.wanted == tags.map_values(|tag: PictureTag| picture_wanted(tag))
        }),
{
    reveal(sent);
    let leaving = setting_out(with_cache_mode(everything_forgotten(s), CacheMode::Bypass));
    activating_changes_no_tab(leaving, Surface::Page);
    with_nothing_kept_every_picture_is_wanted(tags);
}

proof fn with_nothing_kept_every_picture_is_wanted(tags: Seq<PictureTag>)
    ensures
        pictures_sorted(seq![], tags).images == Seq::<(Seq<char>, Picture)>::empty(),
        pictures_sorted(seq![], tags).ready.len() == 0,
        pictures_sorted(seq![], tags).wanted == tags.map_values(
            |tag: PictureTag| picture_wanted(tag),
        ),
    decreases tags.len(),
{
    let wanted = tags.map_values(|tag: PictureTag| picture_wanted(tag));
    if tags.len() == 0 {
        assert(wanted =~= seq![]);
    } else {
        with_nothing_kept_every_picture_is_wanted(tags.drop_last());
        assert(wanted =~= tags.drop_last().map_values(
            |tag: PictureTag| picture_wanted(tag),
        ).push(picture_wanted(tags.last())));
    }
}

/// An answer that nobody waits for changes nothing.
pub proof fn an_answer_nobody_waits_for_changes_nothing(s: State, fetched: Fetched)
    requires
        ({
            let id = match fetched {
                Fetched::Document { id, .. } => id,
                Fetched::Resource { id, .. } => id,
            };
            &&& forall|i: int| 0 <= i < s.tabs.len() ==> !waits_for(#[trigger] s.tabs[i], id)
            &&& !s.extras.font_fetches.contains_key(id)
            &&& !s.extras.background_fetches.contains_key(id)
            &&& !s.extras.picture_fetches.contains_key(id)
        }),
    ensures
        received(s, fetched).state == s,
        !received(s, fetched).changed,
        received(s, fetched).resume is None,
{
    let id = match fetched {
        Fetched::Document { id, .. } => id,
        Fetched::Resource { id, .. } => id,
    };
    nobody_awaits(s.tabs, id);
}

proof fn nobody_awaits(tabs: Seq<TabView>, id: u64)
    requires
        forall|i: int| 0 <= i < tabs.len() ==> !waits_for(#[trigger] tabs[i], id),
    ensures
        awaiting(tabs, id) is None,
    decreases tabs.len(),
{
    if tabs.len() > 0 {
        let fewer = tabs.drop_last();
        assert forall|i: int| 0 <= i < fewer.len() implies !waits_for(#[trigger] fewer[i], id) by {
            assert(fewer[i] == tabs[i]);
        }
        nobody_awaits(fewer, id);
        assert(!waits_for(tabs[tabs.len() - 1], id));
    }
}

/// Stopping a load rejects what comes for it afterwards: its document, and everything it
/// had asked for.
pub proof fn a_stopped_load_rejects_what_comes_late(s: State, fetched: Fetched)
    requires
        s.wf(),
        ({
            let id = match fetched {
                Fetched::Document { id, .. } => id,
                Fetched::Resource { id, .. } => id,
            };
            &&& waits_for(s.tab(), id)
            &&& forall|i: int|
                0 <= i < s.tabs.len() && i != s.active ==> !waits_for(#[trigger] s.tabs[i], id)
            &&& !s.extras.font_fetches.contains_key(id)
            &&& !s.extras.background_fetches.contains_key(id)
            &&& !s.extras.picture_fetches.contains_key(id)
        }),
    ensures
        received(stopped(s), fetched).state == stopped(s),
        !received(stopped(s), fetched).changed,
        stopped(s).tab().pending is None,
        stopped(s).tab().page == s.tab().page,
{
    let after = stopped(s);
    let id = match fetched {
        Fetched::Document { id, .. } => id,
        Fetched::Resource { id, .. } => id,
    };
    assert forall|i: int| 0 <= i < after.tabs.len() implies !waits_for(
        #[trigger] after.tabs[i],
        id,
    ) by {
        if i != s.active {
            assert(after.tabs[i] == s.tabs[i]);
        }
    }
    an_answer_nobody_waits_for_changes_nothing(after, fetched);
}

/// What has come is no longer waited for, and everything else still is.
pub proof fn what_came_is_no_longer_waited_for(load: PendingView, id: u64)
    ensures
        !is_outstanding(answered(load, id).outstanding, id),
        forall|other: u64|
            other != id ==> is_outstanding(answered(load, id).outstanding, other)
                == #[trigger] is_outstanding(load.outstanding, other),
{
    without_request_is_exact(load.outstanding, id);
}

proof fn without_request_is_exact(outstanding: Seq<Outstanding>, id: u64)
    ensures
        !is_outstanding(without_request(outstanding, id), id),
        forall|other: u64|
            other != id ==> is_outstanding(without_request(outstanding, id), other)
                == #[trigger] is_outstanding(outstanding, other),
    decreases outstanding.len(),
{
    if outstanding.len() > 0 {
        let fewer = outstanding.drop_last();
        let last = outstanding.last();
        without_request_is_exact(fewer, id);
        let before = without_request(fewer, id);
        let after = without_request(outstanding, id);
        assert forall|other: u64| other != id implies is_outstanding(after, other)
            == #[trigger] is_outstanding(outstanding, other) by {
            assert(is_outstanding(before, other) == is_outstanding(fewer, other));
            if is_outstanding(after, other) {
                let i = choose|i: int| 0 <= i < after.len() && (#[trigger] after[i]).id == other;
                if last.id == id || i < before.len() {
                    assert(before[i].id == other);
                    assert(is_outstanding(fewer, other));
                    let k = choose|k: int|
                        0 <= k < fewer.len() && (#[trigger] fewer[k]).id == other;
                    assert(outstanding[k].id == other);
                } else {
                    assert(outstanding[outstanding.len() - 1].id == other);
                }
            }
            if is_outstanding(outstanding, other) {
                let k = choose|k: int|
                    0 <= k < outstanding.len() && (#[trigger] outstanding[k]).id == other;
                if k < fewer.len() {
                    assert(fewer[k].id == other);
                    assert(is_outstanding(before, other));
                    let i = choose|i: int|
                        0 <= i < before.len() && (#[trigger] before[i]).id == other;
                    assert(after[i].id == other);
                } else {
                    assert(after[after.len() - 1].id == other);
                }
            }
        }
        if is_outstanding(after, id) {
            let i = choose|i: int| 0 <= i < after.len() && (#[trigger] after[i]).id == id;
            if i < before.len() {
                assert(before[i].id == id);
            }
        }
    }
}

/// A script may not navigate without end: past the limit it is not followed, below it each
/// navigation is counted, and a tab in the background is not followed at all.
pub proof fn a_script_cannot_navigate_without_end(s: State, index: int, wish: ScriptNavigation)
    ensures
        s.script_hops >= SCRIPT_HOP_LIMIT ==> script_navigated(s, index, wish) == s,
        index != s.active ==> script_navigated(s, index, wish) == s,
        s.wf() && index == s.active && s.script_hops < SCRIPT_HOP_LIMIT && wish
            is Reload ==> script_navigated(s, index, wish).script_hops == s.script_hops + 1,
        s.wf() && index == s.active && s.script_hops < SCRIPT_HOP_LIMIT && wish
            is Url ==> script_navigated(s, index, wish).script_hops == s.script_hops + 1,
{
    if s.wf() && index == s.active && s.script_hops < SCRIPT_HOP_LIMIT {
        let counted = hopped(s);
        match wish {
            ScriptNavigation::Reload(target) => going_keeps_the_count(
                counted,
                target.url@,
                target.site.deep_view(),
                target.refused,
                false,
                0,
            ),
            ScriptNavigation::Url { target, replace } => {
                noting_the_scroll_is_sound(counted);
                going_keeps_the_count(
                    scroll_remembered(counted),
                    target.url@,
                    target.site.deep_view(),
                    target.refused,
                    !replace,
                    0,
                );
            },
            _ => {},
        }
    }
}

proof fn going_keeps_the_count(
    s: State,
    url: Seq<char>,
    site: Option<Seq<char>>,
    refused: bool,
    record: bool,
    scroll: u32,
)
    requires
        s.wf(),
    ensures
        sent(s, url, site, refused, false, record, scroll, None).script_hops == s.script_hops,
{
    reveal(sent);
    let leaving = setting_out(s);
    activating_changes_no_tab(leaving, Surface::Page);
    match page_at(url) {
        Some(page) => {
            let there = leaving.with_tab(on_system_page(leaving.tab(), page));
            let noted = if record {
                history_recorded(there, leaving.active, leaving.tab().url)
            } else {
                there
            };
            changing_a_tab_is_sound(leaving, s.active, on_system_page(leaving.tab(), page));
            recording_is_sound(there, s.active, leaving.tab().url);
            let placed = settings_at(noted, scroll);
            assert(placed.wf());
            showing_an_address_changes_no_tab(placed);
            activating_changes_no_tab(address_synced(placed), Surface::System);
        },
        None => if !refused {
            a_navigation_asks_once(s, url, site, false, false, record, scroll, None);
        },
    }
}

/// A load that has everything puts the reader where it was asked to, and the tab waits for
/// nothing. Where no interface is drawn the page has no scrollbars either: it is the page
/// and nothing else, also once it has been built for real.
pub proof fn a_finished_load_is_where_the_reader_was(s: State, index: int)
    requires
        s.wf(),
        0 <= index < s.tabs.len(),
        s.tabs[index].pending is Some,
    ensures
        ({
            let after = load_finished(s, index).tabs[index];
            let load = s.tabs[index].pending->0;
            &&& after.pending is None
            &&& s.tabs[index].page is Some ==> after.page is Some && after.page->0.scroll
                == load.restore_scroll
            &&& after.history == s.tabs[index].history
            &&& after.position == s.tabs[index].position
            &&& after.url == s.tabs[index].url
            &&& load_finished(s, index).finished == s.finished.push((s.tabs[index].id, load))
            &&& s.tabs[index].page is Some && !s.interface ==> load_finished(s, index).told.last()
                == Command::HideScrollbars(s.tabs[index].id)
        }),
{
    reveal(saying);
}

/// A document is on screen as soon as it has come, before anything it asked for has: the
/// tab is at its address and has a page, whatever is outstanding.
pub proof fn a_document_is_shown_at_once(
    s: State,
    index: int,
    url: Seq<char>,
    site: Option<Seq<char>>,
    parsed: Parsed,
)
    requires
        s.wf(),
        0 <= index < s.tabs.len(),
    ensures
        ({
            let after = document_built(s, index, url, site, parsed);
            &&& after.tabs.len() == s.tabs.len()
            &&& after.tabs[index].page is Some
            &&& after.tabs[index].url == url
            &&& s.tabs[index].pending is Some && !s.tabs[index].pending->0.record
                ==> after.tabs[index].history == s.tabs[index].history
                && after.tabs[index].position == s.tabs[index].position && after.visits == s.visits
            &&& s.tabs[index].pending is Some && s.tabs[index].pending->0.record
                && s.tabs[index].pending->0.previous_url == url && s.tabs[index].history.len() > 0
                ==> after.tabs[index].history == s.tabs[index].history
        }),
{
    let here = s.with_tab_at(index, document_here(s.tabs[index]));
    changing_a_tab_is_sound(s, index, document_here(s.tabs[index]));
    let deferred = scripts_deferred(parsed.deferred@);
    let scripts = scripts_in_order(parsed.stopped_at, deferred);
    let held = outstanding_of(s.tabs[index]);
    let got = gathered(here, held, parsed.sheets@, parsed.pictures@, scripts);
    asking_touches_no_tab(here, held, parsed.sheets@, parsed.pictures@, scripts);
    assert(got.state.tabs == here.tabs && got.state.active == here.active && got.state.visits
        == here.visits);
    let there = got.state.with_tab_at(
        index,
        showing(got.state.tabs[index], url, site, parsed.title.deep_view()),
    ).telling_if(!got.state.interface, Command::HideScrollbars(got.state.tabs[index].id));
    changing_a_tab_is_sound(
        got.state,
        index,
        showing(got.state.tabs[index], url, site, parsed.title.deep_view()),
    );
    showing_an_address_changes_no_tab(there);
    let shown = page_shown(got.state, index, url, site, parsed.title.deep_view());
    let tab = shown.tabs[index];
    assert(tab.page is Some && tab.url == url && tab.history == s.tabs[index].history
        && tab.position == s.tabs[index].position);
}

/// What a document asks for puts requests on the wire and looks at the pictures that are kept,
/// and touches nothing else.
pub proof fn asking_touches_no_tab(
    s: State,
    held: Seq<Outstanding>,
    sheets: Seq<SheetTag>,
    pictures: Seq<PictureTag>,
    scripts: Seq<NamedView>,
)
    ensures
        ({
            let after = gathered(s, held, sheets, pictures, scripts).state;
            after == State {
                requests: after.requests,
                next_request: after.next_request,
                extras: after.extras,
                ..s
            }
        }),
{
    let wanted = sheets_wanted(sheets);
    asking_is_sound(s, seq![], wanted);
    let styled = asking_for(s, seq![], wanted);
    let sorting = pictures_sorted(
        styled.state.extras.images,
        at_most(pictures, IMAGE_LIMIT as int),
    );
    let looked = with_images(styled.state, sorting.images);
    asking_is_sound(looked, styled.outstanding, sorting.wanted);
    let pictured = asking_for(looked, styled.outstanding, sorting.wanted);
    let adopting = scripts_adopted(held, scripts);
    asking_is_sound(pictured.state, pictured.outstanding + adopting.held, adopting.wanted);
}

/// An attachment is kept and not shown: the tab is on the page that names the downloads,
/// and nothing of the response becomes a document. It is written to disk unasked exactly
/// where the preferences say to and there is a folder for it.
pub proof fn an_attachment_is_kept_and_not_shown(s: State, index: int, attachment: Attachment)
    requires
        s.wf(),
        0 <= index < s.tabs.len(),
    ensures
        ({
            let after = attachment_received(s, index, attachment);
            &&& after.tabs[index].system == Some(SystemPage::Downloads)
            &&& after.tabs[index].page is None
            &&& after.tabs[index].pending is None
            &&& after.requests == s.requests
        }),
        attachment_saved(s, attachment) != s <==> (attachment.recorded is Some
            && !s.settings.ask_where_to_save && s.settings.download_directory is Some),
{
    let tab = s.tabs[index];
    let saving = attachment_saved(s, attachment);
    assert(saving.told.len() >= s.told.len());
    let there = saving.with_tab_at(index, on_system_page(tab, SystemPage::Downloads));
    let noted = if load_records(tab) {
        history_recorded(there, index, load_left(tab))
    } else {
        there
    };
    changing_a_tab_is_sound(saving, index, on_system_page(tab, SystemPage::Downloads));
    recording_is_sound(there, index, load_left(tab));
    showing_an_address_changes_no_tab(noted);
    activating_changes_no_tab(address_synced(noted), Surface::System);
}

/// A navigation that failed waits for nothing and says what went wrong, and leaves where
/// the tab has been alone.
pub proof fn a_failed_navigation_says_so(s: State, index: int, error: String)
    requires
        0 <= index < s.tabs.len(),
    ensures
        ({
            let after = document_received(s, index, Err(error)).tabs[index];
            &&& after.error == Some(error@)
            &&& after.page is None
            &&& after.pending is None
            &&& after.history == s.tabs[index].history
            &&& after.url == s.tabs[index].url
        }),
{
}

/// A form that only closes its dialogue sends nothing; one that posts sends its body with
/// the one request it makes.
pub proof fn a_form_is_sent_as_it_says(s: State, form: Submission)
    requires
        s.wf(),
    ensures
        form.method == Method::Dialog ==> submitted(s, form) == s,
        form.method == Method::Post && !form.target.refused && page_at(form.target.url@) is None
            ==> submitted(s, form).requests == s.requests.push(
            document_request(s, form.target.url@, Some(form.body)),
        ),
        form.method == Method::Get && !form.target.refused && page_at(form.target.url@) is None
            ==> submitted(s, form).requests == s.requests.push(
            document_request(s, form.target.url@, None),
        ),
{
    noting_the_scroll_is_sound(s);
    let noted = scroll_remembered(s);
    if !form.target.refused && page_at(form.target.url@) is None {
        a_navigation_asks_once(
            noted,
            form.target.url@,
            form.target.site.deep_view(),
            form.target.refused,
            false,
            true,
            0,
            Some(form.body),
        );
        a_navigation_asks_once(
            noted,
            form.target.url@,
            form.target.site.deep_view(),
            form.target.refused,
            false,
            true,
            0,
            None,
        );
    }
}

/// A load never stops for ever: it waits for something, or its parse has a step to take,
/// or it is over.
pub proof fn a_load_never_stops_for_ever(tab: TabView)
    requires
        tab.pending is Some,
    ensures
        tab.pending->0.outstanding.len() > 0 || !(parse_step(tab) is Rest) || is_settled(tab),
{
}

/// A script that failed to come does not stop the page: the parse that waited for it is to
/// go on without it.
pub proof fn a_script_that_failed_is_skipped(
    s: State,
    index: int,
    id: u64,
    url: Seq<char>,
    error: String,
    at: int,
)
    requires
        0 <= index < s.tabs.len(),
        s.tabs[index].pending is Some,
        ({
            let load = s.tabs[index].pending->0;
            &&& 0 <= at < load.outstanding.len()
            &&& load.outstanding[at].id == id
            &&& load.parse is Some
            &&& load.outstanding[at].resource == PendingResource::Script(load.parse->0)
            &&& !load.scripts.contains_key(load.parse->0)
            &&& forall|k: int|
                0 <= k < load.outstanding.len() && (#[trigger] load.outstanding[k]).resource
                    == PendingResource::Script(load.parse->0) ==> load.outstanding[k].id == id
        }),
    ensures
        ({
            let node = s.tabs[index].pending->0.parse->0;
            let receipt = resource_received(s, index, id, url, Err(error));
            &&& receipt.resume == Some(index)
            &&& receipt.state.tabs[index].pending is Some
            &&& parse_step(receipt.state.tabs[index]) == (ParseStep::Skip { node })
        }),
{
    let load = s.tabs[index].pending->0;
    let node = load.parse->0;
    what_was_asked_for_is_fed(load.outstanding, id, at);
    nothing_is_left_under_a_request(load.outstanding, id);
    let left = without_request(load.outstanding, id);
    assert(!awaits_script(left, node)) by {
        if awaits_script(left, node) {
            let i = choose|i: int|
                0 <= i < left.len() && (#[trigger] left[i]).resource == PendingResource::Script(
                    node,
                );
            let k = choose|k: int|
                0 <= k < load.outstanding.len() && #[trigger] load.outstanding[k] == left[i];
            assert(load.outstanding[k].id == id);
        }
    }
}

proof fn what_was_asked_for_is_fed(outstanding: Seq<Outstanding>, id: u64, at: int)
    requires
        0 <= at < outstanding.len(),
        outstanding[at].id == id,
    ensures
        exists|i: int|
            0 <= i < fed_by(outstanding, id).len() && #[trigger] fed_by(outstanding, id)[i]
                == outstanding[at].resource,
    decreases outstanding.len(),
{
    let fewer = outstanding.drop_last();
    let fed = fed_by(outstanding, id);
    if at == outstanding.len() - 1 {
        assert(fed[fed.len() - 1] == outstanding[at].resource);
    } else {
        what_was_asked_for_is_fed(fewer, id, at);
        let i = choose|i: int|
            0 <= i < fed_by(fewer, id).len() && #[trigger] fed_by(fewer, id)[i]
                == fewer[at].resource;
        assert(fed[i] == outstanding[at].resource);
    }
}

proof fn nothing_is_left_under_a_request(outstanding: Seq<Outstanding>, id: u64)
    ensures
        forall|i: int|
            0 <= i < without_request(outstanding, id).len() ==> {
                let held = #[trigger] without_request(outstanding, id)[i];
                held.id != id && exists|k: int|
                    0 <= k < outstanding.len() && #[trigger] outstanding[k] == held
            },
    decreases outstanding.len(),
{
    if outstanding.len() > 0 {
        let fewer = outstanding.drop_last();
        nothing_is_left_under_a_request(fewer, id);
        let left = without_request(outstanding, id);
        assert forall|i: int| 0 <= i < left.len() implies {
            let held = #[trigger] left[i];
            held.id != id && exists|k: int|
                0 <= k < outstanding.len() && #[trigger] outstanding[k] == held
        } by {
            let before = without_request(fewer, id);
            if i < before.len() {
                assert(left[i] == before[i]);
                let k = choose|k: int| 0 <= k < fewer.len() && #[trigger] fewer[k] == before[i];
                assert(outstanding[k] == left[i]);
            } else {
                assert(outstanding[outstanding.len() - 1] == left[i]);
            }
        }
    }
}

/// Every stylesheet a finished document links, as far as the limit goes, has been seen to
/// where the parse was stopped or is asked for when it ends, before the page is built for
/// real: its request is on the wire, and the load waits for it.
pub proof fn every_sheet_of_a_document_is_asked_for(
    s: State,
    index: int,
    parsed: Parsed,
    k: int,
)
    requires
        0 <= index < s.tabs.len(),
        s.tabs[index].pending is Some,
        0 <= k < parsed.sheets@.len(),
        k < STYLESHEET_LIMIT,
        !s.tabs[index].pending->0.seen.contains(parsed.sheets@[k].node),
        allowed(parsed.sheets@[k].link) is Some,
    ensures
        ({
            let after = document_parsed(s, index, parsed);
            let tag = parsed.sheets@[k];
            &&& is_asked(
                after.requests,
                s.requests.len() as int,
                outstanding_of(after.tabs[index]),
                allowed(tag.link)->0,
                PendingResource::Stylesheet(tag.node),
            )
            &&& !is_settled(after.tabs[index])
        }),
{
    let load = s.tabs[index].pending->0;
    let here = s.with_tab_at(index, document_here(s.tabs[index]));
    let all = at_most(parsed.sheets@, STYLESHEET_LIMIT as int);
    let sheets = sheets_left(all, load.seen);
    let pictures = pictures_left(at_most(parsed.pictures@, IMAGE_LIMIT as int), load.seen);
    let scripts = scripts_left(scripts_deferred(parsed.deferred@), load.script_order);
    let tag = parsed.sheets@[k];
    assert(all[k] == tag);
    let m = a_sheet_not_seen_is_left(all, load.seen, k);
    let wanted = sheets_wanted(sheets);
    assert(wanted[m] == sheet_wanted(tag));
    asking_touches_no_tab(here, load.outstanding, sheets, pictures, scripts);
    what_may_be_reached_is_asked_for(here, seq![], wanted, m);
    let url = allowed(tag.link)->0;
    let n = s.requests.len() as int;
    let styled = asking_for(here, seq![], wanted);
    asking_is_sound(here, seq![], wanted);
    let (i, j) = choose|i: int, j: int|
        n <= i < styled.state.requests.len() && 0 <= j < styled.outstanding.len() && (
        #[trigger] styled.state.requests[i]).url == url && (
        #[trigger] styled.outstanding[j]).resource == PendingResource::Stylesheet(tag.node)
            && styled.outstanding[j].id == styled.state.requests[i].id;
    let sorting = pictures_sorted(
        styled.state.extras.images,
        at_most(pictures, IMAGE_LIMIT as int),
    );
    let looked = with_images(styled.state, sorting.images);
    asking_is_sound(looked, styled.outstanding, sorting.wanted);
    let pictured = asking_for(looked, styled.outstanding, sorting.wanted);
    let adopting = scripts_adopted(load.outstanding, scripts);
    let held = pictured.outstanding + adopting.held;
    asking_is_sound(pictured.state, held, adopting.wanted);
    let scripted = asking_for(pictured.state, held, adopting.wanted);
    assert(pictured.state.requests.take(styled.state.requests.len() as int)[i]
        == styled.state.requests[i]);
    assert(scripted.state.requests.take(pictured.state.requests.len() as int)[i]
        == pictured.state.requests[i]);
    assert(pictured.outstanding.take(styled.outstanding.len() as int)[j] == styled.outstanding[j]);
    assert(scripted.outstanding.take(held.len() as int)[j] == held[j]);
    let after = document_parsed(s, index, parsed);
    assert(after.requests == scripted.state.requests);
    assert(outstanding_of(after.tabs[index]) == scripted.outstanding);
    assert(after.requests[i].url == url);
    assert(scripted.outstanding[j].resource == PendingResource::Stylesheet(tag.node));
}

proof fn a_sheet_not_seen_is_left(tags: Seq<SheetTag>, seen: Seq<u64>, k: int) -> (at: int)
    requires
        0 <= k < tags.len(),
        !seen.contains(tags[k].node),
    ensures
        0 <= at < sheets_left(tags, seen).len(),
        sheets_left(tags, seen)[at] == tags[k],
        sheets_left(tags, seen).len() <= tags.len(),
    decreases tags.len(),
{
    let fewer = tags.drop_last();
    no_more_sheets_are_left(fewer, seen);
    if k == tags.len() - 1 {
        sheets_left(tags, seen).len() - 1
    } else {
        a_sheet_not_seen_is_left(fewer, seen, k)
    }
}

proof fn no_more_sheets_are_left(tags: Seq<SheetTag>, seen: Seq<u64>)
    ensures
        sheets_left(tags, seen).len() <= tags.len(),
    decreases tags.len(),
{
    if tags.len() > 0 {
        no_more_sheets_are_left(tags.drop_last(), seen);
    }
}

/// A background goes to the page it was asked for and to no other, however the tabs were
/// opened, closed and moved since; and to none where that tab is gone or shows no document.
pub proof fn a_background_goes_where_it_was_asked_for(
    s: State,
    url: Seq<char>,
    fetch: BackgroundFetch,
    picture: Picture,
    at: int,
)
    requires
        s.wf(),
        names_last(s),
        0 <= at < s.tabs.len(),
    ensures
        ({
            let after = background_received(s, url, fetch, Some(picture));
            &&& s.tabs[at].id == fetch.tab && s.tabs[at].page is Some ==> after.told
                == s.told.push(Command::SetPicture(s.tabs[at].id, fetch.url, picture))
            &&& s.tabs[at].id == fetch.tab && s.tabs[at].page is None ==> after.told == s.told
            &&& (forall|i: int| 0 <= i < s.tabs.len() ==> (#[trigger] s.tabs[i]).id != fetch.tab)
                ==> after.told == s.told
        }),
{
    a_tab_is_found_under_its_name(s, at);
    if named(s.tabs, fetch.tab) {
        assert(first_named(s.tabs, fetch.tab, place_named(s.tabs, fetch.tab)));
    }
}

/// A picture that an element chose again goes to the page it was asked for in the same way.
pub proof fn a_chosen_picture_goes_where_it_was_asked_for(
    s: State,
    url: Seq<char>,
    fetch: PictureFetch,
    picture: Picture,
    at: int,
)
    requires
        s.wf(),
        names_last(s),
        0 <= at < s.tabs.len(),
    ensures
        ({
            let after = picture_received(s, url, fetch, Some(picture));
            &&& s.tabs[at].id == fetch.tab && s.tabs[at].page is Some ==> after.told
                == s.told.push(
                Command::SetImage(s.tabs[at].id, fetch.node, fetch.src, picture, fetch.density),
            )
            &&& s.tabs[at].id == fetch.tab && s.tabs[at].page is None ==> after.told == s.told
            &&& (forall|i: int| 0 <= i < s.tabs.len() ==> (#[trigger] s.tabs[i]).id != fetch.tab)
                ==> after.told == s.told
        }),
{
    a_tab_is_found_under_its_name(s, at);
    if named(s.tabs, fetch.tab) {
        assert(first_named(s.tabs, fetch.tab, place_named(s.tabs, fetch.tab)));
    }
}

} // verus!
