//! What a journey comes to, told by what can be seen of it: the address a tab is at, the
//! entries of its history and the one it is on, what is on the wire, and what will be noted
//! when the answer comes.

use vstd::prelude::*;

use crate::arriving::{script_navigated, ScriptNavigation};
use crate::browser::{
    changing_a_tab_is_sound, each_tab_is_sound, CacheMode, Command, PlaceView, ResourceKind, State,
    Surface, Target,
};
use crate::building::{
    build_completed, document_built, document_here, elements_seen, gathered, images_with, nodes_of,
    outstanding_of, page_shown, scripts_deferred, scripts_in_order, showing, stop_of, Parsed, Ready,
};
use crate::navigation::{navigated, scroll_remembered, sent_to, submitted, Submission};
use crate::promises::{
    a_navigation_asks_once, asking_touches_no_tab, noting_the_scroll_is_sound, others_untouched,
};
use crate::strip::showing_an_address_changes_no_tab;
use crate::system::{page_at, SystemPage};
use crate::tab::{following, Outstanding, TabView};

verus! {

/// Whether exactly one thing more is on the wire: the document at `url`, under the number
/// that was next.
pub open spec fn asked_for_document(before: State, after: State, url: Seq<char>) -> bool {
    &&& after.requests.len() == before.requests.len() + 1
    &&& after.requests.drop_last() == before.requests
    &&& after.requests.last().id == before.next_request
    &&& after.requests.last().url == url
    &&& after.requests.last().kind == ResourceKind::Document
}

/// Whether the tab that is read waits for the document that was just asked for, and for
/// nothing that is on it yet.
pub open spec fn waits_for_document(before: State, after: State, url: Seq<char>) -> bool {
    &&& after.tab().url == url
    &&& after.tab().title == url
    &&& after.tab().system is None
    &&& after.tab().error is None
    &&& after.tab().pending is Some
    &&& after.tab().pending->0.document == before.next_request
    &&& !after.tab().pending->0.document_arrived
    &&& after.tab().pending->0.outstanding.len() == 0
    &&& after.tab().pending->0.parse is None
    &&& after.tab().navigation == Some(before.next_navigation)
    &&& after.next_navigation == following(before.next_navigation)
    &&& after.chrome.address == url
    &&& after.chrome.menu is None
    &&& after.context is None
    &&& after.keyboard == Surface::Page
}

/// How far down the reader is: in the preferences, in the document, or nowhere.
pub open spec fn readers_place(s: State) -> u32 {
    if s.tab().system == Some(SystemPage::Settings) {
        s.settings.scroll
    } else if s.tab().system is None && s.tab().page is Some {
        s.tab().page->0.scroll
    } else {
        0
    }
}

/// Whether the entry that is left holds how far down the reader was, and every other entry is
/// what it was.
pub open spec fn place_is_noted(before: State, after: TabView) -> bool {
    let history = before.tab().history;
    &&& after.history.len() == history.len()
    &&& forall|i: int|
        0 <= i < history.len() && i != before.tab().position ==> #[trigger] after.history[i]
            == history[i]
    &&& history.len() > 0 ==> {
        let left = after.history[before.tab().position];
        &&& left.url == history[before.tab().position].url
        &&& left.site == history[before.tab().position].site
        &&& left.scroll == readers_place(before)
    }
}

/// Going to an address asks for the document there and waits for it, from the top and with an
/// entry to come. The entry that is left keeps the reader's place, and no entry is added or
/// dropped before the document comes. Whoever is free to go anywhere starts the count of what
/// scripts navigate again.
pub proof fn going_somewhere_waits_for_it(s: State, target: Target, user_initiated: bool)
    requires
        s.wf(),
        page_at(target.url@) is None,
        user_initiated || !target.refused,
    ensures
        ({
            let after = navigated(s, target, user_initiated);
            &&& after.wf()
            &&& asked_for_document(s, after, target.url@)
            &&& after.requests.last().cache == s.next_cache_mode
            &&& after.requests.last().body is None
            &&& after.next_cache_mode == CacheMode::Default
            &&& waits_for_document(s, after, target.url@)
            &&& after.tab().pending->0.record
            &&& after.tab().pending->0.restore_scroll == 0
            &&& after.tab().pending->0.previous_url == s.tab().url
            &&& place_is_noted(s, after.tab())
            &&& after.tab().position == s.tab().position
            &&& after.visits == s.visits
            &&& after.tab().site == target.site.deep_view()
            &&& user_initiated ==> after.script_hops == 0
            &&& !user_initiated ==> after.script_hops == s.script_hops
            &&& others_untouched(s, after)
        }),
{
    let fresh = if user_initiated {
        State { script_hops: 0, ..s }
    } else {
        s
    };
    going_on_from_here(fresh, target, user_initiated, true);
    assert(fresh.tab() == s.tab());
}

/// What sending a tab to an address comes to, once the reader's place has been noted.
proof fn going_on_from_here(s: State, target: Target, user_initiated: bool, record: bool)
    requires
        s.wf(),
        page_at(target.url@) is None,
        user_initiated || !target.refused,
    ensures
        ({
            let after = sent_to(
                scroll_remembered(s),
                target,
                user_initiated,
                record,
                0,
                None,
            );
            &&& after.wf()
            &&& asked_for_document(s, after, target.url@)
            &&& after.requests.last().cache == s.next_cache_mode
            &&& after.requests.last().body is None
            &&& after.next_cache_mode == CacheMode::Default
            &&& waits_for_document(s, after, target.url@)
            &&& after.tab().pending->0.record == record
            &&& after.tab().pending->0.restore_scroll == 0
            &&& after.tab().pending->0.previous_url == s.tab().url
            &&& place_is_noted(s, after.tab())
            &&& after.tab().position == s.tab().position
            &&& after.tab().site == target.site.deep_view()
            &&& after.visits == s.visits
            &&& after.script_hops == s.script_hops
            &&& others_untouched(s, after)
        }),
{
    noting_the_scroll_is_sound(s);
    let noted = scroll_remembered(s);
    a_navigation_asks_once(
        noted,
        target.url@,
        target.site.deep_view(),
        target.refused,
        user_initiated,
        record,
        0,
        None,
    );
    let after = sent_to(noted, target, user_initiated, record, 0, None);
    assert(after.requests.drop_last() =~= s.requests);
    each_tab_is_sound(s);
}

/// A script that sends its tab to an address earns it an entry, which is noted when the
/// document comes, unless it asked to take the place of the one it is on: then none will be.
/// Either way the document is asked for, the entry that is left keeps the reader's place, and
/// one navigation more is counted.
pub proof fn a_script_earns_an_entry_unless_it_replaces(s: State, target: Target, replace: bool)
    requires
        s.wf(),
        s.script_hops < 8,
        !target.refused,
        page_at(target.url@) is None,
    ensures
        ({
            let after = script_navigated(
                s,
                s.active,
                ScriptNavigation::Url { target, replace },
            );
            &&& after.wf()
            &&& asked_for_document(s, after, target.url@)
            &&& after.requests.last().body is None
            &&& waits_for_document(s, after, target.url@)
            &&& after.tab().pending->0.record == !replace
            &&& after.tab().pending->0.restore_scroll == 0
            &&& after.tab().pending->0.previous_url == s.tab().url
            &&& place_is_noted(s, after.tab())
            &&& after.tab().position == s.tab().position
            &&& after.tab().site == target.site.deep_view()
            &&& after.visits == s.visits
            &&& after.script_hops == s.script_hops + 1
            &&& others_untouched(s, after)
        }),
{
    let counted = State { script_hops: (s.script_hops + 1) as u8, ..s };
    going_on_from_here(counted, target, false, !replace);
    assert(counted.tab() == s.tab());
}

/// A form that a script sends is sent as any other is, and counts as one navigation; one that
/// could not be sent is counted and is nothing else.
pub proof fn a_script_sends_a_form_as_a_reader_does(s: State, form: Submission)
    requires
        s.script_hops < 8,
    ensures
        script_navigated(s, s.active, ScriptNavigation::Submit(None)) == (State {
            script_hops: (s.script_hops + 1) as u8,
            ..s
        }),
        script_navigated(s, s.active, ScriptNavigation::Submit(Some(form))) == submitted(
            State { script_hops: (s.script_hops + 1) as u8, ..s },
            form,
        ),
{
}

/// A script that sends its tab where it is again earns no entry. It counts as one navigation.
pub proof fn a_script_that_reloads_earns_no_entry(s: State, target: Target)
    requires
        s.wf(),
        s.script_hops < 8,
        !target.refused,
        page_at(target.url@) is None,
    ensures
        ({
            let after = script_navigated(s, s.active, ScriptNavigation::Reload(target));
            &&& after.wf()
            &&& asked_for_document(s, after, target.url@)
            &&& waits_for_document(s, after, target.url@)
            &&& !after.tab().pending->0.record
            &&& after.tab().pending->0.restore_scroll == 0
            &&& after.tab().history == s.tab().history
            &&& after.tab().position == s.tab().position
            &&& after.script_hops == s.script_hops + 1
            &&& others_untouched(s, after)
        }),
{
    let counted = State { script_hops: (s.script_hops + 1) as u8, ..s };
    assert(counted.tab() == s.tab());
    a_navigation_asks_once(
        counted,
        target.url@,
        target.site.deep_view(),
        target.refused,
        false,
        false,
        0,
        None,
    );
    let after = script_navigated(s, s.active, ScriptNavigation::Reload(target));
    assert(after.requests.drop_last() =~= s.requests);
}

/// A script in a tab that is not read goes nowhere, nor does one that has gone eight times
/// since the reader last chose to go somewhere.
pub proof fn a_script_goes_so_often_and_no_oftener(s: State, index: int, wish: ScriptNavigation)
    requires
        index != s.active || s.script_hops >= 8,
    ensures
        script_navigated(s, index, wish) == s,
{
}

/// A document that comes is shown in its tab, at the address it came from in the end and under
/// its own title, or its address where it has none. Where its load is to be recorded, and it
/// moved the tab or is the first, it becomes the last entry of the tab's history, after the
/// one the tab was on and with nothing ahead, and a visit; otherwise the history and the
/// visits are what they were. Nothing of any other tab changes.
pub proof fn a_document_that_comes_earns_its_entry(
    s: State,
    index: int,
    url: Seq<char>,
    site: Option<Seq<char>>,
    parsed: Parsed,
)
    requires
        s.wf(),
        0 <= index < s.tabs.len(),
        s.tabs[index].pending is Some,
    ensures
        ({
            let tab = s.tabs[index];
            let load = tab.pending->0;
            let after = document_built(s, index, url, site, parsed);
            let now = after.tabs[index];
            let title = match parsed.title {
                Some(title) => title@,
                None => url,
            };
            let earned = load.record && (url != load.previous_url || tab.history.len() == 0);
            let kept = if tab.history.len() == 0 {
                0
            } else {
                tab.position + 1
            };
            &&& now.id == tab.id
            &&& now.url == url
            &&& now.site == site
            &&& now.title == title
            &&& now.page is Some
            &&& now.page->0.search is None
            &&& now.pending is Some ==> {
                &&& now.page->0.scroll == 0
                &&& now.pending->0.document == load.document
                &&& now.pending->0.document_arrived
                &&& now.pending->0.restore_scroll == load.restore_scroll
                &&& now.pending->0.runner == parsed.runner
                &&& now.pending->0.script_order.len() == scripts_deferred(parsed.deferred@).len()
                &&& forall|i: int|
                    0 <= i < now.pending->0.script_order.len()
                        ==> #[trigger] now.pending->0.script_order[i] == scripts_deferred(
                        parsed.deferred@,
                    )[i].node
                &&& now.pending->0.parse == match parsed.stopped_at {
                    Some(tag) => Some(tag.node),
                    None => None,
                }
            }
            &&& now.pending is None ==> {
                &&& now.page->0.scroll == load.restore_scroll
                &&& now.scripts == parsed.runner
                &&& parsed.stopped_at is None
            }
            &&& earned ==> {
                &&& now.history.len() == kept + 1
                &&& forall|i: int| 0 <= i < kept ==> #[trigger] now.history[i] == tab.history[i]
                &&& now.history[kept].url == url
                &&& now.history[kept].site == site
                &&& now.history[kept].scroll == 0
                &&& now.position == kept
                &&& after.visits == s.visits.push(PlaceView { url, title })
            }
            &&& !earned ==> {
                &&& now.history == tab.history
                &&& now.position == tab.position
                &&& after.visits == s.visits
            }
            &&& after.active == s.active
            &&& after.tabs.len() == s.tabs.len()
            &&& forall|i: int|
                0 <= i < s.tabs.len() && i != index ==> after.tabs[i] == #[trigger] s.tabs[i]
            &&& index == s.active ==> after.chrome.address == url
            &&& index != s.active ==> after.chrome == s.chrome
        }),
{
    let deferred = scripts_deferred(parsed.deferred@);
    let scripts = scripts_in_order(parsed.stopped_at, deferred);
    let here = s.with_tab_at(index, document_here(s.tabs[index]));
    let held = outstanding_of(s.tabs[index]);
    let got = gathered(here, held, parsed.sheets@, parsed.pictures@, scripts);
    let shown = page_shown(got.state, index, url, site, parsed.title.deep_view());
    a_document_is_put_in_its_tab(s, index, url, site, parsed);
    each_tab_is_sound(s);
    a_build_is_noted(
        shown,
        index,
        got.outstanding,
        got.ready,
        nodes_of(deferred),
        parsed.runner,
        stop_of(parsed.stopped_at),
        elements_seen(parsed.sheets@, parsed.pictures@),
    );
}

/// A document that comes is put in its tab before anything it asked for has come.
pub proof fn a_document_is_put_in_its_tab(
    s: State,
    index: int,
    url: Seq<char>,
    site: Option<Seq<char>>,
    parsed: Parsed,
)
    requires
        s.wf(),
        0 <= index < s.tabs.len(),
    ensures
        ({
            let here = s.with_tab_at(index, document_here(s.tabs[index]));
            let scripts = scripts_in_order(parsed.stopped_at, scripts_deferred(parsed.deferred@));
            let got = gathered(
                here,
                outstanding_of(s.tabs[index]),
                parsed.sheets@,
                parsed.pictures@,
                scripts,
            );
            let shown = page_shown(got.state, index, url, site, parsed.title.deep_view());
            &&& shown.tabs[index] == showing(
                document_here(s.tabs[index]),
                url,
                site,
                parsed.title.deep_view(),
            )
            &&& shown.visits == s.visits
            &&& shown.active == s.active
            &&& shown.tabs.len() == s.tabs.len()
            &&& forall|i: int|
                0 <= i < s.tabs.len() && i != index ==> shown.tabs[i] == #[trigger] s.tabs[i]
            &&& index == s.active ==> shown.chrome.address == url
            &&& index != s.active ==> shown.chrome == s.chrome
            &&& shown.requests == got.state.requests
        }),
{
    let here = s.with_tab_at(index, document_here(s.tabs[index]));
    changing_a_tab_is_sound(s, index, document_here(s.tabs[index]));
    let scripts = scripts_in_order(parsed.stopped_at, scripts_deferred(parsed.deferred@));
    let held = outstanding_of(s.tabs[index]);
    let got = gathered(here, held, parsed.sheets@, parsed.pictures@, scripts);
    asking_touches_no_tab(here, held, parsed.sheets@, parsed.pictures@, scripts);
    let tab = showing(got.state.tabs[index], url, site, parsed.title.deep_view());
    let there = got.state.with_tab_at(index, tab).telling_if(
        !got.state.interface,
        Command::HideScrollbars(got.state.tabs[index].id),
    );
    changing_a_tab_is_sound(got.state, index, tab);
    assert(there.tabs[index] == tab);
    showing_an_address_changes_no_tab(there);
    let shown = page_shown(got.state, index, url, site, parsed.title.deep_view());
    assert(shown.tabs[index] == tab);
    assert forall|i: int| 0 <= i < s.tabs.len() && i != index implies shown.tabs[i]
        == #[trigger] s.tabs[i] by {
        assert(there.tabs[i] == s.tabs[i]);
    }
}

/// A load waits for what its document asked for, with the entry it earned noted, and is over at
/// once where that is nothing.
pub proof fn a_build_is_noted(
    s: State,
    index: int,
    outstanding: Seq<Outstanding>,
    ready: Seq<Ready>,
    script_order: Seq<u64>,
    runner: bool,
    parse: Option<u64>,
    seen: Seq<u64>,
)
    requires
        0 <= index < s.tabs.len(),
        s.tabs[index].pending is Some,
        s.tabs[index].history.len() > 0 ==> 0 <= s.tabs[index].position
            < s.tabs[index].history.len(),
    ensures
        ({
            let tab = s.tabs[index];
            let load = tab.pending->0;
            let after = build_completed(
                s,
                index,
                outstanding,
                ready,
                script_order,
                runner,
                parse,
                seen,
            );
            let now = after.tabs[index];
            let earned = load.record && (tab.url != load.previous_url || tab.history.len() == 0);
            let kept = if tab.history.len() == 0 {
                0
            } else {
                tab.position + 1
            };
            &&& now.id == tab.id && now.url == tab.url && now.site == tab.site && now.title
                == tab.title
            &&& now.pending is None == (outstanding.len() == 0 && parse is None)
            &&& now.pending is Some ==> {
                &&& now.page == tab.page
                &&& now.pending->0.document == load.document
                &&& now.pending->0.document_arrived == load.document_arrived
                &&& now.pending->0.restore_scroll == load.restore_scroll
                &&& now.pending->0.outstanding == outstanding
                &&& now.pending->0.script_order == script_order
                &&& now.pending->0.images == images_with(load.images, ready)
                &&& now.pending->0.runner == runner
                &&& now.pending->0.parse == parse
            }
            &&& now.pending is None ==> {
                &&& now.page is Some == tab.page is Some
                &&& now.page is Some ==> now.page->0.scroll == load.restore_scroll
                    && now.page->0.search is None
                &&& now.scripts == runner
            }
            &&& earned ==> {
                &&& now.history.len() == kept + 1
                &&& forall|i: int| 0 <= i < kept ==> #[trigger] now.history[i] == tab.history[i]
                &&& now.history[kept].url == tab.url
                &&& now.history[kept].site == tab.site
                &&& now.history[kept].scroll == 0
                &&& now.position == kept
                &&& after.visits == s.visits.push(PlaceView { url: tab.url, title: tab.title })
            }
            &&& !earned ==> {
                &&& now.history == tab.history
                &&& now.position == tab.position
                &&& after.visits == s.visits
            }
            &&& after.active == s.active
            &&& after.tabs.len() == s.tabs.len()
            &&& after.chrome == s.chrome
            &&& after.requests == s.requests
            &&& forall|i: int|
                0 <= i < s.tabs.len() && i != index ==> after.tabs[i] == #[trigger] s.tabs[i]
        }),
{
}

/// Where a script goes becomes a place of its own when its document comes, after the one it
/// left, with nothing ahead; where it took the place of the one it was on, the history holds
/// the places it held and the tab is on the same one.
pub proof fn where_a_script_goes_is_a_place_unless_it_replaces(
    s: State,
    target: Target,
    replace: bool,
    url: Seq<char>,
    site: Option<Seq<char>>,
    parsed: Parsed,
)
    requires
        s.wf(),
        s.script_hops < 8,
        !target.refused,
        page_at(target.url@) is None,
        s.tab().history.len() > 0,
    ensures
        ({
            let going = script_navigated(s, s.active, ScriptNavigation::Url { target, replace });
            let after = document_built(going, s.active, url, site, parsed).tab();
            let earned = !replace && url != s.tab().url;
            &&& after.url == url
            &&& earned ==> {
                &&& after.position == s.tab().position + 1
                &&& after.history.len() == after.position + 1
                &&& after.history[after.position].url == url
                &&& after.history[s.tab().position].url == s.tab().history[s.tab().position].url
                &&& after.history[s.tab().position].scroll == readers_place(s)
            }
            &&& !earned ==> {
                &&& after.position == s.tab().position
                &&& after.history.len() == s.tab().history.len()
                &&& after.history[s.tab().position].url == s.tab().history[s.tab().position].url
            }
        }),
{
    a_script_earns_an_entry_unless_it_replaces(s, target, replace);
    each_tab_is_sound(s);
    let going = script_navigated(s, s.active, ScriptNavigation::Url { target, replace });
    a_document_that_comes_earns_its_entry(going, s.active, url, site, parsed);
}

} // verus!
