//! Ways of setting out, told by what can be seen of them: along the history, again to the
//! same place, home, with a form, and to one of the browser's own pages; and giving up.

use vstd::prelude::*;

use crate::browser::{each_tab_is_sound, CacheMode, State, Surface, Target};
use crate::journeys::{
    asked_for_document, going_somewhere_waits_for_it, place_is_noted, readers_place,
    waits_for_document,
};
use crate::navigation::{
    everything_forgotten, gone_home, hops_forgotten, loaded_again, navigated, reloaded,
    reloaded_ignoring_cache, scroll_of, scroll_remembered, sent, setting_out, stopped, submitted,
    system_opened, system_opened_beside, travelled, with_cache_mode, Method, Submission,
};
use crate::promises::{
    a_navigation_asks_once, noting_the_scroll_is_sound, others_untouched, same_places,
    showing_a_system_page, travelling_keeps_the_history, what_a_page_may_not_reach_is_not_fetched,
};
use crate::strip::{a_new_tab_shows_nothing, activating_changes_no_tab, tab_opened};
use crate::surface::activated;
use crate::system::{
    an_address_is_not_empty, an_address_opens_its_page, page_at, SystemPage,
};
use crate::text::blank;

verus! {

/// Whether a tab has gone to the entry at `position` of the history it had: it is there, with
/// the same places before and after it, at that entry's address, and will show it where the
/// reader left it without noting that it came there.
#[verifier::opaque]
pub open spec fn is_on_entry(before: State, after: State, position: int) -> bool {
    let entry = before.tab().history[position];
    &&& after.wf()
    &&& after.tab().position == position
    &&& same_places(after.tab().history, before.tab().history)
    &&& after.visits == before.visits
    &&& others_untouched(before, after)
    &&& match page_at(entry.url) {
        None => {
            &&& asked_for_document(before, after, entry.url)
            &&& after.requests.last().body is None
            &&& after.tab().url == entry.url
            &&& after.tab().site == entry.site
            &&& after.tab().title == entry.url
            &&& after.tab().system is None
            &&& after.keyboard == Surface::Page
            &&& after.tab().pending is Some
            &&& after.tab().pending->0.document == before.next_request
            &&& after.tab().pending->0.restore_scroll == entry.scroll
            &&& !after.tab().pending->0.record
        },
        Some(page) => {
            &&& after.requests == before.requests
            &&& after.tab().url == page.address()
            &&& after.tab().system == Some(page)
            &&& after.tab().pending is None
            &&& after.settings.scroll == entry.scroll
        },
    }
}

/// Going along the history goes to the entry that many places on: with the same places round
/// it, at that entry's address, to where the reader left it. The entry that is left keeps the
/// reader's place. Past either end there is nowhere to go, and nothing changes.
pub proof fn going_along_the_history_is_on_that_entry(s: State, offset: int)
    requires
        s.wf(),
        offset != 0,
    ensures
        0 <= s.tab().position + offset < s.tab().history.len() ==> {
            &&& is_on_entry(s, travelled(s, offset), s.tab().position + offset)
            &&& travelled(s, offset).tab().history[s.tab().position].scroll == readers_place(s)
        },
        !(0 <= s.tab().position + offset < s.tab().history.len()) ==> travelled(s, offset) == s,
{
    reveal(is_on_entry);
    if 0 <= s.tab().position + offset < s.tab().history.len() {
        travelling_keeps_the_history(s, offset);
        let after = travelled(s, offset);
        if page_at(s.tab().history[s.tab().position + offset].url) is None {
            assert(after.requests.drop_last() =~= s.requests);
        }
    }
}

/// Whether a tab waits for the place it was at, to show it where the reader was and without an
/// entry of its own.
#[verifier::opaque]
pub open spec fn loads_again(before: State, after: State, cache: CacheMode) -> bool {
    &&& asked_for_document(before, after, before.tab().url)
    &&& after.requests.last().cache == cache
    &&& after.requests.last().body is None
    &&& waits_for_document(before, after, before.tab().url)
    &&& !after.tab().pending->0.record
    &&& after.tab().pending->0.restore_scroll == readers_place(before)
    &&& after.tab().site == before.tab().site
    &&& after.tab().history == before.tab().history
    &&& after.tab().position == before.tab().position
    &&& after.visits == before.visits
    &&& after.next_cache_mode == CacheMode::Default
    &&& others_untouched(before, after)
}

/// A reload asks again for where the tab is, and for whether what is kept of it still holds.
/// It comes back to where the reader was, and adds no entry. A tab that is nowhere is left as
/// it is.
pub proof fn a_reload_asks_again_for_where_it_is(s: State)
    requires
        s.wf(),
        page_at(s.tab().url) is None,
    ensures
        s.tab().url.len() > 0 ==> loads_again(s, reloaded(s, false), CacheMode::Revalidate),
        s.tab().url.len() > 0 ==> reloaded(s, false).extras == s.extras,
        s.tab().url.len() == 0 ==> reloaded(s, false) == s,
{
    reveal(loads_again);
    if s.tab().url.len() > 0 {
        let told = with_cache_mode(s, CacheMode::Revalidate);
        assert(told.wf() && told.tab() == s.tab());
        loading_again(told);
        activating_changes_no_tab(setting_out(told), Surface::Page);
    }
}

/// A reload that ignores the cache asks again for where the tab is, from the server alone:
/// nothing that was fetched or decoded before is kept.
pub proof fn a_reload_ignoring_the_cache_asks_the_server_alone(s: State)
    requires
        s.wf(),
        page_at(s.tab().url) is None,
        s.tab().url.len() > 0,
    ensures
        loads_again(s, reloaded_ignoring_cache(s, false), CacheMode::Bypass),
        reloaded_ignoring_cache(s, false).extras.images.len() == 0,
{
    reveal(loads_again);
    let told = with_cache_mode(everything_forgotten(s), CacheMode::Bypass);
    assert(told.wf() && told.tab() == s.tab());
    loading_again(told);
    activating_changes_no_tab(setting_out(told), Surface::Page);
}

proof fn loading_again(s: State)
    requires
        s.wf(),
        page_at(s.tab().url) is None,
        s.tab().url.len() > 0,
    ensures
        ({
            let after = loaded_again(s, false);
            &&& loads_again(s, after, s.next_cache_mode)
            &&& after.extras == s.extras
        }),
{
    reveal(loads_again);
    let place = scroll_of(s.tab(), s.settings);
    a_navigation_asks_once(s, s.tab().url, s.tab().site, false, false, false, place, None);
    let after = loaded_again(s, false);
    assert(after.requests.drop_last() =~= s.requests);
}

/// Giving up a load waits for nothing, and leaves the tab where it is with what it shows, and
/// what is on the wire there.
pub proof fn giving_up_waits_for_nothing(s: State)
    requires
        s.wf(),
    ensures
        ({
            let after = stopped(s);
            let tab = after.tab();
            &&& tab.pending is None
            &&& tab.id == s.tab().id
            &&& tab.url == s.tab().url && tab.site == s.tab().site && tab.title == s.tab().title
            &&& tab.page == s.tab().page && tab.error == s.tab().error && tab.system
                == s.tab().system
            &&& tab.history == s.tab().history && tab.position == s.tab().position
            &&& after.requests == s.requests
            &&& after.told == s.told
            &&& after.chrome == s.chrome
            &&& others_untouched(s, after)
        }),
{
}

/// Home is where the preferences say it is: the reader goes there as to any address they
/// typed, or nowhere where the preferences name none.
pub proof fn home_is_where_the_preferences_say(s: State, site: Option<String>)
    requires
        s.wf(),
    ensures
        blank(s.settings.home@) ==> gone_home(s, site) == s,
        !blank(s.settings.home@) && page_at(s.settings.home@) is None ==> {
            let after = gone_home(s, site);
            &&& asked_for_document(s, after, s.settings.home@)
            &&& waits_for_document(s, after, s.settings.home@)
            &&& after.tab().pending->0.record
            &&& after.tab().site == site.deep_view()
            &&& after.script_hops == 0
            &&& others_untouched(s, after)
        },
{
    if !blank(s.settings.home@) && page_at(s.settings.home@) is None {
        let home = Target { url: s.settings.home, site, refused: false };
        going_somewhere_waits_for_it(s, home, true);
        the_site_is_the_targets(s, home, true);
    }
}

/// A tab that waits for an address is on that address's site.
pub proof fn the_site_is_the_targets(s: State, target: Target, user_initiated: bool)
    requires
        s.wf(),
        page_at(target.url@) is None,
        user_initiated || !target.refused,
    ensures
        navigated(s, target, user_initiated).tab().site == target.site.deep_view(),
{
    let fresh = if user_initiated {
        hops_forgotten(s)
    } else {
        s
    };
    noting_the_scroll_is_sound(fresh);
    a_navigation_asks_once(
        scroll_remembered(fresh),
        target.url@,
        target.site.deep_view(),
        target.refused,
        user_initiated,
        true,
        0,
        None,
    );
}

/// A form that gets goes to its address with nothing to send, and one that posts sends its
/// body there with the one request it makes. Either earns an entry, and neither may go where
/// its page may not.
pub proof fn a_form_goes_where_it_points(s: State, form: Submission)
    requires
        s.wf(),
        form.method != Method::Dialog,
        !form.target.refused,
        page_at(form.target.url@) is None,
    ensures
        ({
            let after = submitted(s, form);
            &&& asked_for_document(s, after, form.target.url@)
            &&& form.method == Method::Post ==> after.requests.last().body == Some(form.body)
            &&& form.method == Method::Get ==> after.requests.last().body is None
            &&& waits_for_document(s, after, form.target.url@)
            &&& after.tab().pending->0.record
            &&& after.tab().pending->0.restore_scroll == 0
            &&& after.tab().pending->0.previous_url == s.tab().url
            &&& place_is_noted(s, after.tab())
            &&& after.tab().position == s.tab().position
            &&& after.script_hops == s.script_hops
            &&& others_untouched(s, after)
        }),
{
    if form.method == Method::Get {
        going_somewhere_waits_for_it(s, form.target, false);
    } else {
        noting_the_scroll_is_sound(s);
        each_tab_is_sound(s);
        a_navigation_asks_once(
            scroll_remembered(s),
            form.target.url@,
            form.target.site.deep_view(),
            form.target.refused,
            false,
            true,
            0,
            Some(form.body),
        );
        assert(submitted(s, form).requests.drop_last() =~= s.requests);
    }
}

/// Whether the tab that is read shows one of the browser's own pages, as a place it has come
/// to: it is the last entry of its history, and the last place that was visited.
#[verifier::opaque]
pub open spec fn has_come_to_page(after: State, page: SystemPage) -> bool {
    let tab = after.tab();
    &&& tab.system == Some(page)
    &&& tab.url == page.address()
    &&& tab.title == page.name()
    &&& tab.page is None && tab.error is None && tab.pending is None
    &&& tab.history.len() > 0
    &&& tab.position == tab.history.len() - 1
    &&& tab.history.last().url == page.address()
    &&& after.visits.len() > 0
    &&& after.visits.last().url == page.address()
    &&& after.visits.last().title == page.name()
    &&& after.chrome.address == page.address()
    &&& after.keyboard == Surface::System
}

/// One of the browser's own pages opens beside what is being read: in a tab of its own at the
/// end of the strip, with every other tab as it was, unless the tab being read shows nothing;
/// then in that one. Nothing is fetched for it.
pub proof fn a_page_of_its_own_opens_beside_what_is_read(s: State, page: SystemPage)
    requires
        s.wf(),
    ensures
        ({
            let after = system_opened_beside(s, page);
            let nothing = s.tab().url.len() == 0 && s.tab().page is None && s.tab().system is None;
            &&& after.wf()
            &&& has_come_to_page(after, page)
            &&& after.requests == s.requests
            &&& nothing ==> others_untouched(s, after)
            &&& !nothing ==> {
                &&& after.tabs.len() == s.tabs.len() + 1
                &&& after.active == s.tabs.len()
                &&& after.tabs.drop_last() == s.tabs
            }
        }),
{
    reveal(has_come_to_page);
    let nothing = s.tab().url.len() == 0 && s.tab().page is None && s.tab().system is None;
    each_tab_is_sound(s);
    if nothing {
        opening_a_page_of_its_own(s, page);
    } else {
        a_new_tab_shows_nothing(s);
        let opened = tab_opened(s);
        each_tab_is_sound(opened);
        opening_a_page_of_its_own(opened, page);
        let after = system_opened_beside(s, page);
        assert(after.tabs.drop_last() =~= s.tabs) by {
            assert forall|i: int| 0 <= i < s.tabs.len() implies after.tabs[i] == s.tabs[i] by {
                assert(opened.tabs[i] == s.tabs[i]);
            }
        }
    }
}

proof fn opening_a_page_of_its_own(s: State, page: SystemPage)
    requires
        s.wf(),
        s.tab().url.len() == 0,
    ensures
        ({
            let after = system_opened(s, page);
            &&& after.wf()
            &&& has_come_to_page(after, page)
            &&& after.requests == s.requests
            &&& others_untouched(s, after)
        }),
{
    reveal(sent);
    reveal(has_come_to_page);
    an_address_opens_its_page(page);
    activating_changes_no_tab(s, Surface::System);
    let ready = hops_forgotten(activated(s, Surface::System));
    noting_the_scroll_is_sound(ready);
    let noted = scroll_remembered(ready);
    showing_a_system_page(setting_out(noted), page, true, 0);
    each_tab_is_sound(noted);
    an_address_is_not_empty(page);
}

/// A page that may not reach an address says which it was and where it was refused, and goes
/// nowhere; the entry it is on stays the one it is on.
pub proof fn a_refusal_says_what_was_refused(s: State, target: Target)
    requires
        s.wf(),
        page_at(target.url@) is None,
        target.refused,
    ensures
        ({
            let after = navigated(s, target, false);
            &&& after.tab().error == Some(
                "Refused to open "@ + target.url@ + " from "@ + s.tab().url,
            )
            &&& after.tab().url == s.tab().url
            &&& after.tab().page is None
            &&& after.tab().pending is None
            &&& after.requests == s.requests
        }),
{
    what_a_page_may_not_reach_is_not_fetched(s, target);
}

/// An address of one of the browser's own pages shows that page in the tab being read, at
/// once and whoever goes there, from the top. It is an entry of its own where it moved the
/// tab, with a visit.
pub proof fn an_address_of_its_own_shows_the_page(
    s: State,
    target: Target,
    user_initiated: bool,
    page: SystemPage,
)
    requires
        s.wf(),
        page_at(target.url@) == Some(page),
    ensures
        ({
            let after = navigated(s, target, user_initiated);
            let tab = after.tab();
            let earned = page.address() != s.tab().url || s.tab().history.len() == 0;
            let kept = if s.tab().history.len() == 0 {
                0
            } else {
                s.tab().position + 1
            };
            &&& after.wf()
            &&& after.requests == s.requests
            &&& tab.system == Some(page)
            &&& tab.url == page.address()
            &&& tab.title == page.name()
            &&& tab.page is None && tab.error is None && tab.pending is None
            &&& after.settings.scroll == 0
            &&& after.keyboard == Surface::System
            &&& after.chrome.address == page.address()
            &&& earned ==> tab.history.len() == kept + 1 && tab.history[kept].url == page.address()
                && tab.position == kept && after.visits.len() == s.visits.len() + 1
                && after.visits.last().url == page.address()
            &&& !earned ==> same_places(tab.history, s.tab().history) && tab.position
                == s.tab().position && after.visits == s.visits
            &&& others_untouched(s, after)
        }),
{
    reveal(sent);
    let fresh = if user_initiated {
        hops_forgotten(s)
    } else {
        s
    };
    noting_the_scroll_is_sound(fresh);
    let noted = scroll_remembered(fresh);
    showing_a_system_page(setting_out(noted), page, true, 0);
    each_tab_is_sound(noted);
}

} // verus!
