//! The tab strip: opening a tab, closing one, moving one, and which one is read.

use vstd::prelude::*;

use crate::address::{address_shown, address_synced, bookmark_of, origin_of, zoom_restored};
use crate::browser::{
    all_names, names_sound, saying, tabs_sound, Bookmarked, Browser, Command, State, Surface,
};
use crate::find::{bar_showing, find_updated, query_of, search_after, search_of, with_search};
use crate::promises::a_synced_address_is_sound;
use crate::surface::{activated, surface_of};
use crate::tab::{blank_tab, following, Tab, TabId, TabView};
use crate::zoom::{comes_back_at, OWN_SIZE};

verus! {

/// Whether a tab at `i` is the first one named `id`.
pub open spec fn first_named(tabs: Seq<TabView>, id: TabId, i: int) -> bool {
    &&& 0 <= i < tabs.len()
    &&& tabs[i].id == id
    &&& forall|j: int| 0 <= j < i ==> (#[trigger] tabs[j]).id != id
}

/// Whether a tab is named `id`.
pub open spec fn named(tabs: Seq<TabView>, id: TabId) -> bool {
    exists|i: int| first_named(tabs, id, i)
}

/// Where the tab named `id` is.
pub open spec fn place_named(tabs: Seq<TabView>, id: TabId) -> int {
    choose|i: int| first_named(tabs, id, i)
}

/// A browser with one more tab, at the end, that shows nothing.
pub open spec fn tab_added(s: State) -> State {
    State {
        tabs: s.tabs.push(blank_tab(TabId(s.next_tab))),
        next_tab: following(s.next_tab),
        names_end: s.names_end + 1,
        ..s
    }
}

/// A browser whose tab at `index` is the active one.
pub open spec fn turned_to(s: State, index: int) -> State {
    State { active: index, ..s }
}

/// A browser that shows a tab with nothing in it: its address field is empty, with the caret
/// put there and the keyboard with the chrome, and nothing of the tab before it is left on
/// the toolbar.
pub open spec fn ready_to_type(s: State) -> State {
    activated(address_synced(s).telling(Command::FocusAddress), Surface::Chrome)
}

/// A browser that has opened a tab and turned to it.
pub open spec fn tab_opened(s: State) -> State {
    ready_to_type(turned_to(tab_added(s), s.tabs.len() as int))
}

/// A browser that shows what its active tab is, and has given the keyboard to it.
pub open spec fn shown(s: State) -> State {
    activated(address_synced(s), surface_of(address_synced(s).tab()))
}

/// A browser whose only tab has been emptied.
pub open spec fn emptied(s: State) -> State {
    State {
        tabs: s.tabs.update(0, blank_tab(TabId(s.next_tab))),
        next_tab: following(s.next_tab),
        names_end: s.names_end + 1,
        ..s
    }
}

/// A browser without its tab at `index`.
pub open spec fn without_tab(s: State, index: int) -> State {
    State {
        tabs: s.tabs.remove(index),
        active: if s.active < s.tabs.len() - 1 {
            s.active
        } else {
            s.tabs.len() - 2
        },
        ..s
    }
}

/// A browser that was asked to close the tab at `index`.
pub open spec fn tab_closed(s: State, index: int) -> State {
    if index >= s.tabs.len() {
        s
    } else if s.tabs.len() == 1 {
        ready_to_type(emptied(s))
    } else {
        shown(without_tab(s, index))
    }
}

/// The tabs with the one at `from` taken out and put back at `to`.
pub open spec fn carried(tabs: Seq<TabView>, from: int, to: int) -> Seq<TabView> {
    tabs.remove(from).insert(to, tabs[from])
}

/// A browser that was asked to put the tab named `id` at `to`.
pub open spec fn tab_moved(s: State, id: TabId, to: int) -> State {
    let last = s.tabs.len() - 1;
    let goal = if to < last {
        to
    } else {
        last
    };
    if !named(s.tabs, id) || place_named(s.tabs, id) == goal {
        s
    } else {
        tab_carried(s, place_named(s.tabs, id), goal)
    }
}

/// A browser whose tab at `from` was carried to `to`, reading the tab it was reading.
pub open spec fn tab_carried(s: State, from: int, to: int) -> State {
    let tabs = carried(s.tabs, from, to);
    State { tabs, active: place_named(tabs, s.tab().id), ..s }
}

/// A browser that was asked to make the tab at `index` active.
pub open spec fn tab_selected(s: State, index: int) -> State {
    if index < s.tabs.len() {
        shown(turned_to(s, index))
    } else {
        s
    }
}

proof fn there_is_one_first(tabs: Seq<TabView>, id: TabId, i: int)
    requires
        first_named(tabs, id, i),
    ensures
        named(tabs, id),
        place_named(tabs, id) == i,
{
    let j = place_named(tabs, id);
    assert(first_named(tabs, id, j));
    if j < i {
        assert(tabs[j].id != id);
    }
    if i < j {
        assert(tabs[i].id != id);
    }
}

proof fn a_first_there_is(tabs: Seq<TabView>, id: TabId, i: int)
    requires
        0 <= i < tabs.len(),
        tabs[i].id == id,
    ensures
        named(tabs, id),
    decreases i,
{
    if exists|j: int| 0 <= j < i && (#[trigger] tabs[j]).id == id {
        let j = choose|j: int| 0 <= j < i && (#[trigger] tabs[j]).id == id;
        a_first_there_is(tabs, id, j);
    } else {
        assert(first_named(tabs, id, i));
    }
}

/// Where a tab named `id` is among `tabs`, if there is one.
fn find_named(tabs: &Vec<Tab>, id: TabId) -> (at: Option<usize>)
    ensures
        match at {
            Some(i) => first_named(tabs.deep_view(), id, i as int) && named(tabs.deep_view(), id)
                && place_named(tabs.deep_view(), id) == i,
            None => !named(tabs.deep_view(), id),
        },
{
    let ghost views = tabs.deep_view();
    let mut i: usize = 0;
    while i < tabs.len()
        invariant
            i <= tabs.len(),
            views == tabs.deep_view(),
            forall|j: int| 0 <= j < i ==> (#[trigger] views[j]).id != id,
        decreases tabs.len() - i,
    {
        if tabs[i].id == id {
            proof {
                assert(views[i as int].id == id);
                there_is_one_first(views, id, i as int);
            }
            return Some(i);
        }
        assert(views[i as int].id != id);
        i = i + 1;
    }
    None
}

/// Take the tab at `from` out and put it back at `to`.
fn carry(tabs: &mut Vec<Tab>, from: usize, to: usize)
    requires
        from < old(tabs).deep_view().len(),
        to < old(tabs).deep_view().len(),
    ensures
        final(tabs).deep_view() == carried(old(tabs).deep_view(), from as int, to as int),
{
    let ghost before = tabs.deep_view();
    let tab = tabs.remove(from);
    tabs.insert(to, tab);
    assert(tabs.deep_view() =~= carried(before, from as int, to as int));
}

impl Browser {
    /// Put a blank tab at the end.
    fn add_tab(&mut self)
        requires
            old(self).wf(),
        ensures
            final(self).wf(),
            final(self)@ == tab_added(old(self)@),
    {
        proof {
            reveal(Browser::state);
        }
        let ghost before = self@;
        let tab = Tab::blank(&mut self.next_tab);
        self.names = Ghost((self.names@.0, self.names@.1 + 1));
        self.tabs.push(tab);
        proof {
            assert(self@.tabs =~= before.tabs.push(blank_tab(TabId(before.next_tab))));
            adding_a_tab_is_sound(before);
        }
    }

    /// Make the tab at `index` the active one.
    fn turn_to(&mut self, index: usize)
        requires
            old(self).wf(),
            index < old(self)@.tabs.len(),
        ensures
            final(self).wf(),
            final(self)@ == turned_to(old(self)@, index as int),
    {
        proof {
            reveal(Browser::state);
        }
        self.active = index;
    }

    /// How many tabs there are.
    pub fn tab_count(&self) -> (count: usize)
        requires
            self.wf(),
        ensures
            count == self@.tabs.len(),
            count > 0,
    {
        proof {
            reveal(Browser::state);
        }
        self.tabs.len()
    }

    /// Show a tab with nothing in it, put the caret in the address field, and give the
    /// chrome the keyboard.
    ///
    /// The address, the star, the zoom and the find bar are drawn from one fact, so all of
    /// them follow: one left behind would describe the page before this one.
    pub(crate) fn make_ready_to_type(&mut self)
        requires
            old(self).wf(),
        ensures
            final(self).wf(),
            final(self)@ == ready_to_type(old(self)@),
    {
        self.sync_address();
        self.tell(Command::FocusAddress);
        self.activate_surface(Surface::Chrome);
    }

    /// Open a tab and make it active.
    pub fn new_tab(&mut self)
        requires
            old(self).wf(),
        ensures
            final(self).wf(),
            final(self)@ == tab_opened(old(self)@),
    {
        let last: usize = self.tab_count();
        self.add_tab();
        self.turn_to(last);
        self.make_ready_to_type();
    }

    /// Open a tab and say what it is called, without making it active.
    ///
    /// What a driver asks for: it creates a context and then sends commands to it by
    /// name, and whether the person watching is looking at it is a separate question.
    pub fn open_tab(&mut self) -> (id: TabId)
        requires
            old(self).wf(),
        ensures
            final(self).wf(),
            final(self)@ == tab_added(old(self)@),
            id == TabId(old(self)@.next_tab),
    {
        proof {
            reveal(Browser::state);
        }
        let id = TabId(self.next_tab);
        self.add_tab();
        id
    }

    /// Where a tab named `id` sits right now, if it is still open.
    pub fn tab_index(&self, id: TabId) -> (at: Option<usize>)
        ensures
            match at {
                Some(i) => first_named(self@.tabs, id, i as int) && named(self@.tabs, id)
                    && place_named(self@.tabs, id) == i,
                None => !named(self@.tabs, id),
            },
    {
        proof {
            reveal(Browser::state);
        }
        find_named(&self.tabs, id)
    }

    /// What the active tab is called.
    pub fn active_id(&self) -> (id: TabId)
        requires
            self.wf(),
        ensures
            id == self@.tab().id,
    {
        self.active_tab().id
    }

    /// Show what the active tab is, and give the keyboard to it.
    fn show_tab(&mut self)
        requires
            old(self).wf(),
        ensures
            final(self).wf(),
            final(self)@ == shown(old(self)@),
    {
        self.sync_address();
        let surface = self.tab_surface();
        self.activate_surface(surface);
    }

    /// Put a blank tab where the only one is.
    fn empty_only_tab(&mut self)
        requires
            old(self).wf(),
            old(self)@.tabs.len() == 1,
        ensures
            final(self).wf(),
            final(self)@ == emptied(old(self)@),
    {
        proof {
            reveal(Browser::state);
        }
        let ghost before = self@;
        let tab = Tab::blank(&mut self.next_tab);
        self.names = Ghost((self.names@.0, self.names@.1 + 1));
        self.tabs[0] = tab;
        proof {
            assert(self@.tabs =~= before.tabs.update(0, blank_tab(TabId(before.next_tab))));
            emptying_the_only_tab_is_sound(before);
        }
    }

    /// Take the tab at `index` out.
    fn remove_tab(&mut self, index: usize)
        requires
            old(self).wf(),
            index < old(self)@.tabs.len(),
            old(self)@.tabs.len() > 1,
        ensures
            final(self).wf(),
            final(self)@ == without_tab(old(self)@, index as int),
    {
        proof {
            reveal(Browser::state);
        }
        let ghost before = self@;
        let _ = self.tabs.remove(index);
        let last: usize = self.tabs.len() - 1;
        if self.active > last {
            self.active = last;
        }
        proof {
            assert(self@.tabs =~= before.tabs.remove(index as int));
            removing_a_tab_is_sound(before, index as int);
        }
    }

    /// Close a tab. The last one is never closed; it is emptied instead, because a
    /// window with no tabs has nothing to show and nothing to type into.
    pub fn close_tab(&mut self, index: usize)
        requires
            old(self).wf(),
        ensures
            final(self).wf(),
            final(self)@ == tab_closed(old(self)@, index as int),
    {
        let count: usize = self.tab_count();
        if index >= count {
            return;
        }
        if count == 1 {
            self.empty_only_tab();
            self.make_ready_to_type();
            return;
        }
        self.remove_tab(index);
        self.show_tab();
    }

    /// Put the tab named `id` at `to`, taking the tabs after it along.
    ///
    /// Which tab is being read moves with it: a tab dragged somewhere else is still the
    /// tab you were on.
    pub fn move_tab(&mut self, id: TabId, to: usize)
        requires
            old(self).wf(),
        ensures
            final(self).wf(),
            final(self)@ == tab_moved(old(self)@, id, to as int),
    {
        let from: usize = match self.tab_index(id) {
            Some(at) => at,
            None => {
                return;
            },
        };
        let last: usize = self.tab_count() - 1;
        let goal: usize = if to < last {
            to
        } else {
            last
        };
        if from == goal {
            return;
        }
        self.carry_tab(from, goal);
    }

    /// Take the tab at `from` out and put it back at `to`, and go on reading the tab
    /// that was being read.
    fn carry_tab(&mut self, from: usize, to: usize)
        requires
            old(self).wf(),
            from < old(self)@.tabs.len(),
            to < old(self)@.tabs.len(),
        ensures
            final(self).wf(),
            final(self)@ == tab_carried(old(self)@, from as int, to as int),
    {
        proof {
            reveal(Browser::state);
        }
        let ghost before = self@;
        let reading = self.tabs[self.active].id;
        carry(&mut self.tabs, from, to);
        let ghost tabs = carried(before.tabs, from as int, to as int);
        proof {
            let at = carried_to(before.tabs, from as int, to as int, before.active);
            a_first_there_is(tabs, reading, at);
        }
        match find_named(&self.tabs, reading) {
            Some(at) => {
                self.active = at;
            },
            None => {},
        }
        proof {
            carrying_a_tab_is_sound(before, from as int, to as int);
        }
    }

    /// Make a tab active.
    pub fn select_tab(&mut self, index: usize)
        requires
            old(self).wf(),
        ensures
            final(self).wf(),
            final(self)@ == tab_selected(old(self)@, index as int),
    {
        if index < self.tab_count() {
            self.turn_to(index);
            self.show_tab();
        }
    }
}

/// Where the tab at `at` is once the one at `from` was carried to `to`.
proof fn carried_to(tabs: Seq<TabView>, from: int, to: int, at: int) -> (now: int)
    requires
        0 <= from < tabs.len(),
        0 <= to < tabs.len(),
        0 <= at < tabs.len(),
    ensures
        0 <= now < tabs.len(),
        carried(tabs, from, to)[now] == tabs[at],
{
    let rest = tabs.remove(from);
    if at == from {
        to
    } else {
        let k = if at < from {
            at
        } else {
            at - 1
        };
        assert(rest[k] == tabs[at]);
        if k < to {
            k
        } else {
            k + 1
        }
    }
}

/// Where the tab at `now` was before the one at `from` was carried to `to`.
proof fn carried_from(tabs: Seq<TabView>, from: int, to: int, now: int) -> (at: int)
    requires
        0 <= from < tabs.len(),
        0 <= to < tabs.len(),
        0 <= now < tabs.len(),
    ensures
        0 <= at < tabs.len(),
        carried(tabs, from, to)[now] == tabs[at],
{
    let rest = tabs.remove(from);
    if now == to {
        from
    } else {
        let k = if now < to {
            now
        } else {
            now - 1
        };
        if k < from {
            assert(rest[k] == tabs[k]);
            k
        } else {
            assert(rest[k] == tabs[k + 1]);
            k + 1
        }
    }
}

/// A browser with one more tab can be used.
pub proof fn adding_a_tab_is_sound(s: State)
    requires
        s.wf(),
    ensures
        tab_added(s).wf(),
{
    reveal(tabs_sound);
    reveal(names_sound);
    let tabs = tab_added(s).tabs;
    assert forall|i: int| 0 <= i < tabs.len() implies (#[trigger] tabs[i]).wf() by {
        if i < s.tabs.len() {
            assert(tabs[i] == s.tabs[i]);
        }
    }
    assert forall|i: int| 0 <= i < s.tabs.len() implies #[trigger] tabs[i] == s.tabs[i] by {}
}

/// What showing a tab with nothing in it comes to.
proof fn a_blank_tab_is_shown_as_one(s: State)
    requires
        s.wf(),
        s.tab() == blank_tab(s.tab().id),
    ensures
        ready_to_type(s).tabs == s.tabs,
        ready_to_type(s).active == s.active,
        ready_to_type(s).wf(),
        ready_to_type(s).chrome.address.len() == 0,
        ready_to_type(s).chrome.bookmark == Bookmarked::Impossible,
        ready_to_type(s).chrome.finding is None,
        ready_to_type(s).zoom == OWN_SIZE,
        ready_to_type(s).requests == s.requests,
        ready_to_type(s).next_request == s.next_request,
        ready_to_type(s).next_cache_mode == s.next_cache_mode,
        ready_to_type(s).keyboard == Surface::Chrome,
{
    showing_an_address_changes_no_tab(s);
    activating_changes_no_tab(address_synced(s).telling(Command::FocusAddress), Surface::Chrome);
}

/// A tab that is opened shows nothing, and the toolbar says so: there is no address, nothing
/// for the star to say is kept, no zoom but a page's own size and no find bar. What was being
/// read is left as it is.
pub proof fn a_new_tab_shows_nothing(s: State)
    requires
        s.wf(),
    ensures
        tab_opened(s).wf(),
        tab_opened(s).active == s.tabs.len(),
        tab_opened(s).tabs == s.tabs.push(blank_tab(TabId(s.next_tab))),
        tab_opened(s).chrome.address.len() == 0,
        tab_opened(s).chrome.bookmark == Bookmarked::Impossible,
        tab_opened(s).chrome.finding is None,
        tab_opened(s).zoom == OWN_SIZE,
        tab_opened(s).requests == s.requests,
        tab_opened(s).next_request == s.next_request,
        tab_opened(s).next_cache_mode == s.next_cache_mode,
        tab_opened(s).keyboard == Surface::Chrome,
{
    adding_a_tab_is_sound(s);
    a_blank_tab_is_shown_as_one(turned_to(tab_added(s), s.tabs.len() as int));
}

proof fn emptying_the_only_tab_is_sound(s: State)
    requires
        s.wf(),
        s.tabs.len() == 1,
    ensures
        emptied(s).wf(),
{
    reveal(tabs_sound);
    reveal(names_sound);
}

proof fn removing_a_tab_is_sound(s: State, index: int)
    requires
        s.wf(),
        s.tabs.len() > 1,
        0 <= index < s.tabs.len(),
    ensures
        without_tab(s, index).wf(),
{
    reveal(tabs_sound);
    reveal(names_sound);
    let tabs = s.tabs.remove(index);
    assert forall|i: int| 0 <= i < tabs.len() implies (#[trigger] tabs[i]).wf() && tabs[i]
        == s.tabs[if i < index {
        i
    } else {
        i + 1
    }] by {
        assert(s.tabs[if i < index {
            i
        } else {
            i + 1
        }].wf());
    }
}

proof fn carrying_a_tab_is_sound(s: State, from: int, to: int)
    requires
        s.wf(),
        0 <= from < s.tabs.len(),
        0 <= to < s.tabs.len(),
    ensures
        tab_carried(s, from, to).wf(),
{
    reveal(tabs_sound);
    reveal(names_sound);
    let tabs = carried(s.tabs, from, to);
    let at = carried_to(s.tabs, from, to, s.active);
    a_first_there_is(tabs, s.tab().id, at);
    assert(first_named(tabs, s.tab().id, place_named(tabs, s.tab().id)));
    assert forall|i: int| 0 <= i < tabs.len() implies (#[trigger] tabs[i]).wf() by {
        let j = carried_from(s.tabs, from, to, i);
        assert(s.tabs[j].wf());
    }
    if s.names_end <= all_names() {
        assert forall|i: int| 0 <= i < tabs.len() implies s.first_name <= (
        #[trigger] tabs[i]).id.0 < s.names_end by {
            let j = carried_from(s.tabs, from, to, i);
            assert(s.tabs[j].id.0 < s.names_end);
        }
        assert forall|i: int, j: int| 0 <= i < j < tabs.len() implies (#[trigger] tabs[i]).id != (
        #[trigger] tabs[j]).id by {
            carried_from_is_one_to_one(s.tabs, from, to, i, j);
        }
    }
}

/// Whether no name has had to be given again yet: there are names for as many tabs as a
/// machine will ever open.
pub open spec fn names_last(s: State) -> bool {
    s.names_end <= all_names()
}

/// No two tabs share a name, in any browser that can be used.
pub proof fn no_two_tabs_share_a_name(s: State)
    requires
        s.wf(),
        names_last(s),
    ensures
        forall|i: int, j: int|
            0 <= i < j < s.tabs.len() ==> (#[trigger] s.tabs[i]).id != (#[trigger] s.tabs[j]).id,
{
    reveal(names_sound);
}

/// So a tab is found under its own name, wherever it is.
pub proof fn a_tab_is_found_under_its_name(s: State, index: int)
    requires
        s.wf(),
        names_last(s),
        0 <= index < s.tabs.len(),
    ensures
        named(s.tabs, s.tabs[index].id),
        place_named(s.tabs, s.tabs[index].id) == index,
{
    reveal(names_sound);
    assert(first_named(s.tabs, s.tabs[index].id, index));
    there_is_one_first(s.tabs, s.tabs[index].id, index);
}

/// A name is never given again: the name of a tab that is opened is past every name that
/// was given before it, also to a tab that has been closed since, and the names that have
/// been given only grow.
pub proof fn a_name_is_given_once(s: State)
    requires
        s.wf(),
        names_last(tab_added(s)),
    ensures
        tab_added(s).tabs.last().id.0 == s.names_end,
        tab_added(s).names_end == s.names_end + 1,
        tab_added(s).first_name == s.first_name,
        forall|i: int| 0 <= i < s.tabs.len() ==> (#[trigger] s.tabs[i]).id.0 < s.names_end,
        emptied(s).tabs[0].id.0 == s.names_end,
        emptied(s).names_end == s.names_end + 1,
{
    reveal(names_sound);
}

/// Two browsers share no name, where one was started with a number past those that the
/// other has given: what whoever makes several in one process has to see to.
pub proof fn two_browsers_share_no_name(one: State, other: State, i: int, j: int)
    requires
        one.wf(),
        other.wf(),
        names_last(one),
        names_last(other),
        one.names_end <= other.first_name,
        0 <= i < one.tabs.len(),
        0 <= j < other.tabs.len(),
    ensures
        one.tabs[i].id != other.tabs[j].id,
{
    reveal(names_sound);
    assert(one.tabs[i].id.0 < one.names_end);
    assert(other.first_name <= other.tabs[j].id.0);
}

/// Giving a surface the keyboard changes no tab, nor which one is read.
pub proof fn activating_changes_no_tab(s: State, surface: Surface)
    ensures
        activated(s, surface).tabs == s.tabs,
        activated(s, surface).active == s.active,
        activated(s, surface).next_tab == s.next_tab,
        activated(s, surface).first_name == s.first_name,
        activated(s, surface).names_end == s.names_end,
        activated(s, surface).next_request == s.next_request,
        activated(s, surface).requests == s.requests,
        activated(s, surface).chrome.address == s.chrome.address,
        activated(s, surface).chrome.bookmark == s.chrome.bookmark,
        activated(s, surface).visits == s.visits,
        activated(s, surface).settings == s.settings,
        activated(s, surface).next_cache_mode == s.next_cache_mode,
        activated(s, surface).script_hops == s.script_hops,
        activated(s, surface).bookmarks == s.bookmarks,
        activated(s, surface).zooms == s.zooms,
        activated(s, surface).zoom == s.zoom,
        activated(s, surface).extras == s.extras,
{
}

/// Showing the active tab's address leaves every tab as it is but for the active tab's
/// search, and that too where it is a search for something.
pub proof fn showing_an_address_changes_no_tab(s: State)
    requires
        s.wf(),
    ensures
        address_synced(s).active == s.active,
        address_synced(s).next_tab == s.next_tab,
        address_synced(s).first_name == s.first_name,
        address_synced(s).names_end == s.names_end,
        address_synced(s).next_request == s.next_request,
        address_synced(s).requests == s.requests,
        address_synced(s).visits == s.visits,
        address_synced(s).settings == s.settings,
        address_synced(s).next_cache_mode == s.next_cache_mode,
        address_synced(s).script_hops == s.script_hops,
        address_synced(s).bookmarks == s.bookmarks,
        address_synced(s).zooms == s.zooms,
        address_synced(s).extras == s.extras,
        address_synced(s).keyboard == s.keyboard,
        address_synced(s).context == s.context,
        address_synced(s).chrome.address == s.tab().url,
        address_synced(s).chrome.bookmark == bookmark_of(s.bookmarks, s.tab().url),
        address_synced(s).zoom == comes_back_at(s.zooms, origin_of(s.tab())),
        address_synced(s).tabs.len() == s.tabs.len(),
        address_synced(s).tab() == with_search(s.tab(), search_of(address_synced(s).tab())),
        forall|i: int|
            0 <= i < s.tabs.len() && i != s.active ==> address_synced(s).tabs[i] == #[trigger] s.tabs[i],
        forall|i: int|
            0 <= i < s.tabs.len() ==> (#[trigger] address_synced(s).tabs[i]).id == s.tabs[i].id,
        (query_of(s.tab()) is Some ==> query_of(s.tab())->0.len() > 0) ==> address_synced(s).tabs
            == s.tabs,
{
    let named = address_shown(s, s.tab().url, bookmark_of(s.bookmarks, s.tab().url));
    let drawn = zoom_restored(named);
    assert(drawn.tabs == s.tabs && drawn.active == s.active);
    let bar = bar_showing(drawn, query_of(drawn.tab()));
    let after = find_updated(bar, 0);
    assert(after == address_synced(s));
    assert(after.tabs == bar.tabs.update(
        s.active,
        with_search(bar.tab(), search_after(bar, 0)),
    ));
    if query_of(s.tab()) is Some ==> query_of(s.tab())->0.len() > 0 {
        assert(with_search(bar.tab(), search_after(bar, 0)) == bar.tab());
        assert(after.tabs =~= s.tabs);
    }
}

proof fn carried_from_is_one_to_one(tabs: Seq<TabView>, from: int, to: int, i: int, j: int)
    requires
        0 <= from < tabs.len(),
        0 <= to < tabs.len(),
        0 <= i < j < tabs.len(),
        forall|a: int, b: int|
            0 <= a < b < tabs.len() ==> (#[trigger] tabs[a]).id != (#[trigger] tabs[b]).id,
    ensures
        carried(tabs, from, to)[i].id != carried(tabs, from, to)[j].id,
{
    let rest = tabs.remove(from);
    assert forall|a: int, b: int| 0 <= a < b < rest.len() implies rest[a].id != rest[b].id by {
        let x = if a < from {
            a
        } else {
            a + 1
        };
        let y = if b < from {
            b
        } else {
            b + 1
        };
        assert(rest[a] == tabs[x] && rest[b] == tabs[y]);
    }
    assert forall|a: int| 0 <= a < rest.len() implies rest[a].id != tabs[from].id by {
        let x = if a < from {
            a
        } else {
            a + 1
        };
        assert(rest[a] == tabs[x]);
    }
    let now = carried(tabs, from, to);
    let ri = if i < to {
        i
    } else {
        i - 1
    };
    let rj = if j < to {
        j
    } else {
        j - 1
    };
    if i != to {
        assert(now[i] == rest[ri]);
    }
    if j != to {
        assert(now[j] == rest[rj]);
    }
}

/// A tab that is moved lands where it was put, no tab is lost or made, and the tab being
/// read is still the tab being read.
pub proof fn moving_a_tab_keeps_what_is_read(s: State, id: TabId, to: int)
    requires
        s.wf(),
        named(s.tabs, id),
        0 <= to,
    ensures
        ({
            let after = tab_moved(s, id, to);
            let goal = if to < s.tabs.len() - 1 {
                to
            } else {
                s.tabs.len() - 1
            };
            &&& after.tab().id == s.tab().id
            &&& after.tabs[goal].id == id
            &&& after.tabs.to_multiset() == s.tabs.to_multiset()
            &&& after.wf()
        }),
{
    let goal = if to < s.tabs.len() - 1 {
        to
    } else {
        s.tabs.len() - 1
    };
    let from = place_named(s.tabs, id);
    assert(first_named(s.tabs, id, from));
    if from != goal {
        let tabs = carried(s.tabs, from, goal);
        let at = carried_to(s.tabs, from, goal, s.active);
        a_first_there_is(tabs, s.tab().id, at);
        let now = place_named(tabs, s.tab().id);
        assert(first_named(tabs, s.tab().id, now));
        broadcast use vstd::seq_lib::group_to_multiset_ensures;

        assert(tabs.to_multiset() =~= s.tabs.to_multiset());
        carrying_a_tab_is_sound(s, from, goal);
    }
}

/// Which tab is read: the one that is turned to; another than before where the one being read
/// is closed; and the same as before, unchanged, where a tab is carried elsewhere.
pub proof fn which_tab_is_read(s: State, index: int, id: TabId, to: int)
    requires
        s.wf(),
        names_last(s),
        0 <= index < s.tabs.len(),
        0 <= to,
    ensures
        tab_selected(s, index).tab().id == s.tabs[index].id,
        s.tabs.len() > 1 || names_last(emptied(s)) ==> tab_closed(s, s.active).tab().id
            != s.tab().id,
        tab_moved(s, id, to).tab() == s.tab(),
{
    reveal(names_sound);
    no_two_tabs_share_a_name(s);
    let turned = turned_to(s, index);
    showing_an_address_changes_no_tab(turned);
    activating_changes_no_tab(address_synced(turned), surface_of(address_synced(turned).tab()));
    if s.tabs.len() > 1 {
        let rest = without_tab(s, s.active);
        removing_a_tab_is_sound(s, s.active);
        showing_an_address_changes_no_tab(rest);
        activating_changes_no_tab(address_synced(rest), surface_of(address_synced(rest).tab()));
        let at = if rest.active < s.active {
            rest.active
        } else {
            rest.active + 1
        };
        assert(rest.tab() == s.tabs[at]);
    } else {
        emptying_the_only_tab_is_sound(s);
        a_blank_tab_is_shown_as_one(emptied(s));
    }
    let goal = if to < s.tabs.len() - 1 {
        to
    } else {
        s.tabs.len() - 1
    };
    let from = place_named(s.tabs, id);
    if named(s.tabs, id) && from != goal {
        assert(first_named(s.tabs, id, from));
        carrying_a_tab_is_sound(s, from, goal);
        let after = tab_carried(s, from, goal);
        let at = carried_to(s.tabs, from, goal, s.active);
        assert(after.tabs[at] == s.tab());
        a_tab_is_found_under_its_name(after, at);
    }
}

/// There is always a tab: closing the last one leaves a tab that shows nothing.
pub proof fn a_window_always_has_a_tab(s: State, index: int)
    requires
        s.wf(),
        0 <= index,
    ensures
        tab_closed(s, index).tabs.len() >= 1,
        s.tabs.len() == 1 && index == 0 ==> {
            &&& tab_closed(s, index).tabs == seq![blank_tab(TabId(s.next_tab))]
            &&& tab_closed(s, index).chrome.address.len() == 0
            &&& tab_closed(s, index).chrome.bookmark == Bookmarked::Impossible
            &&& tab_closed(s, index).keyboard == Surface::Chrome
        },
        s.tabs.len() > 1 && index < s.tabs.len() ==> tab_closed(s, index).tabs.len()
            == s.tabs.len() - 1,
{
    if s.tabs.len() == 1 {
        assert(emptied(s).tabs =~= seq![blank_tab(TabId(s.next_tab))]);
        emptying_the_only_tab_is_sound(s);
        a_blank_tab_is_shown_as_one(emptied(s));
    } else if index < s.tabs.len() {
        let rest = without_tab(s, index);
        removing_a_tab_is_sound(s, index);
        showing_an_address_changes_no_tab(rest);
        activating_changes_no_tab(address_synced(rest), surface_of(address_synced(rest).tab()));
    }
}

/// Turning to another tab and back leaves every tab's contents as they were, and the
/// address field shows the tab that is turned to.
pub proof fn tabs_keep_their_own_contents(s: State, index: int)
    requires
        s.wf(),
        0 <= index < s.tabs.len(),
        query_of(s.tabs[index]) is Some ==> query_of(s.tabs[index])->0.len() > 0,
    ensures
        tab_selected(s, index).tabs == s.tabs,
        tab_selected(s, index).active == index,
        tab_selected(s, index).chrome.address == s.tabs[index].url,
        tab_selected(s, index).keyboard == surface_of(s.tabs[index]),
{
    let turned = turned_to(s, index);
    assert(turned.wf());
    showing_an_address_changes_no_tab(turned);
    activating_changes_no_tab(address_synced(turned), surface_of(address_synced(turned).tab()));
}

/// Opening a tab for a driver leaves the reader where they are.
pub proof fn a_tab_opened_for_a_driver_is_not_turned_to(s: State)
    requires
        s.wf(),
    ensures
        tab_added(s).active == s.active,
        tab_added(s).tab() == s.tab(),
        tab_added(s).keyboard == s.keyboard,
        tab_added(s).chrome == s.chrome,
        tab_added(s).tabs.len() == s.tabs.len() + 1,
        tab_added(s).tabs.drop_last() == s.tabs,
        tab_added(s).tabs.last().id == TabId(s.next_tab),
        tab_added(s).tabs.last().url.len() == 0,
        tab_added(s).tabs.last().page is None,
        tab_added(s).tabs.last().pending is None,
        tab_added(s).tabs.last().history.len() == 0,
{
    assert(tab_added(s).tabs.drop_last() =~= s.tabs);
}

/// Closing one of several tabs closes that one and leaves the others, in their order: those
/// before it are where they were and those after it one place nearer the front. Nothing of
/// them changes, but that the tab which is read then has its search shown, or none. The place
/// that is read is the one that was, or the last where that was the last.
pub proof fn closing_a_tab_leaves_the_others(s: State, index: int)
    requires
        s.wf(),
        s.tabs.len() > 1,
        0 <= index < s.tabs.len(),
    ensures
        ({
            let after = tab_closed(s, index);
            &&& after.wf()
            &&& after.tabs.len() == s.tabs.len() - 1
            &&& s.active < s.tabs.len() - 1 ==> after.active == s.active
            &&& s.active == s.tabs.len() - 1 ==> after.active == s.active - 1
            &&& forall|i: int|
                0 <= i < index ==> is_as_it_was(
                    s.tabs[i],
                    #[trigger] after.tabs[i],
                    i == after.active,
                )
            &&& forall|i: int|
                index <= i < after.tabs.len() ==> is_as_it_was(
                    s.tabs[i + 1],
                    #[trigger] after.tabs[i],
                    i == after.active,
                )
            &&& after.chrome.address == after.tab().url
            &&& after.tab().system is Some ==> after.keyboard == Surface::System
            &&& after.tab().system is None && after.tab().page is Some ==> after.keyboard
                == Surface::Page
            &&& after.requests == s.requests
            &&& after.visits == s.visits
        }),
{
    let rest = without_tab(s, index);
    removing_a_tab_is_sound(s, index);
    showing_an_address_changes_no_tab(rest);
    let synced = address_synced(rest);
    activating_changes_no_tab(synced, surface_of(synced.tab()));
    a_synced_address_is_sound(rest);
    let after = tab_closed(s, index);
    assert(after.tabs == synced.tabs);
    assert forall|i: int| 0 <= i < index implies is_as_it_was(
        s.tabs[i],
        #[trigger] after.tabs[i],
        i == after.active,
    ) by {
        assert(rest.tabs[i] == s.tabs[i]);
    }
    assert forall|i: int| index <= i < after.tabs.len() implies is_as_it_was(
        s.tabs[i + 1],
        #[trigger] after.tabs[i],
        i == after.active,
    ) by {
        assert(rest.tabs[i] == s.tabs[i + 1]);
    }
}

/// Whether a tab is the one it was, with all it held: the whole of it, or where it is the one
/// that is shown all but the search of its page, and that too where it was for something.
pub open spec fn is_as_it_was(before: TabView, after: TabView, shown: bool) -> bool {
    &&& !shown ==> after == before
    &&& after.id == before.id
    &&& after.url == before.url
    &&& after.site == before.site
    &&& after.title == before.title
    &&& after.error == before.error
    &&& after.system == before.system
    &&& after.navigation == before.navigation
    &&& after.scripts == before.scripts
    &&& after.pending == before.pending
    &&& after.history == before.history
    &&& after.position == before.position
    &&& (after.page is Some) == (before.page is Some)
    &&& after.page is Some ==> {
        &&& after.page->0.scroll == before.page->0.scroll
        &&& before.page->0.search is Some && before.page->0.search->0.query.len() > 0
            ==> after.page->0.search == before.page->0.search
    }
}

/// The tab that was closed is no longer to be found under its name, and every other one is:
/// that holds of any tab, whether or not it was the one being read.
pub proof fn only_the_closed_tab_is_gone(s: State, index: int, other: int)
    requires
        s.wf(),
        names_last(s),
        s.tabs.len() > 1,
        0 <= index < s.tabs.len(),
        0 <= other < s.tabs.len(),
        other != index,
    ensures
        forall|i: int|
            0 <= i < tab_closed(s, index).tabs.len() ==> (#[trigger] tab_closed(s, index).tabs[i]).id
                != s.tabs[index].id,
        exists|i: int|
            0 <= i < tab_closed(s, index).tabs.len() && (#[trigger] tab_closed(s, index).tabs[i]).id
                == s.tabs[other].id,
{
    closing_a_tab_leaves_the_others(s, index);
    no_two_tabs_share_a_name(s);
    let after = tab_closed(s, index);
    assert forall|i: int| 0 <= i < after.tabs.len() implies (#[trigger] after.tabs[i]).id
        != s.tabs[index].id by {
        if i < index {
            assert(after.tabs[i].id == s.tabs[i].id);
        } else {
            assert(after.tabs[i].id == s.tabs[i + 1].id);
        }
    }
    let at = if other < index {
        other
    } else {
        other - 1
    };
    assert(after.tabs[at].id == s.tabs[other].id);
}

/// A tab that is carried elsewhere lands where it was put, or last where that is past the
/// end, and the others keep their order round it. Nothing of any tab changes.
pub proof fn the_other_tabs_keep_their_order(s: State, from: int, to: int)
    requires
        s.wf(),
        0 <= from < s.tabs.len(),
        forall|j: int| 0 <= j < from ==> (#[trigger] s.tabs[j]).id != s.tabs[from].id,
        0 <= to,
    ensures
        ({
            let after = tab_moved(s, s.tabs[from].id, to).tabs;
            let goal = if to < s.tabs.len() {
                to
            } else {
                s.tabs.len() - 1
            };
            &&& after.len() == s.tabs.len()
            &&& after[goal] == s.tabs[from]
            &&& forall|i: int|
                0 <= i < from && i < goal || from < i < s.tabs.len() && goal < i ==> #[trigger] after[i]
                    == s.tabs[i]
            &&& forall|i: int| from <= i < goal ==> #[trigger] after[i] == s.tabs[i + 1]
            &&& forall|i: int| goal < i <= from ==> #[trigger] after[i] == s.tabs[i - 1]
        }),
{
    let id = s.tabs[from].id;
    assert(first_named(s.tabs, id, from));
    there_is_one_first(s.tabs, id, from);
}

/// A tab that was just opened has been nowhere and waits for nothing, and the reader is on
/// it, about to type.
pub proof fn a_tab_that_was_opened_has_been_nowhere(s: State)
    requires
        s.wf(),
    ensures
        ({
            let after = tab_opened(s);
            let tab = after.tab();
            &&& after.active == after.tabs.len() - 1
            &&& after.tabs.len() == s.tabs.len() + 1
            &&& after.tabs.drop_last() == s.tabs
            &&& tab.id == TabId(s.next_tab)
            &&& tab.url.len() == 0 && tab.site is None
            &&& tab.page is None && tab.error is None && tab.system is None
            &&& tab.pending is None && tab.navigation is None && !tab.scripts
            &&& tab.history.len() == 0 && tab.position == 0
            &&& tab.title == "New tab"@
            &&& after.told.contains(Command::FocusAddress)
        }),
{
    a_new_tab_shows_nothing(s);
    assert(tab_opened(s).tabs.drop_last() =~= s.tabs);
    let synced = address_synced(turned_to(tab_added(s), s.tabs.len() as int));
    let asked = synced.telling(Command::FocusAddress);
    assert(asked.told[asked.told.len() - 1] == Command::FocusAddress);
    what_was_said_stays_said(asked, Surface::Chrome, asked.told.len() - 1);
}

proof fn what_was_said_stays_said(s: State, surface: Surface, at: int)
    requires
        0 <= at < s.told.len(),
    ensures
        activated(s, surface).told.contains(s.told[at]),
{
    reveal(saying);
    let after = activated(s, surface).told;
    assert(after[at] == s.told[at]);
}

/// Turning to a tab that is there turns to it and gives the keyboard to what it shows: to one
/// of the browser's own pages where it is on one, to the document where it has one, waits for
/// one or says why it has none, and to the chrome where there is nothing. Turning to one that
/// is not there changes nothing.
pub proof fn turning_to_a_tab_gives_the_keyboard_to_what_it_shows(s: State, index: int)
    requires
        s.wf(),
        0 <= index,
    ensures
        index >= s.tabs.len() ==> tab_selected(s, index) == s,
        index < s.tabs.len() ==> {
            let tab = s.tabs[index];
            let after = tab_selected(s, index);
            &&& after.active == index
            &&& after.tabs.len() == s.tabs.len()
            &&& after.chrome.address == tab.url
            &&& tab.system is Some ==> after.keyboard == Surface::System
            &&& tab.system is None && (tab.page is Some || tab.pending is Some || tab.error is Some)
                ==> after.keyboard == Surface::Page
            &&& tab.system is None && tab.page is None && tab.pending is None && tab.error is None
                ==> after.keyboard == Surface::Chrome
            &&& forall|i: int|
                0 <= i < s.tabs.len() ==> is_as_it_was(s.tabs[i], #[trigger] after.tabs[i], i == index)
        },
{
    if index < s.tabs.len() {
        let turned = turned_to(s, index);
        showing_an_address_changes_no_tab(turned);
        activating_changes_no_tab(address_synced(turned), surface_of(address_synced(turned).tab()));
    }
}

} // verus!
