//! What a caller with no window asks: how far a load has got, and whether waiting for it
//! is still worth anything.
//!
//! The waiting itself is the caller's. Whether to go on waiting is decided here, because a
//! wait for something that only the waiting thread could let go would never end.

use std::collections::HashMap;

use vstd::prelude::*;

use crate::arriving::among;
use crate::browser::{Browser, Command, Inspector, Point, State};
use crate::tab::TabView;

verus! {

/// How long a caller with no event loop waits between two looks at what has come, in
/// nanoseconds.
pub const FETCH_POLL: u64 = 50_000_000;

/// How far a load has got.
#[derive(Clone, Copy, Debug, PartialEq, Eq, Structural)]
pub enum Readiness {
    /// It has been asked for.
    Started,
    /// The document is here, and what it asked for is not.
    Interactive,
    /// There is nothing left to wait for.
    Complete,
}

/// What a caller that waits does next.
#[derive(Clone, Copy, Debug, PartialEq, Eq, Structural)]
pub enum Wait {
    /// Nothing is left to wait for.
    Over,
    /// Everything left is held back, by a driver whom only this thread can answer.
    Held,
    /// There is no time left.
    GaveUp,
    /// Take in what comes within this many nanoseconds, and ask again.
    For(u64),
}

/// One box of a page as layout made it: the box around it, and the element it is of, if it
/// is of one.
#[derive(Clone, Copy, Debug, PartialEq, Eq, Structural)]
pub struct BoxNode {
    pub parent: Option<usize>,
    pub node: Option<u64>,
}

/// What the developer tools could not do themselves.
#[derive(Debug)]
pub enum InspectorAction {
    SetAttribute { name: String, value: String },
    Settled,
}

/// How far the load in a tab has got. A tab with nothing in flight has arrived everywhere
/// it was going.
pub open spec fn readiness_of(tabs: Seq<TabView>, index: int) -> Readiness {
    if 0 <= index < tabs.len() {
        match tabs[index].pending {
            None => Readiness::Complete,
            Some(load) => if load.document_arrived {
                Readiness::Interactive
            } else {
                Readiness::Started
            },
        }
    } else {
        Readiness::Complete
    }
}

/// Whether a browser waits for something a frame asked for under `id`.
pub open spec fn awaits_for_frame(s: State, id: u64) -> bool {
    ||| s.extras.background_fetches.contains_key(id)
    ||| s.extras.font_fetches.contains_key(id)
    ||| s.extras.picture_fetches.contains_key(id)
}

/// Whether a browser waits for anything a frame asked for.
pub open spec fn frame_incomplete(s: State) -> bool {
    exists|id: u64| #[trigger] awaits_for_frame(s, id)
}

/// Whether everything a frame still waits for is held back, and it waits for something.
pub open spec fn all_held(s: State, held: Seq<u64>) -> bool {
    &&& frame_incomplete(s)
    &&& forall|id: u64| #[trigger] awaits_for_frame(s, id) ==> held.contains(id)
}

/// Whether every document a browser waits for is held back.
pub open spec fn documents_held(tabs: Seq<TabView>, held: Seq<u64>) -> bool {
    forall|i: int|
        0 <= i < tabs.len() ==> ((#[trigger] tabs[i]).pending matches Some(load) ==> held.contains(
            load.document,
        ))
}

/// What a caller with `remaining` nanoseconds left does next.
pub open spec fn waiting(over: bool, held: bool, remaining: u64) -> Wait {
    if over {
        Wait::Over
    } else if held {
        Wait::Held
    } else if remaining == 0 {
        Wait::GaveUp
    } else if remaining < FETCH_POLL {
        Wait::For(remaining)
    } else {
        Wait::For(FETCH_POLL)
    }
}

/// Whether the timers of a tab have come due.
pub open spec fn timers_due(tab: TabView, deadline: Option<u64>, now: u64) -> bool {
    tab.scripts && tab.page is Some && (deadline matches Some(at) && at <= now)
}

/// The element a box is of, or the nearest box around it that is of one, as far as `fuel`
/// boxes out.
pub open spec fn nearest(boxes: Seq<BoxNode>, at: Option<usize>, fuel: nat) -> Option<u64>
    decreases fuel,
{
    match at {
        None => None,
        Some(index) => if fuel == 0 || index >= boxes.len() {
            None
        } else {
            match boxes[index as int].node {
                Some(node) => Some(node),
                None => nearest(boxes, boxes[index as int].parent, (fuel - 1) as nat),
            }
        },
    }
}

/// A browser whose developer tools have this selected.
pub open spec fn inspecting(s: State, node: u64) -> State {
    State { inspector: Inspector { selected: Some(node), ..s.inspector }, ..s }
}

/// A browser that chose what is at a point: what is there, if there is a document there.
pub open spec fn picked(s: State, node: Option<u64>) -> State {
    match node {
        Some(node) => if s.tab().page is Some {
            inspecting(s, node)
        } else {
            s
        },
        None => s,
    }
}

/// A browser whose developer tools are open.
pub open spec fn inspector_open(s: State) -> State {
    State { inspector: Inspector { open: true, ..s.inspector }, ..s }
}

/// A browser that has done what its developer tools reported.
pub open spec fn inspector_applied(s: State, action: InspectorAction) -> State {
    match action {
        InspectorAction::Settled => s,
        InspectorAction::SetAttribute { name, value } => match s.inspector.selected {
            Some(node) => if s.tab().page is Some {
                s.telling(Command::SetAttribute(s.tab().id, node, name, value))
            } else {
                s
            },
            None => s,
        },
    }
}

/// What a caller with `remaining` nanoseconds left does next.
fn wait(over: bool, held: bool, remaining: u64) -> (next: Wait)
    ensures
        next == waiting(over, held, remaining),
{
    if over {
        Wait::Over
    } else if held {
        Wait::Held
    } else if remaining == 0 {
        Wait::GaveUp
    } else if remaining < FETCH_POLL {
        Wait::For(remaining)
    } else {
        Wait::For(FETCH_POLL)
    }
}

/// Whether every key of `fetches` is among `held`.
fn keys_held<V>(fetches: &HashMap<u64, V>, held: &Vec<u64>) -> (answer: bool)
    ensures
        answer == (forall|id: u64| #[trigger] fetches@.contains_key(id) ==> held@.contains(id)),
{
    broadcast use vstd::std_specs::hash::group_hash_axioms;

    let ghost all = fetches@;
    let ghost mut seen: Set<u64> = Set::empty();
    let mut answer = true;
    for key in it: fetches.keys()
        invariant
            all == fetches@,
            it.seq().unref().to_set() == all.dom(),
            forall|id: u64|
                seen.contains(id) <==> exists|i: int|
                    0 <= i < it.index() && #[trigger] it.seq().unref()[i] == id,
            it.index() == it.seq().len() ==> seen == all.dom(),
            answer == (forall|id: u64| seen.contains(id) ==> held@.contains(id)),
    {
        let ghost before = seen;
        let ghost was = answer;
        proof {
            let keys = it.seq().unref();
            let now = it.index() as int;
            seen = before.insert(*key);
            assert(keys[now] == *key);
            assert forall|id: u64| seen.contains(id) <==> exists|i: int|
                0 <= i < now + 1 && #[trigger] keys[i] == id by {
                if before.contains(id) {
                    let i = choose|i: int| 0 <= i < now && #[trigger] keys[i] == id;
                    assert(keys[i] == id);
                }
            }
            if now + 1 == keys.len() {
                assert forall|id: u64| seen.contains(id) <==> all.dom().contains(id) by {
                    assert(keys.to_set().contains(id) <==> keys.contains(id));
                }
                assert(seen =~= all.dom());
            }
            assert(seen.contains(*key));
        }
        if !among(held, *key) {
            answer = false;
        }
        proof {
            if !was {
                let id = choose|id: u64| before.contains(id) && !held@.contains(id);
                assert(seen.contains(id));
            } else {
                assert forall|id: u64| seen.contains(id) && held@.contains(
                    *key,
                ) implies held@.contains(id) by {
                    assert(before.contains(id) || id == *key);
                }
            }
        }
    }
    answer
}

/// The element a box is of, or the nearest box around it that is of one: a box that layout
/// made up has no element, and what a person means by it is what it is in.
pub fn nearest_node(boxes: &Vec<BoxNode>, at: Option<usize>) -> (node: Option<u64>)
    ensures
        node == nearest(boxes@, at, boxes@.len()),
{
    let mut current: Option<usize> = at;
    let mut fuel: usize = boxes.len();
    while fuel > 0
        invariant
            fuel <= boxes.len(),
            nearest(boxes@, at, boxes@.len()) == nearest(boxes@, current, fuel as nat),
        decreases fuel,
    {
        match current {
            None => {
                return None;
            },
            Some(index) => {
                if index >= boxes.len() {
                    return None;
                }
                match boxes[index].node {
                    Some(node) => {
                        return Some(node);
                    },
                    None => {
                        current = boxes[index].parent;
                    },
                }
            },
        }
        fuel = fuel - 1;
    }
    None
}

impl Browser {
    /// How far the load in the tab at `index` has got.
    pub fn readiness(&self, index: usize) -> (readiness: Readiness)
        requires
            self.wf(),
        ensures
            readiness == readiness_of(self@.tabs, index as int),
    {
        if index >= self.tab_count() {
            return Readiness::Complete;
        }
        match &self.tab_at(index).pending {
            None => Readiness::Complete,
            Some(load) => if load.document_arrived {
                Readiness::Interactive
            } else {
                Readiness::Started
            },
        }
    }

    /// Where the active tab is.
    pub fn url(&self) -> (url: String)
        requires
            self.wf(),
        ensures
            url@ == self@.tab().url,
    {
        self.active_tab().url.clone()
    }

    /// Whether every document a browser waits for is among `held`.
    fn documents_are_held(&self, held: &Vec<u64>) -> (answer: bool)
        requires
            self.wf(),
        ensures
            answer == documents_held(self@.tabs, held@),
    {
        let count: usize = self.tab_count();
        let mut at: usize = 0;
        while at < count
            invariant
                at <= count,
                self.wf(),
                count == self@.tabs.len(),
                forall|i: int|
                    0 <= i < at ==> ((#[trigger] self@.tabs[i]).pending matches Some(load)
                        ==> held@.contains(load.document)),
            decreases count - at,
        {
            match &self.tab_at(at).pending {
                None => {},
                Some(load) => {
                    if !among(held, load.document) {
                        assert(self@.tabs[at as int].pending is Some);
                        return false;
                    }
                },
            }
            at = at + 1;
        }
        true
    }

    /// What a caller that waits for the tabs to load does next. The requests of `held` are
    /// held back.
    pub fn wait_for_load(&self, held: &Vec<u64>, remaining: u64) -> (next: Wait)
        requires
            self.wf(),
        ensures
            next == waiting(
                !crate::frames::any_loading(self@.tabs),
                documents_held(self@.tabs, held@),
                remaining,
            ),
    {
        let over = !self.is_loading();
        let stuck = self.documents_are_held(held);
        wait(over, stuck, remaining)
    }

    /// Whether a frame that was drawn waits for nothing it asked for.
    pub fn frame_is_complete(&self) -> (answer: bool)
        ensures
            answer == !frame_incomplete(self@),
    {
        proof {
            reveal(Browser::state);
        }
        let complete = self.extras.background_fetches.is_empty()
            && self.extras.font_fetches.is_empty() && self.extras.picture_fetches.is_empty();
        proof {
            let extras = self@.extras;
            if !complete {
                if !extras.background_fetches.is_empty() {
                    let id = extras.background_fetches.dom().choose();
                    assert(awaits_for_frame(self@, id));
                } else if !extras.font_fetches.is_empty() {
                    let id = extras.font_fetches.dom().choose();
                    assert(awaits_for_frame(self@, id));
                } else {
                    let id = extras.picture_fetches.dom().choose();
                    assert(awaits_for_frame(self@, id));
                }
            }
        }
        complete
    }

    /// Whether everything a frame still waits for is held back. Not where it waits for
    /// nothing: that there is nothing to wait for is the loop's own condition.
    pub fn only_held_remains(&self, held: &Vec<u64>) -> (answer: bool)
        ensures
            answer == all_held(self@, held@),
    {
        let incomplete = !self.frame_is_complete();
        proof {
            reveal(Browser::state);
        }
        let backgrounds = keys_held(&self.extras.background_fetches, held);
        let fonts = keys_held(&self.extras.font_fetches, held);
        let pictures = keys_held(&self.extras.picture_fetches, held);
        proof {
            let extras = self@.extras;
            if !backgrounds {
                let id = choose|id: u64|
                    #[trigger] extras.background_fetches.contains_key(id) && !held@.contains(id);
                assert(awaits_for_frame(self@, id));
            }
            if !fonts {
                let id = choose|id: u64|
                    #[trigger] extras.font_fetches.contains_key(id) && !held@.contains(id);
                assert(awaits_for_frame(self@, id));
            }
            if !pictures {
                let id = choose|id: u64|
                    #[trigger] extras.picture_fetches.contains_key(id) && !held@.contains(id);
                assert(awaits_for_frame(self@, id));
            }
        }
        incomplete && backgrounds && fonts && pictures
    }

    /// What a caller that waits for what a frame asked for does next.
    pub fn prepare_frame(&self, held: &Vec<u64>, remaining: u64) -> (next: Wait)
        ensures
            next == waiting(!frame_incomplete(self@), all_held(self@, held@), remaining),
    {
        let over = self.frame_is_complete();
        let stuck = self.only_held_remains(held);
        wait(over, stuck, remaining)
    }

    /// Whether the timers of the tab at `index` have come due: every open tab's, and not
    /// only the visible one's, since a background tab's clock does not stop.
    pub fn timers_are_due(&self, index: usize, deadline: Option<u64>, now: u64) -> (due: bool)
        requires
            self.wf(),
            index < self@.tabs.len(),
        ensures
            due == timers_due(self@.tabs[index as int], deadline, now),
    {
        let tab = self.tab_at(index);
        tab.scripts && tab.page.is_some() && match deadline {
            Some(at) => at <= now,
            None => false,
        }
    }

    /// Whether the page in the tab at `index` gets the frame being built.
    pub fn frame_is_due(&self, index: usize, frames_pending: bool) -> (due: bool)
        requires
            self.wf(),
            index < self@.tabs.len(),
        ensures
            due == (self@.tabs[index as int].scripts && self@.tabs[index as int].page is Some
                && frames_pending),
    {
        let tab = self.tab_at(index);
        tab.scripts && tab.page.is_some() && frames_pending
    }

    /// Have the developer tools select this.
    fn inspect(&mut self, node: u64)
        requires
            old(self).wf(),
        ensures
            final(self).wf(),
            final(self)@ == inspecting(old(self)@, node),
    {
        proof {
            reveal(Browser::state);
        }
        self.inspector.selected = Some(node);
    }

    /// Choose the element drawn at a point, which is in the box at `hit` of `boxes` if it
    /// is in one.
    pub fn pick_at(&mut self, boxes: &Vec<BoxNode>, hit: Option<usize>)
        requires
            old(self).wf(),
        ensures
            final(self).wf(),
            final(self)@ == picked(old(self)@, nearest(boxes@, hit, boxes@.len())),
    {
        match nearest_node(boxes, hit) {
            Some(node) => {
                if self.active_tab().page.is_some() {
                    self.inspect(node);
                }
            },
            None => {},
        }
    }

    /// Open the developer tools.
    fn open_inspector(&mut self)
        requires
            old(self).wf(),
        ensures
            final(self).wf(),
            final(self)@ == inspector_open(old(self)@),
    {
        proof {
            reveal(Browser::state);
        }
        self.inspector.open = true;
    }

    /// Choose the element drawn at `at`, as the picker would, for a caller with no pointer.
    pub fn inspect_at(&mut self, at: Point)
        requires
            old(self).wf(),
        ensures
            final(self).wf(),
            final(self)@ == inspector_open(old(self)@).telling(Command::PickAt(at)),
    {
        self.open_inspector();
        self.tell(Command::PickAt(at));
    }

    /// Whether the developer tools take a part of the window: only over a document, since
    /// one of the browser's own pages has none to inspect.
    pub fn docks(&self) -> (answer: bool)
        requires
            self.wf(),
        ensures
            answer == (self@.inspector.open && self@.tab().system is None),
    {
        self.inspector().open && self.active_tab().system.is_none()
    }

    /// Do what the developer tools reported. They settle their own state; editing is the
    /// exception, because they do not hold the document.
    pub fn apply_inspector(&mut self, action: InspectorAction)
        requires
            old(self).wf(),
        ensures
            final(self).wf(),
            final(self)@ == inspector_applied(old(self)@, action),
    {
        match action {
            InspectorAction::Settled => {},
            InspectorAction::SetAttribute { name, value } => match self.inspector().selected {
                Some(node) => {
                    let tab = self.active_tab();
                    let id = tab.id;
                    if tab.page.is_some() {
                        self.tell(Command::SetAttribute(id, node, name, value));
                    }
                },
                None => {},
            },
        }
    }
}

/// A wait never outlives what it waits for or the time it was given, and a wait for what a
/// driver holds back ends at once: only a caller with something to gain waits.
pub proof fn a_wait_is_for_something(over: bool, held: bool, remaining: u64)
    ensures
        ({
            let next = waiting(over, held, remaining);
            &&& next is For ==> !over && !held && 0 < next->0 <= remaining && next->0 <= FETCH_POLL
            &&& over || held || remaining == 0 ==> !(next is For)
        }),
{
}

/// How far a load has got is what can be seen of it: one with nothing pending has arrived, one
/// whose document is here waits for what is on it, and any other has only been asked for.
pub proof fn a_load_is_as_far_as_it_has_got(s: State, index: int)
    ensures
        readiness_of(s.tabs, index) == Readiness::Complete <==> !(0 <= index < s.tabs.len()
            && s.tabs[index].pending is Some),
        readiness_of(s.tabs, index) == Readiness::Interactive <==> 0 <= index < s.tabs.len()
            && s.tabs[index].pending is Some && s.tabs[index].pending->0.document_arrived,
        readiness_of(s.tabs, index) == Readiness::Started <==> 0 <= index < s.tabs.len()
            && s.tabs[index].pending is Some && !s.tabs[index].pending->0.document_arrived,
{
}

/// A wait is over where there is nothing to wait for, and otherwise ends where all of it is
/// held back or the time is up. Until then it is for as long as is left, but never longer than
/// a twentieth of a second at once.
pub proof fn a_wait_ends_for_one_reason(over: bool, held: bool, remaining: u64)
    ensures
        waiting(over, held, remaining) == Wait::Over <==> over,
        waiting(over, held, remaining) == Wait::Held <==> !over && held,
        waiting(over, held, remaining) == Wait::GaveUp <==> !over && !held && remaining == 0,
        !over && !held && 0 < remaining <= 50_000_000 ==> waiting(over, held, remaining)
            == Wait::For(remaining),
        !over && !held && remaining >= 50_000_000 ==> waiting(over, held, remaining) == Wait::For(
            50_000_000,
        ),
{
}

/// The clock of a tab runs while its code is alive and it has a page, and has come due exactly
/// where its moment is no later than now.
pub proof fn a_clock_comes_due_at_its_moment(tab: TabView, at: u64, now: u64)
    ensures
        timers_due(tab, Some(at), now) <==> tab.scripts && tab.page is Some && at <= now,
        !timers_due(tab, None, now),
{
}

/// A box that is of an element is that element; one that is of none is whatever the box round
/// it is, and one that is round nothing is nothing.
pub proof fn a_made_up_box_is_what_it_is_in(boxes: Seq<BoxNode>, at: usize, fuel: nat)
    requires
        at < boxes.len(),
        fuel > 0,
    ensures
        boxes[at as int].node is Some ==> nearest(boxes, Some(at), fuel) == boxes[at as int].node,
        boxes[at as int].node is None ==> nearest(boxes, Some(at), fuel) == nearest(
            boxes,
            boxes[at as int].parent,
            (fuel - 1) as nat,
        ),
        nearest(boxes, None, fuel) is None,
{
}

/// Picking selects what was picked, in a document only, and editing an attribute edits it on
/// what is selected, in the document being read.
pub proof fn what_is_picked_is_selected(s: State, node: u64, name: String, value: String)
    ensures
        s.tab().page is Some ==> picked(s, Some(node)).inspector.selected == Some(node),
        s.tab().page is Some ==> picked(s, Some(node)).inspector.open == s.inspector.open,
        s.tab().page is Some ==> picked(s, Some(node)).inspector.picking == s.inspector.picking,
        s.tab().page is None ==> picked(s, Some(node)) == s,
        picked(s, None) == s,
        s.tab().page is Some && s.inspector.selected == Some(node) ==> inspector_applied(
            s,
            InspectorAction::SetAttribute { name, value },
        ).told == s.told.push(Command::SetAttribute(s.tab().id, node, name, value)),
        s.tab().page is None || s.inspector.selected is None ==> inspector_applied(
            s,
            InspectorAction::SetAttribute { name, value },
        ) == s,
        inspector_applied(s, InspectorAction::Settled) == s,
        inspector_open(s).inspector.open,
        inspector_open(s).inspector.selected == s.inspector.selected,
{
}

/// A frame waits for whatever it asked for and has not got: a background, a face or an
/// element's picture. All of that is held back exactly where there is something and every
/// one of them is among those held.
pub proof fn a_frame_waits_for_what_it_asked_for(s: State, id: u64, held: Seq<u64>)
    ensures
        s.extras.background_fetches.contains_key(id) ==> frame_incomplete(s),
        s.extras.font_fetches.contains_key(id) ==> frame_incomplete(s),
        s.extras.picture_fetches.contains_key(id) ==> frame_incomplete(s),
        (s.extras.background_fetches.contains_key(id) || s.extras.font_fetches.contains_key(id)
            || s.extras.picture_fetches.contains_key(id)) && !held.contains(id) ==> !all_held(
            s,
            held,
        ),
        all_held(s, held) ==> frame_incomplete(s),
{
    if awaits_for_frame(s, id) {
        assert(frame_incomplete(s));
    }
}

} // verus!
