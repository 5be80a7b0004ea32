//! What the browser's own interface offers, and acting on what the reader chose of it.
//!
//! The toolbar, the omnibox's suggestions and the context menu each say what the reader
//! chose and leave the doing to the browser. Every one of those answers is a question
//! about the tab or its document, so it is settled here.

use vstd::prelude::*;

use crate::address::{bookmark_toggled, zoomed};
use crate::browser::{
    Browser, ChromeView, Command, ContextCommand, ContextRow, ContextTarget, Place, PlaceView,
    Point, State, Suggestion, SuggestionView, Surface, Target, Visit,
};
use crate::find::match_stepped;
use crate::navigation::{
    hops_forgotten, navigated, reloaded, scroll_remembered, sent, setting_out, stopped,
    system_opened_beside, travelled,
};
use crate::promises::{
    a_navigation_asks_once, document_request, noting_the_scroll_is_sound,
    what_a_page_may_not_reach_is_not_fetched,
};
use crate::strip::{
    a_new_tab_shows_nothing, activating_changes_no_tab, tab_closed, tab_moved, tab_opened,
    tab_selected,
};
use crate::surface::{activated, inspector_toggled, popup_dismissed};
use crate::system::{page_at, SystemPage};
use crate::tab::TabId;
use crate::text::{contains, holds, lowercase, to_lowercase, trim, trimmed};
use crate::zoom::{stepped, ZoomStep};

verus! {

/// How many places the omnibox offers at once.
pub const OFFERED: usize = 6;

/// What the interface reports a press on it meant.
#[derive(Debug)]
pub enum UiAction {
    /// Nothing, or something that is the interface's own and that it has settled.
    Settled,
    FindStep(bool),
    ResetZoom,
    ToggleInspector,
    ToggleBookmark,
    OpenPage(SystemPage),
    Navigate(Target),
    Back,
    Forward,
    Stop,
    NewTab,
    CloseTab(usize),
    SelectTab(usize),
    MoveTab { id: TabId, to: usize },
    Reload,
    Context(ContextCommand),
    LeaveChrome(bool),
}

/// What acting on a press may have to know of the page.
#[derive(Debug)]
pub struct PageFacts {
    /// How often what is being looked for occurs.
    pub occurrences: usize,
    /// Whether the rules refuse the address the tab is on to the page it is on.
    pub refused: bool,
    /// What is selected, if anything is.
    pub selected: Option<String>,
    /// Whether the page, with nothing in it focused, has something to focus at the end
    /// the keyboard comes in at.
    pub takes_focus: bool,
}

/// What has been typed, as places are matched against it.
pub open spec fn sought(typed: Seq<char>) -> Seq<char> {
    lowercase(trimmed(typed))
}

/// Whether a place answers what has been typed: by its address or by its title, without
/// regard to case.
pub open spec fn answers(place: PlaceView, sought: Seq<char>) -> bool {
    holds(lowercase(place.url), sought) || holds(lowercase(place.title), sought)
}

/// Whether an address is offered already.
pub open spec fn is_offered(rows: Seq<SuggestionView>, url: Seq<char>) -> bool {
    exists|i: int| 0 <= i < rows.len() && (#[trigger] rows[i]).url == url
}

/// What is offered once a place has been considered.
pub open spec fn considered(
    rows: Seq<SuggestionView>,
    place: PlaceView,
    kept: bool,
    sought: Seq<char>,
) -> Seq<SuggestionView> {
    if rows.len() < OFFERED && answers(place, sought) && !is_offered(rows, place.url) {
        rows.push(SuggestionView { title: place.title, url: place.url, kept })
    } else {
        rows
    }
}

/// What is offered once several places have been considered in turn.
pub open spec fn all_considered(
    rows: Seq<SuggestionView>,
    places: Seq<PlaceView>,
    kept: bool,
    sought: Seq<char>,
) -> Seq<SuggestionView>
    decreases places.len(),
{
    if places.len() == 0 {
        rows
    } else {
        considered(
            all_considered(rows, places.drop_last(), kept, sought),
            places.last(),
            kept,
            sought,
        )
    }
}

/// Where the omnibox offers to go: kept pages first, and then where the reader has been,
/// newest first.
pub open spec fn offered(
    bookmarks: Seq<PlaceView>,
    visits: Seq<PlaceView>,
    typed: Seq<char>,
) -> Seq<SuggestionView> {
    if sought(typed).len() == 0 {
        seq![]
    } else {
        all_considered(
            all_considered(seq![], bookmarks, true, sought(typed)),
            visits.reverse(),
            false,
            sought(typed),
        )
    }
}

/// A browser that offers these.
pub open spec fn offering(s: State, suggestions: Seq<SuggestionView>) -> State {
    State { chrome: ChromeView { suggestions, ..s.chrome }, ..s }
}

/// A browser whose omnibox offers what fits what has been typed into it.
pub open spec fn suggestions_refreshed(s: State, focused: bool, typed: Seq<char>) -> State {
    offering(
        s,
        if focused {
            offered(s.bookmarks, s.visits, typed)
        } else {
            seq![]
        },
    )
}

/// The rows of a context menu.
pub open spec fn context_rows(link: bool, selection: bool, back: bool, forward: bool) -> Seq<
    ContextRow,
> {
    let about_link = if link {
        seq![
            ContextRow::Command(ContextCommand::OpenLinkInNewTab, true),
            ContextRow::Command(ContextCommand::CopyLinkAddress, true),
            ContextRow::Divider,
        ]
    } else {
        seq![]
    };
    let about_selection = if selection {
        seq![ContextRow::Command(ContextCommand::CopySelection, true), ContextRow::Divider]
    } else {
        seq![]
    };
    about_link + about_selection + seq![
        ContextRow::Command(ContextCommand::Back, back),
        ContextRow::Command(ContextCommand::Forward, forward),
        ContextRow::Command(ContextCommand::Reload, true),
        ContextRow::Divider,
        ContextRow::Command(ContextCommand::SelectAll, true),
        ContextRow::Command(ContextCommand::InspectElement, true),
    ]
}

/// A browser with a context menu open over what is at `context`.
pub open spec fn menu_opened(s: State, context: ContextTarget, rows: Seq<ContextRow>) -> State {
    State { context: Some(context), chrome: ChromeView { menu: Some(rows), ..s.chrome }, ..s }
}

/// A browser asked for a menu.
pub open spec fn menu_requested(
    s: State,
    context: ContextTarget,
    over_page: bool,
    selection: bool,
) -> State {
    let closed = popup_dismissed(s);
    if !over_page || s.tab().page is None {
        closed
    } else {
        let rows = context_rows(
            context.link is Some,
            selection,
            s.tab().has_back(),
            s.tab().has_forward(),
        );
        activated(menu_opened(closed, context, rows), Surface::Chrome)
    }
}

/// A browser that has forgotten what a menu was asked about.
pub open spec fn context_taken(s: State) -> State {
    State { context: None, ..s }
}

/// A browser that has put what is selected on the clipboard.
pub open spec fn selection_copied(s: State, selected: Option<String>) -> State {
    match selected {
        Some(text) => s.telling(Command::Copy(text)),
        None => s,
    }
}

/// A browser that shows its developer tools.
pub open spec fn inspector_shown(s: State) -> State {
    if s.inspector.open {
        s
    } else {
        inspector_toggled(s)
    }
}

/// A browser that has done what a row of the context menu says, to what it was asked
/// about.
#[verifier::opaque]
pub open spec fn context_applied(s: State, command: ContextCommand, facts: PageFacts) -> State {
    match s.context {
        None => s,
        Some(target) => {
            let taken = context_taken(s);
            match command {
                ContextCommand::OpenLinkInNewTab => match target.link {
                    Some(link) => navigated(hops_forgotten(tab_opened(taken)), link, false),
                    None => taken,
                },
                ContextCommand::CopyLinkAddress => match target.link {
                    Some(link) => taken.telling(Command::Copy(link.url)),
                    None => taken,
                },
                ContextCommand::CopySelection => selection_copied(taken, facts.selected),
                ContextCommand::SelectAll => activated(
                    taken.telling_if(
                        taken.tab().page is Some,
                        Command::SelectAll(taken.tab().id),
                    ),
                    Surface::Page,
                ),
                ContextCommand::Back => travelled(taken, -1),
                ContextCommand::Forward => travelled(taken, 1),
                ContextCommand::Reload => reloaded(taken, facts.refused),
                ContextCommand::InspectElement => activated(
                    inspector_shown(taken).telling(Command::PickAt(target.at)),
                    Surface::Inspector,
                ),
            }
        },
    }
}

/// A link that its page may not follow is not followed from the context menu either: the
/// address came from the page, whoever chose the row. The tab that was opened for it says
/// what was refused.
pub proof fn a_link_that_is_refused_is_not_opened(s: State, facts: PageFacts, link: Target)
    requires
        s.wf(),
        s.context is Some,
        s.context->0.link == Some(link),
        link.refused,
        page_at(link.url@) is None,
    ensures
        ({
            let after = context_applied(s, ContextCommand::OpenLinkInNewTab, facts);
            &&& after.requests == s.requests
            &&& after.tabs.len() == s.tabs.len() + 1
            &&& after.active == s.tabs.len()
            &&& after.tab().pending is None
            &&& after.tab().error is Some
        }),
{
    reveal(context_applied);
    a_new_tab_shows_nothing(context_taken(s));
    what_a_page_may_not_reach_is_not_fetched(
        hops_forgotten(tab_opened(context_taken(s))),
        link,
    );
}

/// A link that its page may follow is asked for, in the tab that was opened for it. That the
/// reader chose the row starts the count of what scripts navigate again, whether or not the
/// link may be followed.
pub proof fn a_link_chosen_from_the_menu_is_opened(s: State, facts: PageFacts, link: Target)
    requires
        s.wf(),
        s.context is Some,
        s.context->0.link == Some(link),
        page_at(link.url@) is None,
    ensures
        ({
            let after = context_applied(s, ContextCommand::OpenLinkInNewTab, facts);
            &&& after.active == s.tabs.len()
            &&& after.script_hops == 0
            &&& !link.refused ==> {
                &&& after.requests == s.requests.push(document_request(s, link.url@, None))
                &&& after.tab().url == link.url@
                &&& after.tab().pending is Some
                &&& after.tab().pending->0.record
                &&& after.tab().pending->0.restore_scroll == 0
            }
        }),
{
    reveal(sent);
    reveal(context_applied);
    let taken = context_taken(s);
    a_new_tab_shows_nothing(taken);
    let opened = hops_forgotten(tab_opened(taken));
    noting_the_scroll_is_sound(opened);
    let noted = scroll_remembered(opened);
    if link.refused {
        activating_changes_no_tab(setting_out(noted), Surface::Page);
    } else {
        a_navigation_asks_once(
            noted,
            link.url@,
            link.site.deep_view(),
            false,
            false,
            true,
            0,
            None,
        );
    }
}

/// A browser that has to tell a screen reader of a change.
pub open spec fn retold(s: State) -> State {
    State { accessibility_dirty: true, ..s }
}

/// A browser whose keyboard walked off the end of the chrome.
pub open spec fn keyboard_handed(s: State, forward: bool, takes_focus: bool) -> State {
    if s.tab().system is None && s.tab().page is Some && takes_focus {
        retold(activated(s, Surface::Page))
    } else {
        s.telling(Command::FocusEdge(forward))
    }
}

/// A browser that has gone where the interface reported.
#[verifier::opaque]
pub open spec fn gone_as_told(s: State, action: UiAction, facts: PageFacts) -> State {
    match action {
        UiAction::OpenPage(page) => system_opened_beside(s, page),
        UiAction::Navigate(target) => navigated(s, target, true),
        UiAction::Back => travelled(s, -1),
        UiAction::Forward => travelled(s, 1),
        UiAction::Stop => stopped(s),
        UiAction::Reload => reloaded(s, facts.refused),
        _ => s,
    }
}

/// A browser that has done to its tabs what the interface reported.
#[verifier::opaque]
pub open spec fn tabs_as_told(s: State, action: UiAction) -> State {
    match action {
        UiAction::NewTab => tab_opened(s),
        UiAction::CloseTab(index) => tab_closed(s, index as int),
        UiAction::SelectTab(index) => tab_selected(s, index as int),
        UiAction::MoveTab { id, to } => tab_moved(s, id, to as int),
        _ => s,
    }
}

/// A browser that has done to the page being read what the interface reported.
#[verifier::opaque]
pub open spec fn page_as_told(s: State, action: UiAction, facts: PageFacts) -> State {
    match action {
        UiAction::FindStep(forward) => match_stepped(s, forward, facts.occurrences),
        UiAction::ResetZoom => zoomed(s, stepped(ZoomStep::Reset, s.zoom)),
        UiAction::ToggleInspector => inspector_toggled(s),
        UiAction::ToggleBookmark => bookmark_toggled(s),
        _ => s,
    }
}

/// A browser that has done what the interface reported.
pub open spec fn applied(s: State, action: UiAction, facts: PageFacts) -> State {
    match action {
        UiAction::Settled => s,
        UiAction::Context(command) => context_applied(s, command, facts),
        UiAction::LeaveChrome(forward) => keyboard_handed(s, forward, facts.takes_focus),
        UiAction::NewTab | UiAction::CloseTab(_) | UiAction::SelectTab(_) | UiAction::MoveTab {
            ..
        } => tabs_as_told(s, action),
        UiAction::FindStep(_)
        | UiAction::ResetZoom
        | UiAction::ToggleInspector
        | UiAction::ToggleBookmark => page_as_told(s, action, facts),
        UiAction::OpenPage(_)
        | UiAction::Navigate(_)
        | UiAction::Back
        | UiAction::Forward
        | UiAction::Stop
        | UiAction::Reload => gone_as_told(s, action, facts),
    }
}

/// Whether a place answers what has been typed.
fn place_answers(place: &Place, sought: &String) -> (answer: bool)
    ensures
        answer == answers(place.deep_view(), sought@),
{
    let url = to_lowercase(place.url.as_str());
    if contains(url.as_str(), sought.as_str()) {
        return true;
    }
    let title = to_lowercase(place.title.as_str());
    contains(title.as_str(), sought.as_str())
}

fn find_offered(rows: &Vec<Suggestion>, url: &String) -> (answer: bool)
    ensures
        answer == is_offered(rows.deep_view(), url@),
{
    let ghost all = rows.deep_view();
    let mut at: usize = 0;
    while at < rows.len()
        invariant
            at <= rows.len(),
            all == rows.deep_view(),
            forall|i: int| 0 <= i < at ==> (#[trigger] all[i]).url != url@,
        decreases rows.len() - at,
    {
        if rows[at].url == *url {
            assert(all[at as int].url == url@);
            return true;
        }
        at = at + 1;
    }
    false
}

/// Offer a place, if it answers what has been typed and there is room for it.
fn consider(rows: &mut Vec<Suggestion>, place: &Place, kept: bool, sought: &String)
    ensures
        final(rows).deep_view() == considered(
            old(rows).deep_view(),
            place.deep_view(),
            kept,
            sought@,
        ),
{
    let ghost before = rows.deep_view();
    if rows.len() < OFFERED && place_answers(place, sought) && !find_offered(rows, &place.url) {
        rows.push(Suggestion { title: place.title.clone(), url: place.url.clone(), kept });
        assert(rows.deep_view() =~= before.push(
            SuggestionView { title: place.title@, url: place.url@, kept },
        ));
    }
}

/// Offer the places among `places` that answer what has been typed.
fn consider_kept(rows: Vec<Suggestion>, places: &Vec<Place>, sought: &String) -> (more: Vec<
    Suggestion,
>)
    ensures
        more.deep_view() == all_considered(
            rows.deep_view(),
            places.deep_view(),
            true,
            sought@,
        ),
{
    let ghost before = rows.deep_view();
    let ghost all = places.deep_view();
    let mut rows: Vec<Suggestion> = rows;
    let mut at: usize = 0;
    assert(all.take(0) =~= seq![]);
    while at < places.len()
        invariant
            at <= places.len(),
            all == places.deep_view(),
            rows.deep_view() == all_considered(before, all.take(at as int), true, sought@),
        decreases places.len() - at,
    {
        proof {
            let longer = all.take(at + 1);
            assert(longer.drop_last() =~= all.take(at as int));
            assert(longer.last() == all[at as int]);
        }
        consider(&mut rows, &places[at], true, sought);
        at = at + 1;
    }
    assert(all.take(all.len() as int) =~= all);
    rows
}

/// Offer the places among `visits` that answer what has been typed, newest first.
fn consider_visits(rows: Vec<Suggestion>, visits: &Vec<Visit>, sought: &String) -> (more: Vec<
    Suggestion,
>)
    ensures
        more.deep_view() == all_considered(
            rows.deep_view(),
            visits.deep_view().reverse(),
            false,
            sought@,
        ),
{
    let ghost before = rows.deep_view();
    let ghost all = visits.deep_view().reverse();
    let mut rows: Vec<Suggestion> = rows;
    let mut left: usize = visits.len();
    assert(all.take(0) =~= seq![]);
    while left > 0
        invariant
            left <= visits.len(),
            all == visits.deep_view().reverse(),
            rows.deep_view() == all_considered(before, all.take(all.len() - left), false, sought@),
        decreases left,
    {
        proof {
            let longer = all.take(all.len() - left + 1);
            assert(longer.drop_last() =~= all.take(all.len() - left));
            assert(longer.last() == visits.deep_view()[left - 1]);
        }
        left = left - 1;
        consider(&mut rows, &visits[left].place, false, sought);
    }
    assert(all.take(all.len() as int) =~= all);
    rows
}

/// The rows of a context menu.
pub fn menu_rows(link: bool, selection: bool, back: bool, forward: bool) -> (rows: Vec<ContextRow>)
    ensures
        rows@ == context_rows(link, selection, back, forward),
{
    let mut rows: Vec<ContextRow> = Vec::new();
    if link {
        rows.push(ContextRow::Command(ContextCommand::OpenLinkInNewTab, true));
        rows.push(ContextRow::Command(ContextCommand::CopyLinkAddress, true));
        rows.push(ContextRow::Divider);
    }
    if selection {
        rows.push(ContextRow::Command(ContextCommand::CopySelection, true));
        rows.push(ContextRow::Divider);
    }
    rows.push(ContextRow::Command(ContextCommand::Back, back));
    rows.push(ContextRow::Command(ContextCommand::Forward, forward));
    rows.push(ContextRow::Command(ContextCommand::Reload, true));
    rows.push(ContextRow::Divider);
    rows.push(ContextRow::Command(ContextCommand::SelectAll, true));
    rows.push(ContextRow::Command(ContextCommand::InspectElement, true));
    assert(rows@ =~= context_rows(link, selection, back, forward));
    rows
}

impl Browser {
    /// Offer these.
    fn set_suggestions(&mut self, rows: Vec<Suggestion>)
        requires
            old(self).wf(),
        ensures
            final(self).wf(),
            final(self)@ == offering(old(self)@, rows.deep_view()),
    {
        proof {
            reveal(Browser::state);
        }
        self.chrome.suggestions = rows;
    }

    /// Where the omnibox offers to go.
    fn find_suggestions(&self, typed: &str) -> (rows: Vec<Suggestion>)
        ensures
            rows.deep_view() == offered(self@.bookmarks, self@.visits, typed@),
    {
        proof {
            reveal(Browser::state);
        }
        let cut = trim(typed);
        let sought = to_lowercase(cut.as_str());
        let rows: Vec<Suggestion> = Vec::new();
        assert(rows.deep_view() =~= seq![]);
        if sought.as_str().unicode_len() == 0 {
            return rows;
        }
        let kept = consider_kept(rows, &self.bookmarks, &sought);
        consider_visits(kept, &self.visits, &sought)
    }

    /// Offer the omnibox somewhere to go, from what has been typed into it.
    ///
    /// Kept pages come first, because a page somebody kept is a page they meant to come
    /// back to and one they visited once may not be.
    pub fn refresh_suggestions(&mut self, focused: bool, typed: &str)
        requires
            old(self).wf(),
        ensures
            final(self).wf(),
            final(self)@ == suggestions_refreshed(old(self)@, focused, typed@),
    {
        let rows = if focused {
            self.find_suggestions(typed)
        } else {
            let none: Vec<Suggestion> = Vec::new();
            assert(none.deep_view() =~= seq![]);
            none
        };
        self.set_suggestions(rows);
    }

    /// Open a menu of `rows` over `context`.
    fn open_menu(&mut self, context: ContextTarget, rows: Vec<ContextRow>)
        requires
            old(self).wf(),
        ensures
            final(self).wf(),
            final(self)@ == menu_opened(old(self)@, context, rows@),
    {
        proof {
            reveal(Browser::state);
        }
        self.context = Some(context);
        self.chrome.menu = Some(rows);
    }

    /// Offer a menu for whatever the reader asked over.
    ///
    /// What is under the pointer is remembered here, so a row says what to do and this
    /// says to what. A press that lands on the interface or on the panel dismisses
    /// whatever is open and stops there.
    pub fn context_menu_requested(&mut self, context: ContextTarget, over_page: bool, selection: bool)
        requires
            old(self).wf(),
        ensures
            final(self).wf(),
            final(self)@ == menu_requested(old(self)@, context, over_page, selection),
    {
        let tab = self.active_tab();
        let shown = tab.page.is_some();
        let back = tab.can_go_back();
        let forward = tab.can_go_forward();
        self.dismiss_popup();
        if !over_page || !shown {
            return;
        }
        let rows = menu_rows(context.link.is_some(), selection, back, forward);
        self.open_menu(context, rows);
        self.activate_surface(Surface::Chrome);
    }

    /// What an open menu was asked about; nothing is any more.
    fn take_context(&mut self) -> (context: Option<ContextTarget>)
        requires
            old(self).wf(),
        ensures
            final(self).wf(),
            context == old(self)@.context,
            final(self)@ == context_taken(old(self)@),
    {
        proof {
            reveal(Browser::state);
        }
        self.context.take()
    }

    /// Put what is selected on the page on the clipboard, and say whether anything was:
    /// that is what decides whether the key belonged to the page.
    pub fn copy_selection(&mut self, selected: Option<String>) -> (copied: bool)
        requires
            old(self).wf(),
        ensures
            final(self).wf(),
            final(self)@ == selection_copied(old(self)@, selected),
            copied == (selected is Some),
    {
        match selected {
            Some(text) => {
                self.tell(Command::Copy(text));
                true
            },
            None => false,
        }
    }

    /// Whether a menu is open over something on the page.
    pub fn has_context(&self) -> (answer: bool)
        ensures
            answer == (self@.context is Some),
    {
        proof {
            reveal(Browser::state);
        }
        self.context.is_some()
    }

    /// Select everything on the page, and give it the keyboard.
    fn select_page(&mut self)
        requires
            old(self).wf(),
        ensures
            final(self).wf(),
            final(self)@ == activated(
                old(self)@.telling_if(
                    old(self)@.tab().page is Some,
                    Command::SelectAll(old(self)@.tab().id),
                ),
                Surface::Page,
            ),
    {
        let tab = self.active_tab();
        let id = tab.id;
        let shown = tab.page.is_some();
        self.tell_if(shown, Command::SelectAll(id));
        self.activate_surface(Surface::Page);
    }

    /// Show what the engine built at `at`.
    fn inspect_point(&mut self, at: Point)
        requires
            old(self).wf(),
        ensures
            final(self).wf(),
            final(self)@ == activated(
                inspector_shown(old(self)@).telling(Command::PickAt(at)),
                Surface::Inspector,
            ),
    {
        if !self.inspector().open {
            self.toggle_inspector();
        }
        self.tell(Command::PickAt(at));
        self.activate_surface(Surface::Inspector);
    }

    /// Do what a row of the context menu says, to what it was asked about.
    ///
    /// That is where the press landed as it was when the menu opened, and not wherever
    /// the pointer drifted to before a row was chosen.
    pub fn apply_context(&mut self, command: ContextCommand, facts: PageFacts)
        requires
            old(self).wf(),
        ensures
            final(self).wf(),
            final(self)@ == context_applied(old(self)@, command, facts),
    {
        proof {
            reveal(context_applied);
        }
        if !self.has_context() {
            return;
        }
        match self.take_context() {
            None => {},
            Some(target) => match command {
                ContextCommand::OpenLinkInNewTab => match target.link {
                    Some(link) => {
                        self.new_tab();
                        self.forget_hops();
                        self.navigate_from(link, false);
                    },
                    None => {},
                },
                ContextCommand::CopyLinkAddress => match target.link {
                    Some(link) => self.tell(Command::Copy(link.url)),
                    None => {},
                },
                ContextCommand::CopySelection => {
                    let _ = self.copy_selection(facts.selected);
                },
                ContextCommand::SelectAll => self.select_page(),
                ContextCommand::Back => self.go_back(),
                ContextCommand::Forward => self.go_forward(),
                ContextCommand::Reload => self.reload(facts.refused),
                ContextCommand::InspectElement => self.inspect_point(target.at),
            },
        }
    }

    /// Note that a screen reader has to be told of a change.
    pub fn retell(&mut self)
        requires
            old(self).wf(),
        ensures
            final(self).wf(),
            final(self)@ == retold(old(self)@),
    {
        proof {
            reveal(Browser::state);
        }
        self.accessibility_dirty = true;
    }

    /// The keyboard walked off the end of the chrome: give it to the document.
    ///
    /// Only where there is one to walk. A blank tab and one of the browser's own pages
    /// have nothing to hand it to, so the chrome keeps it and wraps within itself.
    pub fn hand_keyboard_to_the_page(&mut self, forward: bool, takes_focus: bool)
        requires
            old(self).wf(),
        ensures
            final(self).wf(),
            final(self)@ == keyboard_handed(old(self)@, forward, takes_focus),
    {
        let tab = self.active_tab();
        if tab.system.is_none() && tab.page.is_some() && takes_focus {
            self.activate_surface(Surface::Page);
            self.retell();
        } else {
            self.tell(Command::FocusEdge(forward));
        }
    }

    /// Go where the interface reported.
    ///
    /// A page of the browser's own that is chosen from the menu opens beside what the
    /// reader was reading: the menu is reached while looking at something. Typing the
    /// same address, which is a decision to leave, navigates in place.
    fn go_as_told(&mut self, action: UiAction, facts: PageFacts)
        requires
            old(self).wf(),
        ensures
            final(self).wf(),
            final(self)@ == gone_as_told(old(self)@, action, facts),
    {
        proof {
            reveal(gone_as_told);
        }
        match action {
            UiAction::OpenPage(page) => self.open_system_in_new_tab(page),
            UiAction::Navigate(target) => self.navigate(target),
            UiAction::Back => self.go_back(),
            UiAction::Forward => self.go_forward(),
            UiAction::Stop => self.stop(),
            UiAction::Reload => self.reload(facts.refused),
            _ => {},
        }
    }

    /// Do to the tabs what the interface reported.
    fn arrange_as_told(&mut self, action: UiAction)
        requires
            old(self).wf(),
        ensures
            final(self).wf(),
            final(self)@ == tabs_as_told(old(self)@, action),
    {
        proof {
            reveal(tabs_as_told);
        }
        match action {
            UiAction::NewTab => self.new_tab(),
            UiAction::CloseTab(index) => self.close_tab(index),
            UiAction::SelectTab(index) => self.select_tab(index),
            UiAction::MoveTab { id, to } => self.move_tab(id, to),
            _ => {},
        }
    }

    /// Do to the page being read what the interface reported.
    fn read_as_told(&mut self, action: UiAction, facts: PageFacts)
        requires
            old(self).wf(),
        ensures
            final(self).wf(),
            final(self)@ == page_as_told(old(self)@, action, facts),
    {
        proof {
            reveal(page_as_told);
        }
        match action {
            UiAction::FindStep(forward) => self.step_match(forward, facts.occurrences),
            UiAction::ResetZoom => self.step_zoom(ZoomStep::Reset),
            UiAction::ToggleInspector => self.toggle_inspector(),
            UiAction::ToggleBookmark => self.toggle_bookmark(),
            _ => {},
        }
    }

    /// Do what the interface reported.
    pub fn apply(&mut self, action: UiAction, facts: PageFacts)
        requires
            old(self).wf(),
        ensures
            final(self).wf(),
            final(self)@ == applied(old(self)@, action, facts),
    {
        match action {
            UiAction::Settled => {},
            UiAction::Context(command) => self.apply_context(command, facts),
            UiAction::LeaveChrome(forward) => self.hand_keyboard_to_the_page(
                forward,
                facts.takes_focus,
            ),
            UiAction::NewTab
            | UiAction::CloseTab(_)
            | UiAction::SelectTab(_)
            | UiAction::MoveTab { .. } => self.arrange_as_told(action),
            UiAction::FindStep(_)
            | UiAction::ResetZoom
            | UiAction::ToggleInspector
            | UiAction::ToggleBookmark => self.read_as_told(action, facts),
            UiAction::OpenPage(_)
            | UiAction::Navigate(_)
            | UiAction::Back
            | UiAction::Forward
            | UiAction::Stop
            | UiAction::Reload => self.go_as_told(action, facts),
        }
    }
}

/// What is offered fits in the list, no address is offered twice, every row answers what
/// has been typed, and a page that was kept never comes after one that was not.
pub open spec fn well_offered(rows: Seq<SuggestionView>, sought: Seq<char>) -> bool {
    &&& rows.len() <= OFFERED
    &&& forall|i: int, j: int|
        0 <= i < j < rows.len() ==> (#[trigger] rows[i]).url != (#[trigger] rows[j]).url
    &&& forall|i: int|
        0 <= i < rows.len() ==> answers(
            PlaceView { url: (#[trigger] rows[i]).url, title: rows[i].title },
            sought,
        )
    &&& forall|i: int, j: int|
        0 <= i < j < rows.len() && (#[trigger] rows[j]).kept ==> (#[trigger] rows[i]).kept
}

/// Every row is one of `places`.
pub open spec fn come_from(
    rows: Seq<SuggestionView>,
    bookmarks: Seq<PlaceView>,
    visits: Seq<PlaceView>,
) -> bool {
    forall|i: int|
        0 <= i < rows.len() ==> (if (#[trigger] rows[i]).kept {
            bookmarks
        } else {
            visits
        }).contains(PlaceView { url: rows[i].url, title: rows[i].title })
}

/// However much there is to offer, the omnibox offers at most a handful, no address
/// twice, only what answers what was typed, the kept before the visited, and each of them
/// a page that was kept or a place that was visited.
pub proof fn what_is_offered_is_well_offered(
    bookmarks: Seq<PlaceView>,
    visits: Seq<PlaceView>,
    typed: Seq<char>,
)
    ensures
        well_offered(offered(bookmarks, visits, typed), sought(typed)),
        come_from(offered(bookmarks, visits, typed), bookmarks, visits),
{
    if sought(typed).len() > 0 {
        let kept = all_considered(seq![], bookmarks, true, sought(typed));
        considering_kept_is_sound(bookmarks, visits, sought(typed));
        considering_visits_is_sound(kept, bookmarks, visits.reverse(), visits, sought(typed));
    }
}

proof fn considering_kept_is_sound(
    bookmarks: Seq<PlaceView>,
    visits: Seq<PlaceView>,
    sought: Seq<char>,
)
    ensures
        ({
            let rows = all_considered(seq![], bookmarks, true, sought);
            &&& well_offered(rows, sought)
            &&& come_from(rows, bookmarks, visits)
            &&& forall|i: int| 0 <= i < rows.len() ==> (#[trigger] rows[i]).kept
        }),
    decreases bookmarks.len(),
{
    if bookmarks.len() > 0 {
        let fewer = bookmarks.drop_last();
        considering_kept_is_sound(fewer, visits, sought);
        let before = all_considered(seq![], fewer, true, sought);
        let after = all_considered(seq![], bookmarks, true, sought);
        assert forall|i: int| 0 <= i < after.len() implies (if (#[trigger] after[i]).kept {
            bookmarks
        } else {
            visits
        }).contains(PlaceView { url: after[i].url, title: after[i].title }) by {
            if i < before.len() {
                assert(after[i] == before[i]);
                let place = PlaceView { url: before[i].url, title: before[i].title };
                let k = choose|k: int| 0 <= k < fewer.len() && fewer[k] == place;
                assert(bookmarks[k] == place);
            } else {
                let place = bookmarks.last();
                assert(bookmarks[bookmarks.len() - 1] == place);
                assert(PlaceView { url: after[i].url, title: after[i].title } == place);
            }
        }
    }
}

proof fn considering_visits_is_sound(
    rows: Seq<SuggestionView>,
    bookmarks: Seq<PlaceView>,
    places: Seq<PlaceView>,
    visits: Seq<PlaceView>,
    sought: Seq<char>,
)
    requires
        well_offered(rows, sought),
        come_from(rows, bookmarks, visits),
        forall|k: int| 0 <= k < places.len() ==> visits.contains(#[trigger] places[k]),
    ensures
        well_offered(all_considered(rows, places, false, sought), sought),
        come_from(all_considered(rows, places, false, sought), bookmarks, visits),
    decreases places.len(),
{
    if places.len() > 0 {
        let fewer = places.drop_last();
        assert forall|k: int| 0 <= k < fewer.len() implies visits.contains(
            #[trigger] fewer[k],
        ) by {
            assert(fewer[k] == places[k]);
        }
        considering_visits_is_sound(rows, bookmarks, fewer, visits, sought);
        let before = all_considered(rows, fewer, false, sought);
        let after = all_considered(rows, places, false, sought);
        assert forall|i: int| 0 <= i < after.len() implies (if (#[trigger] after[i]).kept {
            bookmarks
        } else {
            visits
        }).contains(PlaceView { url: after[i].url, title: after[i].title }) by {
            if i < before.len() {
                assert(after[i] == before[i]);
            } else {
                let place = places.last();
                assert(visits.contains(places[places.len() - 1]));
                assert(PlaceView { url: after[i].url, title: after[i].title } == place);
            }
        }
    }
}

/// What considering several places in turn adds comes after what was offered already, in the
/// order of the places.
proof fn considering_goes_in_order(
    rows: Seq<SuggestionView>,
    places: Seq<PlaceView>,
    kept: bool,
    sought: Seq<char>,
) -> (found: Seq<int>)
    ensures
        ({
            let after = all_considered(rows, places, kept, sought);
            &&& after.len() == rows.len() + found.len()
            &&& forall|i: int| 0 <= i < rows.len() ==> #[trigger] after[i] == rows[i]
            &&& forall|i: int|
                0 <= i < found.len() ==> 0 <= #[trigger] found[i] < places.len() && after[rows.len()
                    + i].url == places[found[i]].url && after[rows.len() + i].title
                    == places[found[i]].title && after[rows.len() + i].kept == kept
            &&& forall|i: int, j: int|
                0 <= i < j < found.len() ==> #[trigger] found[i] < #[trigger] found[j]
        }),
    decreases places.len(),
{
    if places.len() == 0 {
        seq![]
    } else {
        let before = all_considered(rows, places.drop_last(), kept, sought);
        let found = considering_goes_in_order(rows, places.drop_last(), kept, sought);
        if considered(before, places.last(), kept, sought) == before {
            found
        } else {
            found.push(places.len() - 1)
        }
    }
}

proof fn considering_leaves_none_out(
    rows: Seq<SuggestionView>,
    places: Seq<PlaceView>,
    kept: bool,
    sought: Seq<char>,
    k: int,
)
    requires
        0 <= k < places.len(),
        answers(places[k], sought),
    ensures
        ({
            let after = all_considered(rows, places, kept, sought);
            after.len() >= OFFERED || is_offered(after, places[k].url)
        }),
    decreases places.len(),
{
    let fewer = places.drop_last();
    let before = all_considered(rows, fewer, kept, sought);
    let after = all_considered(rows, places, kept, sought);
    if k < places.len() - 1 {
        considering_leaves_none_out(rows, fewer, kept, sought, k);
        if is_offered(before, places[k].url) {
            let i = choose|i: int| 0 <= i < before.len() && (#[trigger] before[i]).url
                == places[k].url;
            assert(after[i] == before[i]);
        }
    } else if before.len() < OFFERED && !is_offered(before, places[k].url) {
        assert(after[after.len() - 1].url == places[k].url);
    }
}

/// Pages that were kept are offered in the order they were kept in, and after them places that
/// were visited, the newest first.
pub proof fn what_is_offered_comes_in_order(
    bookmarks: Seq<PlaceView>,
    visits: Seq<PlaceView>,
    typed: Seq<char>,
) -> (places: Seq<int>)
    ensures
        ({
            let rows = offered(bookmarks, visits, typed);
            &&& places.len() == rows.len()
            &&& forall|i: int|
                0 <= i < rows.len() && rows[i].kept ==> 0 <= #[trigger] places[i] < bookmarks.len()
                    && rows[i].url == bookmarks[places[i]].url && rows[i].title
                    == bookmarks[places[i]].title
            &&& forall|i: int|
                0 <= i < rows.len() && !rows[i].kept ==> 0 <= #[trigger] places[i] < visits.len()
                    && rows[i].url == visits[places[i]].url && rows[i].title
                    == visits[places[i]].title
            &&& forall|i: int, j: int|
                0 <= i < j < rows.len() ==> {
                    ||| rows[i].kept && rows[j].kept && #[trigger] places[i] < #[trigger] places[j]
                    ||| rows[i].kept && !rows[j].kept
                    ||| !rows[i].kept && !rows[j].kept && places[i] > places[j]
                }
        }),
{
    if sought(typed).len() == 0 {
        seq![]
    } else {
        let first = all_considered(seq![], bookmarks, true, sought(typed));
        let kept = considering_goes_in_order(seq![], bookmarks, true, sought(typed));
        let been = considering_goes_in_order(first, visits.reverse(), false, sought(typed));
        let places = Seq::new(
            (kept.len() + been.len()) as nat,
            |i: int|
                if i < kept.len() {
                    kept[i]
                } else {
                    visits.len() - 1 - been[i - kept.len()]
                },
        );
        let rows = offered(bookmarks, visits, typed);
        assert forall|i: int| 0 <= i < rows.len() implies rows[i].kept == (i < kept.len()) && (
        rows[i].kept ==> 0 <= places[i] < bookmarks.len() && rows[i].url
            == bookmarks[places[i]].url && rows[i].title == bookmarks[places[i]].title) && (
        !rows[i].kept ==> 0 <= places[i] < visits.len() && rows[i].url == visits[places[i]].url
            && rows[i].title == visits[places[i]].title) by {
            if i < kept.len() {
                assert(rows[i] == first[i]);
                assert(places[i] == kept[i]);
            } else {
                let j = i - kept.len();
                assert(0 <= been[j] < visits.len());
                assert(visits.reverse()[been[j]] == visits[visits.len() - 1 - been[j]]);
                assert(rows[first.len() + j].url == visits.reverse()[been[j]].url);
            }
        }
        assert forall|i: int, j: int| 0 <= i < j < rows.len() implies {
            ||| rows[i].kept && rows[j].kept && #[trigger] places[i] < #[trigger] places[j]
            ||| rows[i].kept && !rows[j].kept
            ||| !rows[i].kept && !rows[j].kept && places[i] > places[j]
        } by {
            if i >= kept.len() {
                assert(been[i - kept.len()] < been[j - kept.len()]);
            } else if j < kept.len() {
                assert(kept[i] < kept[j]);
            }
        }
        places
    }
}

/// Whatever was typed, every page kept and every place visited that answers it is offered, or
/// as many others are as there is room for: six. Nothing typed is answered by nothing, and a
/// field the reader is not in offers nothing.
pub proof fn what_answers_is_offered_while_there_is_room(
    s: State,
    typed: Seq<char>,
    place: PlaceView,
)
    ensures
        ({
            let rows = suggestions_refreshed(s, true, typed).chrome.suggestions;
            &&& sought(typed).len() > 0 && (s.bookmarks.contains(place) || s.visits.contains(place))
                && (holds(lowercase(place.url), sought(typed)) || holds(
                lowercase(place.title),
                sought(typed),
            )) ==> rows.len() >= 6 || exists|i: int|
                0 <= i < rows.len() && (#[trigger] rows[i]).url == place.url
            &&& sought(typed).len() == 0 ==> rows.len() == 0
            &&& suggestions_refreshed(s, false, typed).chrome.suggestions.len() == 0
            &&& suggestions_refreshed(s, true, typed).tabs == s.tabs
        }),
{
    let rows = offered(s.bookmarks, s.visits, typed);
    if sought(typed).len() > 0 && answers(place, sought(typed)) {
        let first = all_considered(seq![], s.bookmarks, true, sought(typed));
        let been = considering_goes_in_order(first, s.visits.reverse(), false, sought(typed));
        if s.bookmarks.contains(place) {
            let k = choose|k: int| 0 <= k < s.bookmarks.len() && s.bookmarks[k] == place;
            considering_leaves_none_out(seq![], s.bookmarks, true, sought(typed), k);
            if is_offered(first, place.url) {
                let i = choose|i: int| 0 <= i < first.len() && (#[trigger] first[i]).url
                    == place.url;
                assert(rows[i] == first[i]);
            }
        } else if s.visits.contains(place) {
            let k = choose|k: int| 0 <= k < s.visits.len() && s.visits[k] == place;
            let back = s.visits.len() - 1 - k;
            assert(s.visits.reverse()[back] == place);
            considering_leaves_none_out(first, s.visits.reverse(), false, sought(typed), back);
        }
    }
}

/// The menu asked for on the page offers what can be done there: something about a link where
/// there is one under it, something about what is selected where there is any, and to go back
/// and forward, which can be chosen exactly where there is somewhere to go.
pub proof fn the_menu_offers_what_can_be_done(
    link: bool,
    selection: bool,
    back: bool,
    forward: bool,
)
    ensures
        ({
            let rows = context_rows(link, selection, back, forward);
            &&& rows.contains(ContextRow::Command(ContextCommand::OpenLinkInNewTab, true)) == link
            &&& rows.contains(ContextRow::Command(ContextCommand::CopyLinkAddress, true)) == link
            &&& rows.contains(ContextRow::Command(ContextCommand::CopySelection, true))
                == selection
            &&& rows.contains(ContextRow::Command(ContextCommand::Back, back))
            &&& !rows.contains(ContextRow::Command(ContextCommand::Back, !back))
            &&& rows.contains(ContextRow::Command(ContextCommand::Forward, forward))
            &&& !rows.contains(ContextRow::Command(ContextCommand::Forward, !forward))
            &&& rows.contains(ContextRow::Command(ContextCommand::Reload, true))
            &&& rows.contains(ContextRow::Command(ContextCommand::SelectAll, true))
            &&& rows.last() == ContextRow::Command(ContextCommand::InspectElement, true)
            &&& forall|i: int|
                0 <= i < rows.len() && (#[trigger] rows[i]) is Command && !(rows[i]->0
                    == ContextCommand::Back || rows[i]->0 == ContextCommand::Forward)
                    ==> rows[i]->1
        }),
{
    let rows = context_rows(link, selection, back, forward);
    let n = rows.len() as int;
    assert(rows[n - 6] == ContextRow::Command(ContextCommand::Back, back));
    assert(rows[n - 5] == ContextRow::Command(ContextCommand::Forward, forward));
    assert(rows[n - 4] == ContextRow::Command(ContextCommand::Reload, true));
    assert(rows[n - 2] == ContextRow::Command(ContextCommand::SelectAll, true));
    if link {
        assert(rows[0] == ContextRow::Command(ContextCommand::OpenLinkInNewTab, true));
        assert(rows[1] == ContextRow::Command(ContextCommand::CopyLinkAddress, true));
    }
    if selection {
        assert(rows[n - 8] == ContextRow::Command(ContextCommand::CopySelection, true));
    }
}

/// A menu asked for over a document opens over what is there, with the rows that fit it, and
/// has the keyboard; one asked for anywhere else opens nothing, and closes what was open.
pub proof fn a_menu_opens_over_a_document(
    s: State,
    context: ContextTarget,
    over_page: bool,
    selection: bool,
)
    ensures
        ({
            let after = menu_requested(s, context, over_page, selection);
            let opens = over_page && s.tab().page is Some;
            &&& after.tabs == s.tabs
            &&& after.chrome.suggestions.len() == 0
            &&& opens ==> {
                &&& after.context == Some(context)
                &&& after.keyboard == Surface::Chrome
                &&& after.chrome.menu is Some
                &&& after.chrome.menu->0.contains(
                    ContextRow::Command(ContextCommand::Back, s.tab().position > 0),
                )
                &&& after.chrome.menu->0.contains(
                    ContextRow::Command(
                        ContextCommand::Forward,
                        s.tab().position + 1 < s.tab().history.len(),
                    ),
                )
                &&& after.chrome.menu->0.contains(
                    ContextRow::Command(ContextCommand::OpenLinkInNewTab, true),
                ) == context.link is Some
                &&& after.chrome.menu->0.contains(
                    ContextRow::Command(ContextCommand::CopySelection, true),
                ) == selection
            }
            &&& !opens ==> after.chrome.menu is None && after.keyboard == s.keyboard
        }),
{
    the_menu_offers_what_can_be_done(
        context.link is Some,
        selection,
        s.tab().position > 0,
        s.tab().position + 1 < s.tab().history.len(),
    );
}

} // verus!
