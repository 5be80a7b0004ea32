//! What a command comes to, wherever it is given from: the interface, the menu bar or the
//! menu asked for on the page. Each is told by what can be seen of the browser after it.

use vstd::prelude::*;

use crate::address::{bookmark_toggled, is_kept, kept_without};
use crate::browser::{
    saying, started, Bookmarked, CacheMode, Command, ContextCommand, PlaceView, Settings, State,
    Surface, Target,
};
use crate::departures::{
    a_page_of_its_own_opens_beside_what_is_read, a_reload_asks_again_for_where_it_is,
    a_reload_ignoring_the_cache_asks_the_server_alone, giving_up_waits_for_nothing,
    going_along_the_history_is_on_that_entry, has_come_to_page, home_is_where_the_preferences_say,
    is_on_entry, loads_again,
};
use crate::find::a_step_shows_the_match_it_lands_on;
use crate::input::{
    gone_by_menu, menu_applied, page_by_menu, page_opened_by, reader_answered, tabs_by_menu,
    MenuCommand, ReaderAction,
};
use crate::journeys::{asked_for_document, going_somewhere_waits_for_it, waits_for_document};
use crate::offering::{
    applied, context_applied, context_taken, gone_as_told, inspector_shown, page_as_told,
    tabs_as_told, PageFacts, UiAction,
};
use crate::promises::others_untouched;
use crate::strip::{
    a_tab_that_was_opened_has_been_nowhere, closing_a_tab_leaves_the_others, is_as_it_was,
    the_other_tabs_keep_their_order, turning_to_a_tab_gives_the_keyboard_to_what_it_shows,
};
use crate::surface::activated;
use crate::system::{page_at, SystemPage};
use crate::tab::TabId;
use crate::text::blank;
use crate::zoom::{
    a_step_in_is_larger_until_the_end, a_step_out_is_smaller_until_the_end, LARGEST, SMALLEST,
};

verus! {

/// Back on the interface goes to the entry before the one the tab is on, of the same history;
/// where there is none, nothing changes.
pub proof fn back_on_the_interface_is_the_entry_before(s: State, facts: PageFacts)
    requires
        s.wf(),
    ensures
        0 < s.tab().position < s.tab().history.len() ==> is_on_entry(
            s,
            applied(s, UiAction::Back, facts),
            s.tab().position - 1,
        ),
        s.tab().position == 0 ==> applied(s, UiAction::Back, facts) == s,
{
    reveal(gone_as_told);
    going_along_the_history_is_on_that_entry(s, -1);
}

/// Forward on the interface goes to the entry after the one the tab is on, of the same
/// history; where there is none, nothing changes.
pub proof fn forward_on_the_interface_is_the_entry_after(s: State, facts: PageFacts)
    requires
        s.wf(),
    ensures
        0 <= s.tab().position && s.tab().position + 1 < s.tab().history.len() ==> is_on_entry(
            s,
            applied(s, UiAction::Forward, facts),
            s.tab().position + 1,
        ),
        s.tab().position + 1 >= s.tab().history.len() ==> applied(s, UiAction::Forward, facts) == s,
{
    reveal(gone_as_told);
    going_along_the_history_is_on_that_entry(s, 1);
}

/// Back in the menu bar is the interface's own.
pub proof fn back_in_the_menu_bar_is_the_entry_before(
    s: State,
    refused: bool,
    home: Option<String>,
)
    requires
        s.wf(),
    ensures
        0 < s.tab().position < s.tab().history.len() ==> is_on_entry(
            s,
            menu_applied(s, MenuCommand::Back, refused, home),
            s.tab().position - 1,
        ),
        s.tab().position == 0 ==> menu_applied(s, MenuCommand::Back, refused, home) == s,
{
    reveal(gone_by_menu);
    going_along_the_history_is_on_that_entry(s, -1);
}

/// Forward in the menu bar is the interface's own.
pub proof fn forward_in_the_menu_bar_is_the_entry_after(
    s: State,
    refused: bool,
    home: Option<String>,
)
    requires
        s.wf(),
    ensures
        0 <= s.tab().position && s.tab().position + 1 < s.tab().history.len() ==> is_on_entry(
            s,
            menu_applied(s, MenuCommand::Forward, refused, home),
            s.tab().position + 1,
        ),
        s.tab().position + 1 >= s.tab().history.len() ==> menu_applied(
            s,
            MenuCommand::Forward,
            refused,
            home,
        ) == s,
{
    reveal(gone_by_menu);
    going_along_the_history_is_on_that_entry(s, 1);
}

/// Back in the menu asked for on the page is the interface's own, and the menu is about
/// nothing any more.
pub proof fn back_in_the_context_menu_is_the_entry_before(s: State, facts: PageFacts)
    requires
        s.wf(),
        s.context is Some,
    ensures
        0 < s.tab().position < s.tab().history.len() ==> is_on_entry(
            State { context: None, ..s },
            context_applied(s, ContextCommand::Back, facts),
            s.tab().position - 1,
        ),
        s.tab().position == 0 ==> context_applied(s, ContextCommand::Back, facts) == (State {
            context: None,
            ..s
        }),
{
    reveal(context_applied);
    let closed = context_taken(s);
    assert(closed.tab() == s.tab());
    going_along_the_history_is_on_that_entry(closed, -1);
}

/// Forward in the menu asked for on the page is the interface's own, and the menu is about
/// nothing any more.
pub proof fn forward_in_the_context_menu_is_the_entry_after(s: State, facts: PageFacts)
    requires
        s.wf(),
        s.context is Some,
    ensures
        0 <= s.tab().position && s.tab().position + 1 < s.tab().history.len() ==> is_on_entry(
            State { context: None, ..s },
            context_applied(s, ContextCommand::Forward, facts),
            s.tab().position + 1,
        ),
        s.tab().position + 1 >= s.tab().history.len() ==> context_applied(
            s,
            ContextCommand::Forward,
            facts,
        ) == (State { context: None, ..s }),
{
    reveal(context_applied);
    let closed = context_taken(s);
    assert(closed.tab() == s.tab());
    going_along_the_history_is_on_that_entry(closed, 1);
}

/// An address the reader gives the interface is gone to, whatever the page being read may
/// reach, and earns an entry.
pub proof fn the_interface_goes_where_the_reader_says(s: State, target: Target, facts: PageFacts)
    requires
        s.wf(),
        page_at(target.url@) is None,
    ensures
        ({
            let after = applied(s, UiAction::Navigate(target), facts);
            &&& asked_for_document(s, after, target.url@)
            &&& waits_for_document(s, after, target.url@)
            &&& after.tab().pending->0.record
            &&& after.tab().position == s.tab().position
            &&& after.script_hops == 0
            &&& others_untouched(s, after)
        }),
{
    reveal(gone_as_told);
    going_somewhere_waits_for_it(s, target, true);
}

/// Reloading and giving up from the interface are of the tab being read, and opening one of
/// the browser's own pages opens it beside that.
pub proof fn the_interface_reloads_stops_and_opens(s: State, page: SystemPage, facts: PageFacts)
    requires
        s.wf(),
    ensures
        page_at(s.tab().url) is None && s.tab().url.len() > 0 && !facts.refused ==> loads_again(
            s,
            applied(s, UiAction::Reload, facts),
            CacheMode::Revalidate,
        ),
        applied(s, UiAction::Stop, facts).tab().pending is None,
        applied(s, UiAction::Stop, facts).tab().url == s.tab().url,
        applied(s, UiAction::Stop, facts).tab().page == s.tab().page,
        applied(s, UiAction::Stop, facts).requests == s.requests,
        others_untouched(s, applied(s, UiAction::Stop, facts)),
        has_come_to_page(applied(s, UiAction::OpenPage(page), facts), page),
        applied(s, UiAction::OpenPage(page), facts).requests == s.requests,
        applied(s, UiAction::Settled, facts) == s,
{
    reveal(gone_as_told);
    if page_at(s.tab().url) is None {
        a_reload_asks_again_for_where_it_is(s);
    }
    giving_up_waits_for_nothing(s);
    a_page_of_its_own_opens_beside_what_is_read(s, page);
}

/// The interface's commands on tabs do what they say to the tab they name: a new one is opened
/// at the end and turned to, the one named is closed, and the one named is turned to.
pub proof fn the_interface_opens_closes_and_turns_to_tabs(s: State, index: usize, facts: PageFacts)
    requires
        s.wf(),
        index < s.tabs.len(),
    ensures
        ({
            let opened = applied(s, UiAction::NewTab, facts);
            &&& opened.tabs.len() == s.tabs.len() + 1
            &&& opened.active == s.tabs.len()
            &&& opened.tabs.drop_last() == s.tabs
            &&& opened.tab().url.len() == 0
        }),
        s.tabs.len() > 1 ==> {
            let closed = applied(s, UiAction::CloseTab(index), facts);
            &&& closed.tabs.len() == s.tabs.len() - 1
            &&& forall|i: int|
                0 <= i < index ==> is_as_it_was(
                    s.tabs[i],
                    #[trigger] closed.tabs[i],
                    i == closed.active,
                )
            &&& forall|i: int|
                index <= i < closed.tabs.len() ==> is_as_it_was(
                    s.tabs[i + 1],
                    #[trigger] closed.tabs[i],
                    i == closed.active,
                )
        },
        ({
            let turned = applied(s, UiAction::SelectTab(index), facts);
            &&& turned.active == index
            &&& turned.tabs.len() == s.tabs.len()
            &&& turned.chrome.address == s.tabs[index as int].url
        }),
{
    reveal(tabs_as_told);
    a_tab_that_was_opened_has_been_nowhere(s);
    if s.tabs.len() > 1 {
        closing_a_tab_leaves_the_others(s, index as int);
    }
    turning_to_a_tab_gives_the_keyboard_to_what_it_shows(s, index as int);
}

/// The interface carries the tab it names to the place it names.
pub proof fn the_interface_carries_a_tab(s: State, from: int, to: usize, facts: PageFacts)
    requires
        s.wf(),
        0 <= from < s.tabs.len(),
        forall|j: int| 0 <= j < from ==> (#[trigger] s.tabs[j]).id != s.tabs[from].id,
    ensures
        ({
            let after = applied(s, UiAction::MoveTab { id: s.tabs[from].id, to }, facts).tabs;
            &&& after.len() == s.tabs.len()
            &&& to < s.tabs.len() ==> after[to as int] == s.tabs[from]
            &&& to >= s.tabs.len() ==> after.last() == s.tabs[from]
        }),
{
    reveal(tabs_as_told);
    the_other_tabs_keep_their_order(s, from, to as int);
}

/// The interface steps through what the bar found the way it says.
pub proof fn the_interface_steps_through_what_was_found(s: State, facts: PageFacts)
    requires
        s.wf(),
        s.tab().page is Some,
        s.tab().page->0.search is Some,
        s.tab().page->0.search->0.query.len() > 0,
        s.tab().page->0.search->0.total > 1,
        s.chrome.finding == Some(s.tab().page->0.search->0.query),
    ensures
        ({
            let search = s.tab().page->0.search->0;
            let on = applied(s, UiAction::FindStep(true), facts).tab().page->0.search->0;
            let back = applied(s, UiAction::FindStep(false), facts).tab().page->0.search->0;
            &&& on.query == search.query && back.query == search.query
            &&& search.at + 1 < search.total ==> on.at == search.at + 1
            &&& search.at + 1 == search.total ==> on.at == 0
            &&& search.at > 0 ==> back.at == search.at - 1
            &&& search.at == 0 ==> back.at == search.total - 1
        }),
{
    reveal(page_as_told);
    a_step_shows_the_match_it_lands_on(s, true, facts.occurrences);
    a_step_shows_the_match_it_lands_on(s, false, facts.occurrences);
}

/// Resetting the zoom draws the page at its own size, and showing or hiding the developer
/// tools shows them exactly where they were hidden, whoever asks for it.
pub proof fn zoom_and_tools_are_what_was_asked_for(
    s: State,
    facts: PageFacts,
    refused: bool,
    home: Option<String>,
)
    ensures
        applied(s, UiAction::ResetZoom, facts).zoom == 1_000_000,
        menu_applied(s, MenuCommand::ActualSize, refused, home).zoom == 1_000_000,
        SMALLEST <= s.zoom < LARGEST ==> menu_applied(s, MenuCommand::ZoomIn, refused, home).zoom
            > s.zoom,
        SMALLEST < s.zoom <= LARGEST ==> menu_applied(s, MenuCommand::ZoomOut, refused, home).zoom
            < s.zoom,
        applied(s, UiAction::ToggleInspector, facts).inspector.open == !s.inspector.open,
        menu_applied(s, MenuCommand::ToggleDevTools, refused, home).inspector.open
            == !s.inspector.open,
        !s.inspector.open ==> applied(s, UiAction::ToggleInspector, facts).keyboard
            == Surface::Inspector,
        applied(s, UiAction::ToggleInspector, facts).tabs == s.tabs,
{
    reveal(page_as_told);
    reveal(page_by_menu);
    if SMALLEST <= s.zoom <= LARGEST {
        a_step_in_is_larger_until_the_end(s.zoom);
        a_step_out_is_smaller_until_the_end(s.zoom);
    }
}

/// Keeping the page being read puts it last among those kept, under its title, or under its
/// address where it has none; dropping it drops every one kept at its address, and none else.
/// The star says which it is. A tab with no address keeps nothing.
pub proof fn keeping_a_page_keeps_it_last(s: State)
    requires
        s.wf(),
    ensures
        ({
            let url = s.tab().url;
            let title = if blank(s.tab().title) {
                url
            } else {
                s.tab().title
            };
            let after = bookmark_toggled(s);
            let there = exists|i: int|
                0 <= i < s.bookmarks.len() && (#[trigger] s.bookmarks[i]).url == url;
            &&& blank(url) ==> after == s
            &&& !blank(url) && !there ==> {
                &&& after.bookmarks.len() == s.bookmarks.len() + 1
                &&& after.bookmarks.drop_last() == s.bookmarks
                &&& after.bookmarks.last().url == url
                &&& after.bookmarks.last().title == title
                &&& after.chrome.bookmark == Bookmarked::Yes
            }
            &&& !blank(url) && there ==> {
                &&& forall|i: int|
                    0 <= i < after.bookmarks.len() ==> (#[trigger] after.bookmarks[i]).url != url
                        && s.bookmarks.contains(after.bookmarks[i])
                &&& forall|i: int|
                    0 <= i < s.bookmarks.len() && (#[trigger] s.bookmarks[i]).url != url
                        ==> after.bookmarks.contains(s.bookmarks[i])
                &&& after.chrome.bookmark == Bookmarked::No
            }
            &&& after.tabs == s.tabs
            &&& after.chrome.address == s.chrome.address
        }),
{
    let url = s.tab().url;
    dropping_drops_no_other(s.bookmarks, url);
    if !is_kept(s.bookmarks, url) && !blank(url) {
        assert(bookmark_toggled(s).bookmarks.drop_last() =~= s.bookmarks);
    }
}

/// Dropping the pages kept at an address leaves none at it, and every other one.
pub proof fn dropping_drops_no_other(kept: Seq<PlaceView>, url: Seq<char>)
    ensures
        ({
            let left = kept_without(kept, url);
            &&& left.len() <= kept.len()
            &&& forall|i: int|
                0 <= i < left.len() ==> (#[trigger] left[i]).url != url && kept.contains(left[i])
            &&& forall|i: int|
                0 <= i < kept.len() && (#[trigger] kept[i]).url != url ==> left.contains(kept[i])
        }),
    decreases kept.len(),
{
    reveal(Seq::filter);
    let left = kept_without(kept, url);
    if kept.len() > 0 {
        let fewer = kept.drop_last();
        dropping_drops_no_other(fewer, url);
        let before = kept_without(fewer, url);
        assert(left == if kept.last().url != url {
            before.push(kept.last())
        } else {
            before
        });
        assert forall|i: int| 0 <= i < left.len() implies (#[trigger] left[i]).url != url
            && kept.contains(left[i]) by {
            if i < before.len() {
                assert(left[i] == before[i]);
                assert(fewer.contains(before[i]));
                let k = choose|k: int| 0 <= k < fewer.len() && fewer[k] == before[i];
                assert(kept[k] == left[i]);
            } else {
                assert(kept[kept.len() - 1] == left[i]);
            }
        }
        assert forall|i: int|
            0 <= i < kept.len() && (#[trigger] kept[i]).url != url implies left.contains(
            kept[i],
        ) by {
            if i < kept.len() - 1 {
                assert(fewer[i] == kept[i]);
                let k = choose|k: int| 0 <= k < before.len() && before[k] == kept[i];
                assert(left[k] == kept[i]);
            } else {
                assert(left[left.len() - 1] == kept[i]);
            }
        }
    }
}

/// The star of the interface and the command of the menu bar are one: each keeps the page
/// being read where it was not kept, and drops it where it was.
pub proof fn the_star_and_the_menu_bar_keep_alike(
    s: State,
    facts: PageFacts,
    refused: bool,
    home: Option<String>,
)
    requires
        s.wf(),
        !blank(s.tab().url),
    ensures
        ({
            let star = applied(s, UiAction::ToggleBookmark, facts).bookmarks;
            let bar = menu_applied(s, MenuCommand::ToggleBookmark, refused, home).bookmarks;
            let url = s.tab().url;
            &&& star == bar
            &&& (exists|i: int| 0 <= i < star.len() && (#[trigger] star[i]).url == url) != (exists|
                i: int,
            |
                0 <= i < s.bookmarks.len() && (#[trigger] s.bookmarks[i]).url == url)
        }),
{
    reveal(page_as_told);
    reveal(page_by_menu);
    keeping_a_page_keeps_it_last(s);
    let star = applied(s, UiAction::ToggleBookmark, facts).bookmarks;
    if !is_kept(s.bookmarks, s.tab().url) {
        assert(star[star.len() - 1].url == s.tab().url);
    }
}

/// The keyboard that walks off the chrome goes on into the document where there is one to go
/// into, and round to the other end of the chrome where there is none.
pub proof fn the_keyboard_leaves_the_chrome_for_the_document(
    s: State,
    forward: bool,
    facts: PageFacts,
)
    ensures
        ({
            let after = applied(s, UiAction::LeaveChrome(forward), facts);
            let enters = s.tab().system is None && s.tab().page is Some && facts.takes_focus;
            &&& enters ==> after.keyboard == Surface::Page && after.accessibility_dirty
            &&& !enters ==> after.told == s.told.push(Command::FocusEdge(forward))
            &&& !enters ==> after.keyboard == s.keyboard
            &&& after.tabs == s.tabs
        }),
{
}

/// Each command of the menu bar that goes somewhere goes there: where the tab is again, where
/// it is from the server alone, nowhere any more, or home.
pub proof fn the_menu_bar_reloads_stops_and_goes_home(s: State, home: Option<String>)
    requires
        s.wf(),
    ensures
        page_at(s.tab().url) is None && s.tab().url.len() > 0 ==> {
            &&& loads_again(
                s,
                menu_applied(s, MenuCommand::Reload, false, home),
                CacheMode::Revalidate,
            )
            &&& loads_again(
                s,
                menu_applied(s, MenuCommand::ReloadIgnoringCache, false, home),
                CacheMode::Bypass,
            )
            &&& menu_applied(s, MenuCommand::ReloadIgnoringCache, false, home).extras.images.len()
                == 0
        },
        menu_applied(s, MenuCommand::Stop, false, home).tab().pending is None,
        menu_applied(s, MenuCommand::Stop, false, home).tab().url == s.tab().url,
        menu_applied(s, MenuCommand::Stop, false, home).requests == s.requests,
        blank(s.settings.home@) ==> menu_applied(s, MenuCommand::Home, false, home) == s,
        !blank(s.settings.home@) && page_at(s.settings.home@) is None ==> asked_for_document(
            s,
            menu_applied(s, MenuCommand::Home, false, home),
            s.settings.home@,
        ),
        menu_applied(s, MenuCommand::Other, false, home) == s,
        menu_applied(s, MenuCommand::Cut, false, home) == s,
        menu_applied(s, MenuCommand::Copy, false, home) == s,
        menu_applied(s, MenuCommand::Paste, false, home) == s,
        menu_applied(s, MenuCommand::SelectAll, false, home) == s,
{
    reveal(gone_by_menu);
    if page_at(s.tab().url) is None && s.tab().url.len() > 0 {
        a_reload_asks_again_for_where_it_is(s);
        a_reload_ignoring_the_cache_asks_the_server_alone(s);
    }
    giving_up_waits_for_nothing(s);
    home_is_where_the_preferences_say(s, home);
}

/// A command of the menu bar that names one of the browser's own pages opens that page, and
/// one that names none opens none.
pub proof fn the_menu_bar_opens_the_page_it_names(
    s: State,
    command: MenuCommand,
    refused: bool,
    home: Option<String>,
)
    requires
        s.wf(),
    ensures
        ({
            let after = menu_applied(s, command, refused, home);
            &&& command == MenuCommand::Settings ==> has_come_to_page(after, SystemPage::Settings)
            &&& command == MenuCommand::ShowHistory ==> has_come_to_page(
                after,
                SystemPage::History,
            )
            &&& command == MenuCommand::ShowDownloads ==> has_come_to_page(
                after,
                SystemPage::Downloads,
            )
            &&& command == MenuCommand::ShowBookmarks ==> has_come_to_page(
                after,
                SystemPage::Bookmarks,
            )
            &&& command == MenuCommand::ShowCookies ==> has_come_to_page(
                after,
                SystemPage::Cookies,
            )
            &&& command == MenuCommand::ShowCache ==> has_come_to_page(after, SystemPage::Cache)
            &&& page_opened_by(command) is Some ==> after.requests == s.requests
        }),
{
    match page_opened_by(command) {
        Some(page) => a_page_of_its_own_opens_beside_what_is_read(s, page),
        None => {},
    }
}

/// The menu bar opens a tab at the end and closes the one being read.
pub proof fn the_menu_bar_opens_and_closes_tabs(s: State, refused: bool, home: Option<String>)
    requires
        s.wf(),
    ensures
        ({
            let opened = menu_applied(s, MenuCommand::NewTab, refused, home);
            &&& opened.tabs.len() == s.tabs.len() + 1
            &&& opened.active == s.tabs.len()
            &&& opened.tabs.drop_last() == s.tabs
        }),
        s.tabs.len() > 1 ==> {
            let closed = menu_applied(s, MenuCommand::CloseTab, refused, home);
            &&& closed.tabs.len() == s.tabs.len() - 1
            &&& forall|i: int|
                0 <= i < s.active ==> is_as_it_was(
                    s.tabs[i],
                    #[trigger] closed.tabs[i],
                    i == closed.active,
                )
            &&& forall|i: int|
                s.active <= i < closed.tabs.len() ==> is_as_it_was(
                    s.tabs[i + 1],
                    #[trigger] closed.tabs[i],
                    i == closed.active,
                )
        },
{
    reveal(tabs_by_menu);
    a_tab_that_was_opened_has_been_nowhere(s);
    if s.tabs.len() > 1 {
        closing_a_tab_leaves_the_others(s, s.active);
    }
}

/// A row of the menu asked for on the page acts on what the menu was asked about, and then the
/// menu is about nothing: copying copies that link's address or what is selected, selecting
/// everything selects it in the document being read, inspecting shows the developer tools
/// and picks where the menu was asked for. With no menu a row is nothing.
pub proof fn a_row_acts_on_what_the_menu_was_asked_about(
    s: State,
    command: ContextCommand,
    facts: PageFacts,
)
    requires
        s.wf(),
    ensures
        s.context is None ==> context_applied(s, command, facts) == s,
        s.context is Some ==> {
            let target = s.context->0;
            let after = context_applied(s, command, facts);
            &&& command == ContextCommand::CopyLinkAddress ==> {
                &&& after.context is None
                &&& after.tabs == s.tabs
                &&& target.link is Some ==> after.told == s.told.push(
                    Command::Copy(target.link->0.url),
                )
                &&& target.link is None ==> after.told == s.told
            }
            &&& command == ContextCommand::CopySelection ==> {
                &&& after.context is None
                &&& after.tabs == s.tabs
                &&& facts.selected is Some ==> after.told == s.told.push(
                    Command::Copy(facts.selected->0),
                )
                &&& facts.selected is None ==> after.told == s.told
            }
            &&& command == ContextCommand::SelectAll ==> {
                &&& after.context is None
                &&& after.tabs == s.tabs
                &&& after.keyboard == Surface::Page
                &&& s.tab().page is Some ==> after.told.contains(Command::SelectAll(s.tab().id))
            }
            &&& command == ContextCommand::InspectElement ==> {
                &&& after.context is None
                &&& after.tabs == s.tabs
                &&& after.inspector.open
                &&& after.keyboard == Surface::Inspector
                &&& after.told.contains(Command::PickAt(target.at))
            }
            &&& command == ContextCommand::OpenLinkInNewTab && target.link is None ==> after
                == (State { context: None, ..s })
        },
{
    reveal(context_applied);
    reveal(saying);
    if s.context is Some {
        let taken = context_taken(s);
        let picking = inspector_shown(taken).telling(Command::PickAt(s.context->0.at));
        let picked = activated(picking, Surface::Inspector);
        assert(picking.told[picking.told.len() - 1] == Command::PickAt(s.context->0.at));
        assert(picked.told[picking.told.len() - 1] == Command::PickAt(s.context->0.at));
        let selecting = taken.telling_if(
            s.tab().page is Some,
            Command::SelectAll(s.tab().id),
        );
        if s.tab().page is Some {
            let at = selecting.told.len() - 1;
            assert(selecting.told[at] == Command::SelectAll(s.tab().id));
            assert(activated(selecting, Surface::Page).told[at] == selecting.told[at]);
        }
    }
}

/// A reload from the menu asked for on the page is a reload of what is being read.
pub proof fn the_context_menu_reloads(s: State, facts: PageFacts)
    requires
        s.wf(),
        s.context is Some,
        page_at(s.tab().url) is None,
        s.tab().url.len() > 0,
        !facts.refused,
    ensures
        loads_again(
            State { context: None, ..s },
            context_applied(s, ContextCommand::Reload, facts),
            CacheMode::Revalidate,
        ),
{
    reveal(context_applied);
    let closed = context_taken(s);
    assert(closed.tab() == s.tab());
    a_reload_asks_again_for_where_it_is(closed);
}

/// A link that a screen reader presses is followed as any link is, where its page may follow
/// it.
pub proof fn a_link_that_a_reader_presses_is_followed(s: State, element: u64, link: Target)
    requires
        s.wf(),
        s.tab().page is Some,
        !link.refused,
        page_at(link.url@) is None,
    ensures
        ({
            let after = reader_answered(
                s,
                Some(element),
                ReaderAction::Activate,
                Some(link),
            );
            &&& asked_for_document(s, after, link.url@)
            &&& waits_for_document(s, after, link.url@)
            &&& after.tab().pending->0.record
            &&& after.script_hops == s.script_hops
        }),
{
    going_somewhere_waits_for_it(s, link, false);
}

/// A browser that was just started has one tab, which shows nothing, and waits for nothing.
pub proof fn a_browser_starts_on_a_blank_tab(counter: u64, settings: Settings)
    ensures
        ({
            let s = started(counter, settings);
            &&& s.tabs.len() == 1
            &&& s.active == 0
            &&& s.tab().id == TabId(counter)
            &&& s.tab().url.len() == 0 && s.tab().page is None && s.tab().system is None
            &&& s.tab().pending is None && s.tab().history.len() == 0
            &&& s.requests.len() == 0 && s.told.len() == 0 && s.finished.len() == 0
            &&& s.visits.len() == 0 && s.bookmarks.len() == 0
            &&& s.chrome.address.len() == 0 && s.chrome.finding is None && s.chrome.menu is None
            &&& s.zoom == 1_000_000 && s.chrome.zoom == 1_000_000
            &&& s.keyboard == Surface::Chrome
            &&& !s.inspector.open && !s.inspector.picking && !s.selecting
            &&& s.interface && s.script_hops == 0
            &&& s.next_cache_mode == CacheMode::Default
            &&& s.accepts_third_party == !settings.block_third_party_cookies
            &&& s.extras.images.len() == 0
        }),
{
}

} // verus!
