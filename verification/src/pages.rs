//! Acting on what the browser's own pages report, and what their dialogues open with.
//!
//! Each of these pages settles its own state and says what it could not do itself: going
//! somewhere, emptying a store, writing a file, leaving.

use vstd::prelude::*;

use crate::address::{address_synced, kept_without};
use crate::browser::{
    changing_a_tab_is_sound, each_tab_is_sound, Browser, Command, Destination, PlaceView, Settings,
    State, Surface, Target,
};
use crate::commands::dropping_drops_no_other;
use crate::departures::{going_along_the_history_is_on_that_entry, is_on_entry};
use crate::journeys::{asked_for_document, going_somewhere_waits_for_it, waits_for_document};
use crate::navigation::{navigated, travelled};
use crate::promises::{others_untouched, what_a_page_may_not_reach_is_not_fetched};
use crate::strip::{activating_changes_no_tab, ready_to_type, showing_an_address_changes_no_tab};
use crate::system::page_at;
use crate::tab::{Tab, TabView};

verus! {

/// The most of one file that is held in memory to be sent.
///
/// A form is sent long after the dialogue closed, and by then the file may have moved, so
/// what was chosen is read when it is chosen: 256 MiB of it at the most.
pub const LARGEST_FILE: u64 = 268_435_456;

/// What the settings page could not do itself.
#[derive(Debug)]
pub enum SettingsAction {
    Close,
    /// The dialogue that asks where downloads go was closed, on this folder if on one.
    DownloadDirectoryChosen(Option<String>),
    /// Something the page has applied to the preferences already.
    Applied,
}

/// What the history page could not do itself.
#[derive(Debug)]
pub enum HistoryAction {
    Open(Target),
    Clear,
    Close,
    Settled,
}

/// What the bookmarks page could not do itself.
#[derive(Debug)]
pub enum BookmarksAction {
    Open(Target),
    Remove(String),
    Clear,
    Close,
    Settled,
}

/// What the cookies page could not do itself.
#[derive(Debug)]
pub enum CookiesAction {
    ClearSite(String),
    Clear,
    Close,
    Settled,
}

/// What the cache page could not do itself.
#[derive(Clone, Copy, Debug, PartialEq, Eq, Structural)]
pub enum CacheAction {
    Clear,
    Close,
    Settled,
}

/// How a download that failed was being written.
#[derive(Debug)]
pub enum Attempt {
    /// To a file the reader named.
    Exact(String),
    /// Into the download folder, under this name.
    Into(String),
}

/// What the downloads page could not do itself.
#[derive(Debug)]
pub enum DownloadsAction {
    Clear,
    /// Write this one to the file the reader named, if they named one.
    Save(u64, Option<String>),
    /// Write this one again, if it is still there.
    Retry(u64, Option<Attempt>),
    Close,
    Settled,
}

/// What a dialogue that asks for a file or a folder opens with.
#[derive(Debug)]
pub struct Dialogue {
    pub filename: Option<String>,
    /// The folder it opens in, where it is told one.
    pub directory: Option<String>,
}

/// What a tab is once the page of the browser's own in it has been closed.
pub open spec fn left_blank(tab: TabView) -> TabView {
    TabView { system: None, url: seq![], site: None, title: "New tab"@, ..tab }
}

/// A browser that leaves the page of its own being shown: back if there is a back, a
/// blank tab if there is not.
pub open spec fn system_closed(s: State) -> State {
    if s.tab().has_back() {
        travelled(s, -1)
    } else {
        ready_to_type(s.with_tab(left_blank(s.tab())))
    }
}

/// A browser whose cookies are kept by what the preference says.
pub open spec fn policy_synced(s: State) -> State {
    State { accepts_third_party: !s.settings.block_third_party_cookies, ..s }
}

/// A browser whose downloads go to `directory`.
pub open spec fn downloads_go_to(s: State, directory: String) -> State {
    State { settings: Settings { download_directory: Some(directory), ..s.settings }, ..s }
}

/// A browser that has done what the settings page reported.
pub open spec fn settings_applied(s: State, action: SettingsAction) -> State {
    let synced = policy_synced(s);
    match action {
        SettingsAction::Close => system_closed(synced),
        SettingsAction::DownloadDirectoryChosen(Some(directory)) => downloads_go_to(
            synced,
            directory,
        ).telling(Command::SavePreferences),
        SettingsAction::DownloadDirectoryChosen(None) => synced,
        SettingsAction::Applied => synced,
    }
}

/// A browser that has been nowhere.
pub open spec fn visits_forgotten(s: State) -> State {
    State { visits: seq![], ..s }
}

/// A browser that has done what the history page reported.
pub open spec fn history_applied(s: State, action: HistoryAction) -> State {
    match action {
        HistoryAction::Open(target) => navigated(s, target, false),
        HistoryAction::Clear => visits_forgotten(s).telling(Command::ClearVisits),
        HistoryAction::Close => system_closed(s),
        HistoryAction::Settled => s,
    }
}

/// A browser that keeps these.
pub open spec fn keeping(s: State, bookmarks: Seq<PlaceView>) -> State {
    State { bookmarks, ..s }
}

/// A browser that has done what the bookmarks page reported.
pub open spec fn bookmarks_applied(s: State, action: BookmarksAction) -> State {
    match action {
        BookmarksAction::Open(target) => navigated(s, target, false),
        BookmarksAction::Remove(url) => keeping(s, kept_without(s.bookmarks, url@)),
        BookmarksAction::Clear => keeping(s, seq![]),
        BookmarksAction::Close => system_closed(s),
        BookmarksAction::Settled => s,
    }
}

/// A browser that has done what the cookies page reported.
pub open spec fn cookies_applied(s: State, action: CookiesAction) -> State {
    match action {
        CookiesAction::ClearSite(site) => s.telling(Command::ClearSite(site)).telling(
            Command::FlushCookies,
        ),
        CookiesAction::Clear => s.telling(Command::ClearCookies).telling(Command::FlushCookies),
        CookiesAction::Close => system_closed(s),
        CookiesAction::Settled => s,
    }
}

/// A browser that has done what the cache page reported.
pub open spec fn cache_applied(s: State, action: CacheAction) -> State {
    match action {
        CacheAction::Clear => s.telling(Command::ClearCache),
        CacheAction::Close => system_closed(s),
        CacheAction::Settled => s,
    }
}

/// Where a download that failed is written this time.
pub open spec fn retried_at(attempt: Attempt, directory: String) -> Destination {
    match attempt {
        Attempt::Exact(path) => Destination::Exact(path),
        Attempt::Into(filename) => Destination::Into { directory, filename },
    }
}

/// A browser that has done what the downloads page reported.
pub open spec fn downloads_applied(s: State, action: DownloadsAction) -> State {
    match action {
        DownloadsAction::Clear => s.telling(Command::ClearDownloads),
        DownloadsAction::Save(id, Some(path)) => s.telling(
            Command::Save(id, Destination::Exact(path)),
        ),
        DownloadsAction::Save(_, None) => s,
        DownloadsAction::Retry(id, attempt) => match (s.settings.download_directory, attempt) {
            (Some(directory), Some(attempt)) => s.telling(
                Command::Save(id, retried_at(attempt, directory)),
            ),
            _ => s,
        },
        DownloadsAction::Close => system_closed(s),
        DownloadsAction::Settled => s,
    }
}

/// The folder a dialogue is told to open in: only one that is there.
pub open spec fn opens_in(directory: Option<String>, is_there: bool) -> Option<String> {
    if is_there {
        directory
    } else {
        None
    }
}

/// What the dialogue that asks where to write one download opens with.
///
/// Only a folder that is there is named: a dialogue told to open somewhere that does not
/// exist opens somewhere of its own choosing on some platforms and refuses on others, and
/// neither is what the preference meant.
pub fn choose_download_path(filename: String, directory: Option<String>, is_there: bool) -> (dialogue:
    Dialogue)
    ensures
        dialogue == (Dialogue {
            filename: Some(filename),
            directory: opens_in(directory, is_there),
        }),
{
    Dialogue {
        filename: Some(filename),
        directory: if is_there {
            directory
        } else {
            None
        },
    }
}

/// What the dialogue that asks where downloads go opens with.
pub fn choose_download_directory(current: Option<String>, is_there: bool) -> (dialogue: Dialogue)
    ensures
        dialogue == (Dialogue { filename: None, directory: opens_in(current, is_there) }),
{
    Dialogue {
        filename: None,
        directory: if is_there {
            current
        } else {
            None
        },
    }
}

/// The file name extension a hint of a file picker names, if it names one.
pub open spec fn extension_of(hint: Seq<char>) -> Option<Seq<char>> {
    if hint.len() > 0 && hint[0] == '.' {
        Some(hint.skip(1))
    } else {
        None
    }
}

/// The file name extensions the hints of a file picker name, in their order.
pub open spec fn extensions_of(hints: Seq<Seq<char>>) -> Seq<Seq<char>>
    decreases hints.len(),
{
    if hints.len() == 0 {
        seq![]
    } else {
        match extension_of(hints.last()) {
            Some(extension) => extensions_of(hints.drop_last()).push(extension),
            None => extensions_of(hints.drop_last()),
        }
    }
}

/// The file name extension a hint names, if it names one.
fn extension(hint: &str) -> (extension: Option<String>)
    ensures
        extension.deep_view() == extension_of(hint@),
{
    let mut rest = String::new();
    let mut dotted = false;
    let mut first = true;
    for character in it: hint.chars()
        invariant
            it.seq() == hint@,
            first == (it.index() == 0),
            dotted == (it.index() > 0 && hint@[0] == '.'),
            rest@ == if it.index() == 0 {
                Seq::<char>::empty()
            } else {
                hint@.subrange(1, it.index() as int)
            },
    {
        if first {
            first = false;
            dotted = character == '.';
            assert(hint@.subrange(1, 1) =~= Seq::<char>::empty());
        } else {
            let ghost before = rest@;
            rest.push(character);
            assert(rest@ =~= hint@.subrange(1, it.index() + 1));
        }
    }
    if dotted {
        assert(rest@ =~= hint@.skip(1));
        Some(rest)
    } else {
        None
    }
}

/// The file name extensions the hints of a file picker name: the only hints its dialogue
/// takes. A media type is a hint about kinds it has no list for.
pub fn extensions(hints: &Vec<String>) -> (extensions: Vec<String>)
    ensures
        extensions.deep_view() == extensions_of(hints.deep_view()),
{
    let ghost all = hints.deep_view();
    let mut extensions: Vec<String> = Vec::new();
    let mut at: usize = 0;
    proof {
        assert(all.take(0) =~= seq![]);
        assert(extensions.deep_view() =~= seq![]);
    }
    while at < hints.len()
        invariant
            at <= hints.len(),
            all == hints.deep_view(),
            extensions.deep_view() == extensions_of(all.take(at as int)),
        decreases hints.len() - at,
    {
        proof {
            let longer = all.take(at + 1);
            assert(longer.drop_last() =~= all.take(at as int));
            assert(longer.last() == all[at as int]);
        }
        let ghost before = extensions.deep_view();
        match extension(hints[at].as_str()) {
            Some(one) => {
                extensions.push(one);
                assert(extensions.deep_view() =~= before.push(one@));
            },
            None => {},
        }
        at = at + 1;
    }
    assert(all.take(all.len() as int) =~= all);
    extensions
}

/// Whether a file of this size is small enough to be sent.
pub fn may_send(size: u64) -> (answer: bool)
    ensures
        answer == (size <= LARGEST_FILE),
{
    size <= LARGEST_FILE
}

impl Tab {
    /// Show nothing.
    fn leave_blank(&mut self)
        ensures
            final(self)@ == left_blank(old(self)@),
    {
        self.system = None;
        self.url = String::new();
        self.site = None;
        self.title = "New tab".to_owned();
    }
}

impl Browser {
    /// Show nothing in the active tab.
    fn leave_blank(&mut self)
        requires
            old(self).wf(),
        ensures
            final(self).wf(),
            final(self)@ == old(self)@.with_tab(left_blank(old(self)@.tab())),
    {
        proof {
            reveal(Browser::state);
        }
        let ghost before = self@;
        let index: usize = self.active;
        self.tabs[index].leave_blank();
        proof {
            assert(self@.tabs =~= before.tabs.update(index as int, self@.tabs[index as int]));
            changing_a_tab_is_sound(before, index as int, self@.tabs[index as int]);
        }
    }

    /// Leave the page of the browser's own being shown: back if there is a back, a blank
    /// tab if there is not.
    pub fn close_system_page(&mut self)
        requires
            old(self).wf(),
        ensures
            final(self).wf(),
            final(self)@ == system_closed(old(self)@),
    {
        if self.can_go_back() {
            self.go_back();
            return;
        }
        self.leave_blank();
        self.make_ready_to_type();
    }

    /// Have downloads go to `directory`.
    fn set_download_directory(&mut self, directory: String)
        requires
            old(self).wf(),
        ensures
            final(self).wf(),
            final(self)@ == downloads_go_to(old(self)@, directory),
    {
        proof {
            reveal(Browser::state);
        }
        self.settings.download_directory = Some(directory);
    }

    /// Do what the settings page reported and could not do itself.
    ///
    /// The cookie policy follows the preference whatever was reported: the page has
    /// written every change into the preferences already, and the policy is the one thing
    /// a preference reaches that is not read back out of them on use.
    pub fn handle_settings_action(&mut self, action: SettingsAction)
        requires
            old(self).wf(),
        ensures
            final(self).wf(),
            final(self)@ == settings_applied(old(self)@, action),
    {
        self.sync_cookie_policy();
        match action {
            SettingsAction::Close => self.close_system_page(),
            SettingsAction::DownloadDirectoryChosen(Some(directory)) => {
                self.set_download_directory(directory);
                self.tell(Command::SavePreferences);
            },
            SettingsAction::DownloadDirectoryChosen(None) => {},
            SettingsAction::Applied => {},
        }
    }

    /// Forget everywhere the browser has been.
    fn forget_visits(&mut self)
        requires
            old(self).wf(),
        ensures
            final(self).wf(),
            final(self)@ == visits_forgotten(old(self)@),
    {
        proof {
            reveal(Browser::state);
        }
        self.visits = Vec::new();
        assert(self@.visits =~= seq![]);
    }

    /// Do what the history page reported.
    pub fn handle_history_action(&mut self, action: HistoryAction)
        requires
            old(self).wf(),
        ensures
            final(self).wf(),
            final(self)@ == history_applied(old(self)@, action),
    {
        match action {
            HistoryAction::Open(target) => self.navigate_from(target, false),
            HistoryAction::Clear => {
                self.forget_visits();
                self.tell(Command::ClearVisits);
            },
            HistoryAction::Close => self.close_system_page(),
            HistoryAction::Settled => {},
        }
    }

    /// Stop keeping the page at `url`.
    fn drop_bookmark(&mut self, url: &String)
        requires
            old(self).wf(),
        ensures
            final(self).wf(),
            final(self)@ == keeping(old(self)@, kept_without(old(self)@.bookmarks, url@)),
    {
        proof {
            reveal(Browser::state);
        }
        let mut kept: Vec<crate::browser::Place> = Vec::new();
        std::mem::swap(&mut kept, &mut self.bookmarks);
        self.bookmarks = crate::address::drop_place(kept, url);
    }

    /// Stop keeping any page.
    fn drop_bookmarks(&mut self)
        requires
            old(self).wf(),
        ensures
            final(self).wf(),
            final(self)@ == keeping(old(self)@, seq![]),
    {
        proof {
            reveal(Browser::state);
        }
        self.bookmarks = Vec::new();
        assert(self@.bookmarks =~= seq![]);
    }

    /// Do what the bookmarks page reported.
    pub fn handle_bookmarks_action(&mut self, action: BookmarksAction)
        requires
            old(self).wf(),
        ensures
            final(self).wf(),
            final(self)@ == bookmarks_applied(old(self)@, action),
    {
        match action {
            BookmarksAction::Open(target) => self.navigate_from(target, false),
            BookmarksAction::Remove(url) => self.drop_bookmark(&url),
            BookmarksAction::Clear => self.drop_bookmarks(),
            BookmarksAction::Close => self.close_system_page(),
            BookmarksAction::Settled => {},
        }
    }

    /// Do what the cookies page reported.
    ///
    /// What was cleared is gone from the disk at once, and not at the next fetch: a
    /// person who asked to be rid of something should not have it there while they read
    /// the page that says it is gone.
    pub fn handle_cookies_action(&mut self, action: CookiesAction)
        requires
            old(self).wf(),
        ensures
            final(self).wf(),
            final(self)@ == cookies_applied(old(self)@, action),
    {
        match action {
            CookiesAction::ClearSite(site) => {
                self.tell(Command::ClearSite(site));
                self.tell(Command::FlushCookies);
            },
            CookiesAction::Clear => {
                self.tell(Command::ClearCookies);
                self.tell(Command::FlushCookies);
            },
            CookiesAction::Close => self.close_system_page(),
            CookiesAction::Settled => {},
        }
    }

    /// Do what the cache page reported.
    pub fn handle_cache_action(&mut self, action: CacheAction)
        requires
            old(self).wf(),
        ensures
            final(self).wf(),
            final(self)@ == cache_applied(old(self)@, action),
    {
        match action {
            CacheAction::Clear => self.tell(Command::ClearCache),
            CacheAction::Close => self.close_system_page(),
            CacheAction::Settled => {},
        }
    }

    /// The folder downloads go to, if there is one.
    pub fn download_directory(&self) -> (directory: Option<String>)
        ensures
            directory == self@.settings.download_directory,
    {
        proof {
            reveal(Browser::state);
        }
        crate::tab::copy_text(&self.settings.download_directory)
    }

    /// Have a download written.
    ///
    /// One command for marking the row and for starting the write, because the two must
    /// not be able to disagree: a row that says nothing is happening while a file is being
    /// written offers a second write over the top of the first.
    pub fn start_save(&mut self, id: u64, destination: Destination)
        requires
            old(self).wf(),
        ensures
            final(self).wf(),
            final(self)@ == old(self)@.telling(Command::Save(id, destination)),
    {
        self.tell(Command::Save(id, destination));
    }

    /// Do what the downloads page reported.
    ///
    /// A retry reads the folder again rather than remembering it: the usual reason a
    /// write failed is that where it was going was wrong, and the usual answer is that the
    /// reader has since changed it.
    pub fn handle_downloads_action(&mut self, action: DownloadsAction)
        requires
            old(self).wf(),
        ensures
            final(self).wf(),
            final(self)@ == downloads_applied(old(self)@, action),
    {
        match action {
            DownloadsAction::Clear => self.tell(Command::ClearDownloads),
            DownloadsAction::Save(id, Some(path)) => self.start_save(id, Destination::Exact(path)),
            DownloadsAction::Save(_, None) => {},
            DownloadsAction::Retry(id, attempt) => match self.download_directory() {
                None => {},
                Some(directory) => match attempt {
                    None => {},
                    Some(Attempt::Exact(path)) => self.start_save(id, Destination::Exact(path)),
                    Some(Attempt::Into(filename)) => self.start_save(
                        id,
                        Destination::Into { directory, filename },
                    ),
                },
            },
            DownloadsAction::Close => self.close_system_page(),
            DownloadsAction::Settled => {},
        }
    }
}

/// Whether a tab has left one of the browser's own pages: for the entry before it where there
/// is one, and for nothing where there is none, with the reader about to type.
#[verifier::opaque]
pub open spec fn has_left_the_page(before: State, after: State) -> bool {
    &&& before.tab().position > 0 ==> is_on_entry(before, after, before.tab().position - 1)
    &&& before.tab().position == 0 ==> {
        let tab = after.tab();
        &&& tab.system is None
        &&& tab.url.len() == 0
        &&& tab.site is None
        &&& tab.title == "New tab"@
        &&& tab.history == before.tab().history
        &&& tab.position == 0
        &&& after.chrome.address.len() == 0
        &&& after.keyboard == Surface::Chrome
        &&& after.requests == before.requests
        &&& others_untouched(before, after)
    }
}

/// Done on one of the browser's own pages goes back where there is a back, and leaves a blank
/// tab where there is none.
pub proof fn done_goes_back_or_leaves_nothing(s: State)
    requires
        s.wf(),
    ensures
        has_left_the_page(s, system_closed(s)),
{
    reveal(has_left_the_page);
    each_tab_is_sound(s);
    if s.tab().position > 0 {
        going_along_the_history_is_on_that_entry(s, -1);
    } else {
        let cleared = s.with_tab(left_blank(s.tab()));
        changing_a_tab_is_sound(s, s.active, left_blank(s.tab()));
        showing_an_address_changes_no_tab(cleared);
        let synced = address_synced(cleared);
        activating_changes_no_tab(synced.telling(Command::FocusAddress), Surface::Chrome);
        assert forall|i: int| 0 <= i < s.tabs.len() && i != s.active implies synced.tabs[i]
            == #[trigger] s.tabs[i] by {
            assert(cleared.tabs[i] == s.tabs[i]);
        }
    }
}

/// Done does the same on each of them.
pub proof fn done_is_the_same_on_every_page(s: State)
    requires
        s.wf(),
    ensures
        has_left_the_page(s, history_applied(s, HistoryAction::Close)),
        has_left_the_page(s, bookmarks_applied(s, BookmarksAction::Close)),
        has_left_the_page(s, cookies_applied(s, CookiesAction::Close)),
        has_left_the_page(s, cache_applied(s, CacheAction::Close)),
        has_left_the_page(s, downloads_applied(s, DownloadsAction::Close)),
        has_left_the_page(policy_synced(s), settings_applied(s, SettingsAction::Close)),
        policy_synced(s).tabs == s.tabs,
{
    done_goes_back_or_leaves_nothing(s);
    done_goes_back_or_leaves_nothing(policy_synced(s));
}

/// A row of the history or of the pages kept is gone to as a link on a page is: it is asked
/// for, earns an entry, and is not a place the reader may go whatever the rules say.
pub proof fn a_row_that_is_pressed_is_gone_to(s: State, target: Target)
    requires
        s.wf(),
        page_at(target.url@) is None,
    ensures
        ({
            let history = history_applied(s, HistoryAction::Open(target));
            let kept = bookmarks_applied(s, BookmarksAction::Open(target));
            &&& history == kept
            &&& !target.refused ==> {
                &&& asked_for_document(s, kept, target.url@)
                &&& waits_for_document(s, kept, target.url@)
                &&& kept.tab().pending->0.record
                &&& kept.script_hops == s.script_hops
            }
            &&& target.refused ==> {
                &&& kept.requests == s.requests
                &&& kept.tab().pending is None
                &&& kept.tab().error is Some
            }
        }),
{
    if target.refused {
        what_a_page_may_not_reach_is_not_fetched(s, target);
    } else {
        going_somewhere_waits_for_it(s, target, false);
    }
}

/// Emptying a store empties that store and no other: where the reader has been, the pages
/// kept, or what the engine holds.
pub proof fn emptying_a_store_empties_that_one(s: State, site: String)
    ensures
        history_applied(s, HistoryAction::Clear).visits.len() == 0,
        history_applied(s, HistoryAction::Clear).bookmarks == s.bookmarks,
        history_applied(s, HistoryAction::Clear).told == s.told.push(Command::ClearVisits),
        history_applied(s, HistoryAction::Clear).tabs == s.tabs,
        bookmarks_applied(s, BookmarksAction::Clear).bookmarks.len() == 0,
        bookmarks_applied(s, BookmarksAction::Clear).visits == s.visits,
        bookmarks_applied(s, BookmarksAction::Clear).tabs == s.tabs,
        bookmarks_applied(s, BookmarksAction::Clear).told == s.told,
        cookies_applied(s, CookiesAction::Clear).told == s.told + seq![
            Command::ClearCookies,
            Command::FlushCookies,
        ],
        cookies_applied(s, CookiesAction::ClearSite(site)).told == s.told + seq![
            Command::ClearSite(site),
            Command::FlushCookies,
        ],
        cookies_applied(s, CookiesAction::ClearSite(site)).tabs == s.tabs,
        cache_applied(s, CacheAction::Clear).told == s.told.push(Command::ClearCache),
        cache_applied(s, CacheAction::Clear).tabs == s.tabs,
        downloads_applied(s, DownloadsAction::Clear).told == s.told.push(Command::ClearDownloads),
        downloads_applied(s, DownloadsAction::Clear).tabs == s.tabs,
        history_applied(s, HistoryAction::Settled) == s,
        bookmarks_applied(s, BookmarksAction::Settled) == s,
        cookies_applied(s, CookiesAction::Settled) == s,
        cache_applied(s, CacheAction::Settled) == s,
        downloads_applied(s, DownloadsAction::Settled) == s,
{
    assert(cookies_applied(s, CookiesAction::Clear).told =~= s.told + seq![
        Command::ClearCookies,
        Command::FlushCookies,
    ]);
    assert(cookies_applied(s, CookiesAction::ClearSite(site)).told =~= s.told + seq![
        Command::ClearSite(site),
        Command::FlushCookies,
    ]);
}

/// A page that is removed from those kept is no longer among them, and every other one is.
pub proof fn removing_a_kept_page_leaves_the_others(s: State, url: String)
    ensures
        ({
            let after = bookmarks_applied(s, BookmarksAction::Remove(url));
            &&& forall|i: int|
                0 <= i < after.bookmarks.len() ==> (#[trigger] after.bookmarks[i]).url != url@
                    && s.bookmarks.contains(after.bookmarks[i])
            &&& forall|i: int|
                0 <= i < s.bookmarks.len() && (#[trigger] s.bookmarks[i]).url != url@
                    ==> after.bookmarks.contains(s.bookmarks[i])
            &&& after.visits == s.visits
            &&& after.tabs == s.tabs
        }),
{
    dropping_drops_no_other(s.bookmarks, url@);
}

/// A download is written where the reader said, and again to the file they named or under the
/// same name into the folder that is preferred now. With nowhere to write it nothing is
/// written.
pub proof fn a_download_goes_where_it_was_said(
    s: State,
    id: u64,
    path: String,
    name: String,
    directory: String,
)
    ensures
        downloads_applied(s, DownloadsAction::Save(id, Some(path))).told == s.told.push(
            Command::Save(id, Destination::Exact(path)),
        ),
        downloads_applied(s, DownloadsAction::Save(id, None)) == s,
        downloads_applied(s, DownloadsAction::Retry(id, None)) == s,
        s.settings.download_directory is None ==> downloads_applied(
            s,
            DownloadsAction::Retry(id, Some(Attempt::Into(name))),
        ) == s,
        s.settings.download_directory == Some(directory) ==> {
            &&& downloads_applied(
                s,
                DownloadsAction::Retry(id, Some(Attempt::Into(name))),
            ).told == s.told.push(
                Command::Save(id, Destination::Into { directory, filename: name }),
            )
            &&& downloads_applied(
                s,
                DownloadsAction::Retry(id, Some(Attempt::Exact(path))),
            ).told == s.told.push(Command::Save(id, Destination::Exact(path)))
        },
{
}

/// Whatever the preferences page reports, the jar follows what the preference says of cookies
/// from elsewhere. A folder that was chosen is where downloads go from then on, and is saved;
/// no other preference changes, and one that was not chosen changes none.
pub proof fn the_preferences_page_changes_what_was_chosen(s: State, directory: String)
    ensures
        ({
            let chosen = settings_applied(
                s,
                SettingsAction::DownloadDirectoryChosen(Some(directory)),
            );
            &&& chosen.settings.download_directory == Some(directory)
            &&& chosen.settings.home == s.settings.home
            &&& chosen.settings.appearance == s.settings.appearance
            &&& chosen.settings.load_images == s.settings.load_images
            &&& chosen.settings.ask_where_to_save == s.settings.ask_where_to_save
            &&& chosen.settings.block_third_party_cookies == s.settings.block_third_party_cookies
            &&& chosen.settings.scroll == s.settings.scroll
            &&& chosen.told == s.told.push(Command::SavePreferences)
            &&& chosen.accepts_third_party == !s.settings.block_third_party_cookies
        }),
        ({
            let none = settings_applied(s, SettingsAction::DownloadDirectoryChosen(None));
            &&& none.settings == s.settings
            &&& none.told == s.told
            &&& none.accepts_third_party == !s.settings.block_third_party_cookies
        }),
        ({
            let applied = settings_applied(s, SettingsAction::Applied);
            &&& applied.settings == s.settings
            &&& applied.told == s.told
            &&& applied.tabs == s.tabs
            &&& applied.accepts_third_party == !s.settings.block_third_party_cookies
        }),
{
}

/// A dialogue is told of a folder exactly where that is one to open in: it is preferred, and
/// it is there.
pub proof fn a_dialogue_opens_only_where_there_is_a_folder(directory: Option<String>, is_there: bool)
    ensures
        opens_in(directory, is_there) is Some <==> directory is Some && is_there,
        is_there ==> opens_in(directory, is_there) == directory,
{
}

/// What a file picker takes is the extensions its hints name, each hint that begins with a dot
/// naming what follows it, in their order.
pub proof fn a_hint_with_a_dot_names_what_follows_it(hints: Seq<Seq<char>>, hint: Seq<char>)
    ensures
        hint.len() > 0 && hint[0] == '.' ==> extensions_of(hints.push(hint)) == extensions_of(
            hints,
        ).push(hint.subrange(1, hint.len() as int)),
        hint.len() == 0 || hint[0] != '.' ==> extensions_of(hints.push(hint)) == extensions_of(
            hints,
        ),
{
    assert(hints.push(hint).drop_last() =~= hints);
    if hint.len() > 0 && hint[0] == '.' {
        assert(hint.skip(1) =~= hint.subrange(1, hint.len() as int));
    }
}

} // verus!
