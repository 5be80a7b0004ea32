//! Where a tab goes: the address asked for, back and forward, reload and stop.
//!
//! Every way a tab arrives somewhere (typed, followed, sent by a form, stepped to
//! through the history, or one of the browser's own pages) is decided here. Once the
//! request is on the wire the rest is the load's business, so this holds the decisions
//! and not the fetching.

use std::collections::HashMap;

use vstd::prelude::*;

use crate::address::address_synced;
use crate::browser::{
    changing_a_tab_is_sound, each_tab_is_sound, stores_sound, Body, Browser, CacheMode, ChromeView,
    Command, Place, PlaceView, Request, RequestView, ResourceKind, Settings, State, Surface, Target,
    Visit,
};
use crate::building::with_images;
use crate::images::ImageCache;
use crate::promises::a_page_of_its_own_is_fetched_from_nothing;
use crate::strip::tab_opened;
use crate::surface::activated;
use crate::system::{page_at, SystemPage};
use crate::tab::{
    copy_text, following, take_number, EntryView, HistoryEntry, PendingLoad, PendingView, Tab,
    TabView,
};
use crate::text::{blank, is_blank};

verus! {

/// `jiff::Timestamp::try_from` of `std::time::SystemTime::now`: the moment the system clock
/// says it is, or none where that clock is set outside the years a timestamp can hold. Which
/// of the two, and which moment, rests with the clock, so nothing is promised of it.
#[verifier::external_body]
fn now() -> Option<jiff::Timestamp> {
    jiff::Timestamp::try_from(std::time::SystemTime::now()).ok()
}

/// How a form is sent.
#[derive(Clone, Copy, Debug, PartialEq, Eq, Structural)]
pub enum Method {
    Get,
    Post,
    /// The form only closes the dialogue it is in.
    Dialog,
}

/// A form the reader has just sent.
#[derive(Debug)]
pub struct Submission {
    pub method: Method,
    /// Where it points.
    pub target: Target,
    /// What it sends, where it posts.
    pub body: Body,
}

/// How far down what a tab shows the reader is.
pub open spec fn scroll_of(tab: TabView, settings: Settings) -> u32 {
    match tab.system {
        Some(SystemPage::Settings) => settings.scroll,
        Some(_) => 0,
        None => match tab.page {
            Some(page) => page.scroll,
            None => 0,
        },
    }
}

/// A tab that notes the reader left the entry it is on at `scroll`.
pub open spec fn left_entry_at(tab: TabView, scroll: u32) -> TabView {
    if 0 <= tab.position < tab.history.len() {
        TabView {
            history: tab.history.update(
                tab.position,
                EntryView { scroll, ..tab.history[tab.position] },
            ),
            ..tab
        }
    } else {
        tab
    }
}

/// A browser that notes where the reader is in the entry they are about to leave.
pub open spec fn scroll_remembered(s: State) -> State {
    s.with_tab(left_entry_at(s.tab(), scroll_of(s.tab(), s.settings)))
}

/// A tab with an entry for where it is, and none of those that were ahead.
pub open spec fn recorded(tab: TabView) -> TabView {
    let kept = if tab.history.len() > 0 {
        tab.history.take(tab.position + 1)
    } else {
        tab.history
    };
    TabView {
        history: kept.push(EntryView { url: tab.url, site: tab.site, scroll: 0 }),
        position: kept.len() as int,
        ..tab
    }
}

/// Whether a tab that was at `previous` has arrived at a place that earns an entry.
///
/// A load that did not move is not a second place: reloading a page, or typing the
/// address it is already on, adds nothing.
pub open spec fn earns_an_entry(tab: TabView, previous: Seq<char>) -> bool {
    tab.url != previous || tab.history.len() == 0
}

/// A browser that has added the entry the load in the tab at `index` earned, if it
/// earned one: to the tab's own history, and to everywhere the browser has been.
pub open spec fn history_recorded(s: State, index: int, previous: Seq<char>) -> State {
    let tab = s.tabs[index];
    if earns_an_entry(tab, previous) {
        visit_recorded(s.with_tab_at(index, recorded(tab)), tab.url, tab.title)
    } else {
        s
    }
}

/// A browser that has been at one more place.
pub open spec fn visit_recorded(s: State, url: Seq<char>, title: Seq<char>) -> State {
    State { visits: s.visits.push(PlaceView { url, title }), ..s }
}

/// A tab that shows one of the browser's own pages.
pub open spec fn on_system_page(tab: TabView, page: SystemPage) -> TabView {
    TabView {
        system: Some(page),
        url: page.address(),
        site: None,
        title: page.name(),
        error: None,
        page: None,
        pending: None,
        ..tab
    }
}

/// A browser whose settings page is scrolled to `scroll`.
pub open spec fn settings_at(s: State, scroll: u32) -> State {
    State { settings: Settings { scroll, ..s.settings }, ..s }
}

/// A browser asked to put one of its own pages in the active tab.
pub open spec fn system_shown(s: State, page: SystemPage, record: bool, scroll: u32) -> State {
    if !page.is_built() {
        s.with_tab(TabView { error: Some(page.name() + " is not built yet."@), ..s.tab() })
    } else {
        let there = s.with_tab(on_system_page(s.tab(), page));
        let noted = if record {
            history_recorded(there, s.active, s.tab().url)
        } else {
            there
        };
        activated(address_synced(settings_at(noted, scroll)), Surface::System)
    }
}

/// A browser with no context menu.
pub open spec fn menu_dismissed(s: State) -> State {
    State { context: None, chrome: ChromeView { menu: None, ..s.chrome }, ..s }
}

/// What a tab says of a navigation that was refused.
pub open spec fn refusal(url: Seq<char>, from: Seq<char>) -> Seq<char> {
    "Refused to open "@ + url + " from "@ + from
}

/// A tab whose page may not go to `url`.
pub open spec fn refused_tab(tab: TabView, url: Seq<char>) -> TabView {
    TabView { error: Some(refusal(url, tab.url)), page: None, pending: None, ..tab }
}

/// A load that has just been asked for.
pub open spec fn new_load(document: u64, previous: Seq<char>, record: bool, scroll: u32) -> PendingView {
    PendingView {
        document,
        document_arrived: false,
        previous_url: previous,
        record,
        restore_scroll: scroll,
        sheets: Map::empty(),
        images: Map::empty(),
        picture_sources: Map::empty(),
        outstanding: seq![],
        parse: None,
        script_order: seq![],
        scripts: Map::empty(),
        runner: false,
        seen: seq![],
    }
}

/// A tab that waits for the document at `url`.
pub open spec fn waiting_tab(
    tab: TabView,
    url: Seq<char>,
    site: Option<Seq<char>>,
    navigation: u64,
    load: PendingView,
) -> TabView {
    TabView {
        url,
        site,
        title: url,
        error: None,
        navigation: Some(navigation),
        pending: Some(load),
        ..tab
    }
}

/// A browser that has asked for the document at `url`, with `cache` for what its cache may
/// do about it, and waits for it.
pub open spec fn fetch_begun(
    s: State,
    url: Seq<char>,
    site: Option<Seq<char>>,
    cache: CacheMode,
    record: bool,
    scroll: u32,
    body: Option<Body>,
) -> State {
    State {
        requests: s.requests.push(
            RequestView {
                id: s.next_request,
                url,
                kind: ResourceKind::Document,
                body,
                cache,
            },
        ),
        next_request: following(s.next_request),
        next_navigation: following(s.next_navigation),
        ..s.with_tab(
            waiting_tab(
                s.tab(),
                url,
                site,
                s.next_navigation,
                new_load(s.next_request, s.tab().url, record, scroll),
            ),
        )
    }
}

/// A browser whose active tab shows none of the browser's own pages.
pub open spec fn off_system_page(s: State) -> State {
    s.with_tab(TabView { system: None, ..s.tab() })
}

/// A browser that is about to go somewhere: no context menu is about what it leaves, and
/// what its cache was to do about this one navigation is spent, wherever it leads.
pub open spec fn setting_out(s: State) -> State {
    with_cache_mode(menu_dismissed(s), CacheMode::Default)
}

/// A browser asked to go somewhere.
#[verifier::opaque]
pub open spec fn sent(
    s: State,
    url: Seq<char>,
    site: Option<Seq<char>>,
    refused: bool,
    user_initiated: bool,
    record: bool,
    scroll: u32,
    body: Option<Body>,
) -> State {
    let leaving = setting_out(s);
    match page_at(url) {
        Some(page) => system_shown(leaving, page, record, scroll),
        None => {
            let ready = off_system_page(activated(leaving, Surface::Page));
            if !user_initiated && refused {
                ready.with_tab(refused_tab(ready.tab(), url))
            } else {
                address_synced(
                    fetch_begun(ready, url, site, s.next_cache_mode, record, scroll, body),
                )
            }
        },
    }
}

/// A browser asked to load what a target names.
pub open spec fn sent_to(
    s: State,
    target: Target,
    user_initiated: bool,
    record: bool,
    scroll: u32,
    body: Option<Body>,
) -> State {
    sent(
        s,
        target.url@,
        target.site.deep_view(),
        target.refused,
        user_initiated,
        record,
        scroll,
        body,
    )
}

/// A browser that a reader, or a page, asked to go somewhere new.
pub open spec fn navigated(s: State, target: Target, user_initiated: bool) -> State {
    let fresh = if user_initiated {
        hops_forgotten(s)
    } else {
        s
    };
    sent_to(scroll_remembered(fresh), target, user_initiated, true, 0, None)
}

/// A browser that counts script's navigations from none again.
pub open spec fn hops_forgotten(s: State) -> State {
    State { script_hops: 0, ..s }
}

/// A browser asked to show one of its own pages in the active tab.
pub open spec fn system_opened(s: State, page: SystemPage) -> State {
    let ready = scroll_remembered(hops_forgotten(activated(s, Surface::System)));
    sent(ready, page.address(), None, false, true, true, 0, None)
}

/// A browser asked to show one of its own pages in a tab of its own: the active one
/// where that shows nothing, else a new one.
pub open spec fn system_opened_beside(s: State, page: SystemPage) -> State {
    if s.tab().is_empty() {
        system_opened(s, page)
    } else {
        system_opened(tab_opened(s), page)
    }
}

/// A browser whose active tab is on the entry at `position`.
pub open spec fn on_entry(s: State, position: int) -> State {
    s.with_tab(TabView { position, ..s.tab() })
}

/// A browser asked to move `offset` entries through the active tab's history.
pub open spec fn travelled(s: State, offset: int) -> State {
    let target = s.tab().position + offset;
    if 0 <= target < s.tab().history.len() {
        let entry = s.tab().history[target];
        sent(
            on_entry(scroll_remembered(s), target),
            entry.url,
            entry.site,
            false,
            true,
            false,
            entry.scroll,
            None,
        )
    } else {
        s
    }
}

/// A browser that will do this about its cache at the next navigation.
pub open spec fn with_cache_mode(s: State, mode: CacheMode) -> State {
    State { next_cache_mode: mode, ..s }
}

/// A browser asked to load the active tab's address again, whatever its cache may do. A
/// tab with no address has nothing to load, and what the cache was to do is spent on that.
pub open spec fn loaded_again(s: State, refused: bool) -> State {
    if s.tab().url.len() == 0 {
        with_cache_mode(s, CacheMode::Default)
    } else {
        sent(
            s,
            s.tab().url,
            s.tab().site,
            refused,
            false,
            false,
            scroll_of(s.tab(), s.settings),
            None,
        )
    }
}

/// A browser asked to reload.
pub open spec fn reloaded(s: State, refused: bool) -> State {
    if s.tab().url.len() == 0 {
        s
    } else {
        loaded_again(with_cache_mode(s, CacheMode::Revalidate), refused)
    }
}

/// A browser that keeps nothing it has fetched or decoded.
pub open spec fn everything_forgotten(s: State) -> State {
    with_images(s.telling(Command::ClearCache), seq![])
}

/// A browser asked to reload without consulting its cache at all.
pub open spec fn reloaded_ignoring_cache(s: State, refused: bool) -> State {
    loaded_again(with_cache_mode(everything_forgotten(s), CacheMode::Bypass), refused)
}

/// A browser whose active tab waits for nothing.
pub open spec fn stopped(s: State) -> State {
    s.with_tab(TabView { pending: None, ..s.tab() })
}

/// A browser that a form was sent in.
pub open spec fn submitted(s: State, sent_form: Submission) -> State {
    match sent_form.method {
        Method::Dialog => s,
        Method::Post => sent_to(
            scroll_remembered(s),
            sent_form.target,
            false,
            true,
            0,
            Some(sent_form.body),
        ),
        Method::Get => navigated(s, sent_form.target, false),
    }
}

/// A browser asked to go where the preferences say home is, which is on `site`.
pub open spec fn gone_home(s: State, site: Option<String>) -> State {
    if blank(s.settings.home@) {
        s
    } else {
        navigated(s, Target { url: s.settings.home, site, refused: false }, true)
    }
}

/// Where something written on a page at `here` leads: `resolved` where the network can
/// read it, else as it is written.
pub fn link_target(resolved: Option<String>, written: String) -> (target: String)
    ensures
        target == match resolved {
            Some(url) => url,
            None => written,
        },
{
    match resolved {
        Some(url) => url,
        None => written,
    }
}

/// Where a form on a page at `here` points.
///
/// The action is spelled as the markup spells it: one of nothing at all means the page's
/// own address, and any other is resolved against it.
pub fn form_target(here: String, action: String, resolved: Option<String>) -> (target: String)
    ensures
        target == if action@.len() == 0 {
            here
        } else {
            match resolved {
                Some(url) => url,
                None => action,
            }
        },
{
    if action.as_str().unicode_len() == 0 {
        here
    } else {
        link_target(resolved, action)
    }
}

impl Tab {
    /// Note that the reader left the entry this tab is on at `scroll`.
    fn leave_entry_at(&mut self, scroll: u32)
        ensures
            final(self)@ == left_entry_at(old(self)@, scroll),
    {
        let ghost before = self@;
        let at = self.position;
        if at < self.history.len() {
            self.history[at].scroll = scroll;
            assert(self@.history =~= before.history.update(
                before.position,
                EntryView { scroll, ..before.history[before.position] },
            ));
        }
    }

    /// Add an entry for where this tab is, and drop those that were ahead.
    fn record(&mut self)
        requires
            old(self)@.wf(),
        ensures
            final(self)@ == recorded(old(self)@),
            final(self)@.wf(),
    {
        let ghost before = self@;
        if self.history.len() > 0 {
            let kept: usize = self.position + 1;
            self.history.truncate(kept);
        }
        let ghost kept = self.history.deep_view();
        assert(kept =~= if before.history.len() > 0 {
            before.history.take(before.position + 1)
        } else {
            before.history
        });
        let entry = HistoryEntry {
            url: self.url.clone(),
            site: copy_text(&self.site),
            scroll: 0,
        };
        self.history.push(entry);
        self.position = self.history.len() - 1;
        assert(self@.history =~= kept.push(entry.deep_view()));
    }

    /// Show one of the browser's own pages, and nothing else.
    pub fn show_system_page(&mut self, page: SystemPage)
        ensures
            final(self)@ == on_system_page(old(self)@, page),
    {
        self.system = Some(page);
        self.url = page.url();
        self.site = None;
        self.title = page.label();
        self.error = None;
        self.page = None;
        self.pending = None;
    }

    /// Say that this tab's page may not go to `url`.
    fn refuse(&mut self, url: &String)
        ensures
            final(self)@ == refused_tab(old(self)@, url@),
    {
        let mut message = "Refused to open ".to_owned();
        message.append(url.as_str());
        message.append(" from ");
        message.append(self.url.as_str());
        self.error = Some(message);
        self.page = None;
        self.pending = None;
    }

    /// Wait for the document asked for under `document`.
    fn wait_for(
        &mut self,
        url: String,
        site: Option<String>,
        navigation: u64,
        document: u64,
        record: bool,
        scroll: u32,
    )
        ensures
            final(self)@ == waiting_tab(
                old(self)@,
                url@,
                site.deep_view(),
                navigation,
                new_load(document, old(self)@.url, record, scroll),
            ),
    {
        let previous_url = self.url.clone();
        self.title = url.clone();
        self.url = url;
        self.site = site;
        self.error = None;
        self.navigation = Some(navigation);
        self.pending = Some(
            PendingLoad {
                document,
                document_arrived: false,
                previous_url,
                record,
                restore_scroll: scroll,
                sheets: HashMap::new(),
                images: HashMap::new(),
                picture_sources: HashMap::new(),
                outstanding: Vec::new(),
                parse: None,
                script_order: Vec::new(),
                scripts: HashMap::new(),
                runner: false,
                seen: Vec::new(),
            },
        );
    }
}

impl Browser {
    /// How far down what the active tab shows the reader is.
    ///
    /// A browser page keeps its own position, on the surface that draws it, so where the
    /// number lives depends on what the tab is showing.
    fn scroll_of_tab(&self) -> (scroll: u32)
        requires
            self.wf(),
        ensures
            scroll == scroll_of(self@.tab(), self@.settings),
    {
        proof {
            reveal(Browser::state);
        }
        match self.tabs[self.active].system {
            Some(SystemPage::Settings) => self.settings.scroll,
            Some(_) => 0,
            None => match &self.tabs[self.active].page {
                Some(page) => page.scroll,
                None => 0,
            },
        }
    }

    /// Note where the reader is in the entry they are about to leave, whatever the tab is
    /// showing.
    pub fn remember_scroll(&mut self)
        requires
            old(self).wf(),
        ensures
            final(self).wf(),
            final(self)@ == scroll_remembered(old(self)@),
    {
        proof {
            reveal(Browser::state);
        }
        let ghost before = self@;
        let index = self.active;
        let scroll: u32 = self.scroll_of_tab();
        self.tabs[index].leave_entry_at(scroll);
        proof {
            assert(self@.tabs =~= before.tabs.update(index as int, self@.tabs[index as int]));
            changing_a_tab_is_sound(before, index as int, self@.tabs[index as int]);
        }
    }

    /// Note that the browser was at `url` at the moment `at`, where the clock could say.
    pub fn record_visit_at(&mut self, url: String, title: String, at: Option<jiff::Timestamp>)
        requires
            old(self).wf(),
        ensures
            final(self).wf(),
            final(self)@ == visit_recorded(old(self)@, url@, title@),
            final(self).visits@ == old(self).visits@.push(
                Visit { place: Place { url, title }, at },
            ),
    {
        proof {
            reveal(Browser::state);
        }
        let ghost before = self@;
        self.visits.push(Visit { place: Place { url, title }, at });
        assert(self@.visits =~= before.visits.push(PlaceView { url: url@, title: title@ }));
    }

    /// Add the entry for where the tab at `index` is to its own history.
    fn record_in_tab(&mut self, index: usize)
        requires
            old(self).wf(),
            index < old(self)@.tabs.len(),
        ensures
            final(self).wf(),
            final(self)@ == old(self)@.with_tab_at(
                index as int,
                recorded(old(self)@.tabs[index as int]),
            ),
    {
        proof {
            reveal(Browser::state);
            each_tab_is_sound(self@);
        }
        let ghost before = self@;
        self.tabs[index].record();
        proof {
            assert(self@.tabs =~= before.tabs.update(index as int, self@.tabs[index as int]));
            changing_a_tab_is_sound(before, index as int, self@.tabs[index as int]);
        }
    }

    /// The tab at `index`.
    pub fn tab_at(&self, index: usize) -> (tab: &Tab)
        requires
            self.wf(),
            index < self@.tabs.len(),
        ensures
            tab@ == self@.tabs[index as int],
            tab@.wf(),
    {
        proof {
            reveal(Browser::state);
            each_tab_is_sound(self@);
        }
        &self.tabs[index]
    }

    /// Add the entry this load earned, if it earned one.
    ///
    /// Going somewhere new after going back drops what was ahead: the forward entries
    /// describe a future that did not happen. The browser-wide record is kept beside the
    /// tab's own, so it is once per navigation by construction.
    pub fn record_history(&mut self, index: usize, previous_url: &String)
        requires
            old(self).wf(),
            index < old(self)@.tabs.len(),
        ensures
            final(self).wf(),
            final(self)@ == history_recorded(old(self)@, index as int, previous_url@),
    {
        let tab = self.tab_at(index);
        if tab.url == *previous_url && tab.history.len() > 0 {
            return;
        }
        let url = tab.url.clone();
        let title = tab.title.clone();
        self.record_in_tab(index);
        self.record_visit_at(url, title, now());
    }

    /// Put one of the browser's own pages in the active tab, without a word to the
    /// chrome.
    fn put_system_page(&mut self, page: SystemPage)
        requires
            old(self).wf(),
        ensures
            final(self).wf(),
            final(self)@ == old(self)@.with_tab(on_system_page(old(self)@.tab(), page)),
    {
        proof {
            reveal(Browser::state);
        }
        let ghost before = self@;
        let index = self.active;
        self.tabs[index].show_system_page(page);
        proof {
            assert(self@.tabs =~= before.tabs.update(index as int, self@.tabs[index as int]));
            changing_a_tab_is_sound(before, index as int, self@.tabs[index as int]);
        }
    }

    /// Say in the active tab that something went wrong, leaving what it shows.
    fn put_error(&mut self, error: String)
        requires
            old(self).wf(),
        ensures
            final(self).wf(),
            final(self)@ == old(self)@.with_tab(
                TabView { error: Some(error@), ..old(self)@.tab() },
            ),
    {
        proof {
            reveal(Browser::state);
        }
        let ghost before = self@;
        let index = self.active;
        self.tabs[index].error = Some(error);
        proof {
            assert(self@.tabs =~= before.tabs.update(index as int, self@.tabs[index as int]));
            changing_a_tab_is_sound(before, index as int, self@.tabs[index as int]);
        }
    }

    /// Scroll the settings page to `scroll`.
    fn scroll_settings_to(&mut self, scroll: u32)
        requires
            old(self).wf(),
        ensures
            final(self).wf(),
            final(self)@ == settings_at(old(self)@, scroll),
    {
        proof {
            reveal(Browser::state);
        }
        self.settings.scroll = scroll;
    }

    /// Put one of the browser's own pages in the active tab.
    ///
    /// Everything a finished load does, minus the loading: the tab's address and title
    /// change, whatever was there is dropped, and the arrival earns a history entry if
    /// this navigation was the kind that earns one. A browser page is scrolled like any
    /// other, so coming back to one lands where the reader left it.
    pub fn show_system(&mut self, page: SystemPage, record: bool, restore_scroll: u32)
        requires
            old(self).wf(),
        ensures
            final(self).wf(),
            final(self)@ == system_shown(old(self)@, page, record, restore_scroll),
    {
        if !page.available() {
            let mut message = page.label();
            message.append(" is not built yet.");
            self.put_error(message);
            return;
        }
        let index = self.active_index();
        let previous_url = self.active_tab().url.clone();
        self.put_system_page(page);
        if record {
            self.record_history(index, &previous_url);
        }
        self.scroll_settings_to(restore_scroll);
        self.sync_address();
        self.activate_surface(Surface::System);
    }

    /// Which tab is active, and that there is such a tab.
    pub fn active_index(&self) -> (index: usize)
        requires
            self.wf(),
        ensures
            index == self@.active,
            index < self@.tabs.len(),
    {
        proof {
            reveal(Browser::state);
        }
        self.active
    }

    /// Put the context menu away: the document it was asked about is being replaced, and
    /// its rows name things in it.
    pub fn dismiss_context_menu(&mut self)
        requires
            old(self).wf(),
        ensures
            final(self).wf(),
            final(self)@ == menu_dismissed(old(self)@),
    {
        proof {
            reveal(Browser::state);
        }
        self.chrome.menu = None;
        self.context = None;
    }

    /// Show none of the browser's own pages in the active tab.
    fn leave_system_page(&mut self)
        requires
            old(self).wf(),
        ensures
            final(self).wf(),
            final(self)@ == off_system_page(old(self)@),
    {
        proof {
            reveal(Browser::state);
        }
        let ghost before = self@;
        let index = self.active;
        self.tabs[index].system = None;
        proof {
            assert(self@.tabs =~= before.tabs.update(index as int, self@.tabs[index as int]));
            changing_a_tab_is_sound(before, index as int, self@.tabs[index as int]);
        }
    }

    /// Say in the active tab that its page may not go to `url`.
    fn refuse(&mut self, url: &String)
        requires
            old(self).wf(),
        ensures
            final(self).wf(),
            final(self)@ == old(self)@.with_tab(refused_tab(old(self)@.tab(), url@)),
    {
        proof {
            reveal(Browser::state);
        }
        let ghost before = self@;
        let index = self.active;
        self.tabs[index].refuse(url);
        proof {
            assert(self@.tabs =~= before.tabs.update(index as int, self@.tabs[index as int]));
            changing_a_tab_is_sound(before, index as int, self@.tabs[index as int]);
        }
    }

    /// What the cache is allowed to do about the navigation now being started.
    ///
    /// Set for the one navigation and cleared by it, wherever it leads, because a reload is
    /// an instruction about this fetch: leaving it on would make every later click behave
    /// like a reload.
    pub fn take_cache_mode(&mut self) -> (mode: CacheMode)
        requires
            old(self).wf(),
        ensures
            final(self).wf(),
            final(self)@ == with_cache_mode(old(self)@, CacheMode::Default),
            mode == old(self)@.next_cache_mode,
    {
        proof {
            reveal(Browser::state);
        }
        let mode = self.next_cache_mode;
        self.next_cache_mode = CacheMode::Default;
        mode
    }

    /// Ask for the document at `url`, and leave the active tab waiting for it.
    fn begin_fetch(
        &mut self,
        url: String,
        site: Option<String>,
        cache: CacheMode,
        record: bool,
        scroll: u32,
        body: Option<Body>,
    )
        requires
            old(self).wf(),
        ensures
            final(self).wf(),
            final(self)@ == fetch_begun(
                old(self)@,
                url@,
                site.deep_view(),
                cache,
                record,
                scroll,
                body,
            ),
    {
        let ghost before = self@;
        proof {
            reveal(Browser::state);
        }
        let id: u64 = take_number(&mut self.next_request);
        let navigation: u64 = take_number(&mut self.next_navigation);
        self.requests.push(
            Request { id, url: url.clone(), kind: ResourceKind::Document, body, cache },
        );
        let index = self.active;
        self.tabs[index].wait_for(url, site, navigation, id, record, scroll);
        proof {
            assert(self@.tabs =~= before.tabs.update(index as int, self@.tabs[index as int]));
            changing_a_tab_is_sound(before, index as int, self@.tabs[index as int]);
            assert(self@.requests =~= before.requests.push(
                RequestView {
                    id: before.next_request,
                    url: url@,
                    kind: ResourceKind::Document,
                    body,
                    cache,
                },
            ));
        }
    }

    /// Ask for what `target` names with a body, and leave the tab waiting for it.
    ///
    /// `user_initiated` says whether the address came from the person rather than from
    /// the page: a page may be refused an address that a person may not. `record` says
    /// whether reaching it should become a history entry, and `restore_scroll` where the
    /// reader should be put once it has.
    pub fn start_send(
        &mut self,
        target: Target,
        user_initiated: bool,
        record: bool,
        restore_scroll: u32,
        body: Option<Body>,
    )
        requires
            old(self).wf(),
        ensures
            final(self).wf(),
            final(self)@ == sent_to(
                old(self)@,
                target,
                user_initiated,
                record,
                restore_scroll,
                body,
            ),
    {
        proof {
            reveal(sent);
        }
        self.dismiss_context_menu();
        let cache = self.take_cache_mode();
        match SystemPage::from_url(target.url.as_str()) {
            Some(page) => {
                self.show_system(page, record, restore_scroll);
            },
            None => {
                self.activate_surface(Surface::Page);
                self.leave_system_page();
                if !user_initiated && target.refused {
                    self.refuse(&target.url);
                } else {
                    self.begin_fetch(
                        target.url,
                        target.site,
                        cache,
                        record,
                        restore_scroll,
                        body,
                    );
                    self.sync_address();
                }
            },
        }
    }

    /// Ask for what `target` names, and leave the tab waiting for it.
    pub fn start_load(
        &mut self,
        target: Target,
        user_initiated: bool,
        record: bool,
        restore_scroll: u32,
    )
        requires
            old(self).wf(),
        ensures
            final(self).wf(),
            final(self)@ == sent_to(
                old(self)@,
                target,
                user_initiated,
                record,
                restore_scroll,
                None,
            ),
    {
        self.start_send(target, user_initiated, record, restore_scroll, None);
    }

    /// Load what `target` names into the active tab, as the reader asking for it.
    pub fn navigate(&mut self, target: Target)
        requires
            old(self).wf(),
        ensures
            final(self).wf(),
            final(self)@ == navigated(old(self)@, target, true),
    {
        self.navigate_from(target, true);
    }

    /// Load what `target` names into the active tab.
    ///
    /// `user_initiated` says whether the address came from the person rather than from
    /// the page: it is what decides whether an address the rules refuse to a page may be
    /// reached at all.
    pub fn navigate_from(&mut self, target: Target, user_initiated: bool)
        requires
            old(self).wf(),
        ensures
            final(self).wf(),
            final(self)@ == navigated(old(self)@, target, user_initiated),
    {
        if user_initiated {
            self.forget_hops();
        }
        self.remember_scroll();
        self.start_load(target, user_initiated, true, 0);
    }

    /// Count script's navigations from none again.
    pub(crate) fn forget_hops(&mut self)
        requires
            old(self).wf(),
        ensures
            final(self).wf(),
            final(self)@ == hops_forgotten(old(self)@),
    {
        proof {
            reveal(Browser::state);
        }
        self.script_hops = 0;
    }

    /// Show one of the browser's own pages in the active tab.
    ///
    /// Navigation like any other, so it earns a history entry and back reaches whatever
    /// was there before it.
    pub fn open_system(&mut self, page: SystemPage)
        requires
            old(self).wf(),
        ensures
            final(self).wf(),
            final(self)@ == system_opened(old(self)@, page),
            final(self)@.tab().system == Some(page),
            final(self)@.tab().url == page.address(),
            final(self)@.requests == old(self)@.requests,
    {
        proof {
            a_page_of_its_own_is_fetched_from_nothing(self@, page);
        }
        self.activate_surface(Surface::System);
        self.navigate(Target { url: page.url(), site: None, refused: false });
    }

    /// Show one of the browser's own pages in a tab of its own.
    ///
    /// A blank tab is used rather than added to: opening the settings from an empty new
    /// tab should fill it, not leave an empty one behind.
    pub fn open_system_in_new_tab(&mut self, page: SystemPage)
        requires
            old(self).wf(),
        ensures
            final(self).wf(),
            final(self)@ == system_opened_beside(old(self)@, page),
            final(self)@.tab().system == Some(page),
            final(self)@.tab().url == page.address(),
    {
        let tab = self.active_tab();
        let empty = tab.url.as_str().unicode_len() == 0 && tab.page.is_none()
            && tab.system.is_none();
        if !empty {
            self.new_tab();
        }
        self.open_system(page);
    }

    /// Which of the browser's own pages the active tab is showing, if any.
    pub fn system_page(&self) -> (page: Option<SystemPage>)
        requires
            self.wf(),
        ensures
            page == self@.tab().system,
    {
        self.active_tab().system
    }

    /// Go back one entry in the active tab's history.
    ///
    /// The page is loaded again rather than kept: a document costs what it costs to
    /// hold. Where the reader had got to is restored, which is the part they actually
    /// notice.
    pub fn go_back(&mut self)
        requires
            old(self).wf(),
        ensures
            final(self).wf(),
            final(self)@ == travelled(old(self)@, -1),
    {
        self.travel(-1);
    }

    /// Go forward one entry.
    pub fn go_forward(&mut self)
        requires
            old(self).wf(),
        ensures
            final(self).wf(),
            final(self)@ == travelled(old(self)@, 1),
    {
        self.travel(1);
    }

    /// Whether the active tab can go back.
    pub fn can_go_back(&self) -> (answer: bool)
        requires
            self.wf(),
        ensures
            answer == self@.tab().has_back(),
    {
        self.active_tab().can_go_back()
    }

    /// Whether the active tab can go forward.
    pub fn can_go_forward(&self) -> (answer: bool)
        requires
            self.wf(),
        ensures
            answer == self@.tab().has_forward(),
    {
        self.active_tab().can_go_forward()
    }

    /// Put the active tab on the entry at `position`.
    fn put_on_entry(&mut self, position: usize)
        requires
            old(self).wf(),
            position < old(self)@.tab().history.len(),
        ensures
            final(self).wf(),
            final(self)@ == on_entry(old(self)@, position as int),
    {
        proof {
            reveal(Browser::state);
        }
        let ghost before = self@;
        let index = self.active;
        self.tabs[index].position = position;
        proof {
            assert(self@.tabs =~= before.tabs.update(index as int, self@.tabs[index as int]));
            changing_a_tab_is_sound(before, index as int, self@.tabs[index as int]);
        }
    }

    /// Move `offset` entries through the active tab's history.
    ///
    /// The entry was reached once, so its address was allowed once; going back to it is
    /// the reader's own request and not the page's.
    pub fn travel(&mut self, offset: isize)
        requires
            old(self).wf(),
        ensures
            final(self).wf(),
            final(self)@ == travelled(old(self)@, offset as int),
    {
        let tab = self.active_tab();
        let target: i128 = tab.position as i128 + offset as i128;
        if target < 0 || target >= tab.history.len() as i128 {
            return;
        }
        let target: usize = target as usize;
        let entry = tab.history[target].clone();
        self.remember_scroll();
        self.put_on_entry(target);
        self.start_load(
            Target { url: entry.url, site: entry.site, refused: false },
            true,
            false,
            entry.scroll,
        );
    }

    /// Do this about the cache at the next navigation.
    fn set_cache_mode(&mut self, mode: CacheMode)
        requires
            old(self).wf(),
        ensures
            final(self).wf(),
            final(self)@ == with_cache_mode(old(self)@, mode),
    {
        proof {
            reveal(Browser::state);
        }
        self.next_cache_mode = mode;
    }

    /// Load the active tab's address again, keeping where the reader had got to.
    ///
    /// `refused` says whether the address rules refuse the tab's address to a page at
    /// that address. A reload is the reader saying they think it changed, so the stored
    /// copy is asked about rather than believed. It keeps the entry it is on: a page
    /// loaded twice is one place.
    pub fn reload(&mut self, refused: bool)
        requires
            old(self).wf(),
        ensures
            final(self).wf(),
            final(self)@ == reloaded(old(self)@, refused),
    {
        if self.active_tab().url.as_str().unicode_len() == 0 {
            return;
        }
        self.set_cache_mode(CacheMode::Revalidate);
        self.reload_keeping_the_mode(refused);
    }

    /// Load the page again without consulting the cache at all.
    ///
    /// This one does not ask whether anything changed, it fetches. The cache is emptied,
    /// and so are the pictures decoded for earlier pages, so every subresource the page
    /// then asks for is fetched afresh too.
    pub fn reload_ignoring_cache(&mut self, refused: bool)
        requires
            old(self).wf(),
        ensures
            final(self).wf(),
            final(self)@ == reloaded_ignoring_cache(old(self)@, refused),
    {
        self.tell(Command::ClearCache);
        self.forget_pictures();
        self.set_cache_mode(CacheMode::Bypass);
        self.reload_keeping_the_mode(refused);
    }

    /// Forget every picture decoded for an earlier page.
    fn forget_pictures(&mut self)
        requires
            old(self).wf(),
        ensures
            final(self).wf(),
            final(self)@ == with_images(old(self)@, seq![]),
    {
        proof {
            reveal(Browser::state);
            reveal(stores_sound);
        }
        self.extras.images = ImageCache::new();
    }

    /// The body of [`Browser::reload`], without setting a mode of its own.
    pub fn reload_keeping_the_mode(&mut self, refused: bool)
        requires
            old(self).wf(),
        ensures
            final(self).wf(),
            final(self)@ == loaded_again(old(self)@, refused),
    {
        let scroll: u32 = self.scroll_of_tab();
        let tab = self.active_tab();
        if tab.url.as_str().unicode_len() == 0 {
            let _ = self.take_cache_mode();
            return;
        }
        let url = tab.url.clone();
        let site = copy_text(&tab.site);
        self.start_load(Target { url, site, refused }, false, false, scroll);
    }

    /// Stop the active navigation and reject every response that still arrives.
    ///
    /// Taking the load away is the cancellation: only a request a live tab still owns is
    /// ever taken in.
    pub fn stop(&mut self)
        requires
            old(self).wf(),
        ensures
            final(self).wf(),
            final(self)@ == stopped(old(self)@),
    {
        proof {
            reveal(Browser::state);
        }
        let ghost before = self@;
        let index = self.active;
        self.tabs[index].pending = None;
        proof {
            assert(self@.tabs =~= before.tabs.update(index as int, self@.tabs[index as int]));
            changing_a_tab_is_sound(before, index as int, self@.tabs[index as int]);
        }
    }

    /// Go wherever a form the reader has just sent points.
    ///
    /// A form is the page acting, not the reader, so the same rules that hold for a link
    /// hold here: a page from the network may not aim a form at a file.
    pub fn follow_submission(&mut self, sent: Submission)
        requires
            old(self).wf(),
        ensures
            final(self).wf(),
            final(self)@ == submitted(old(self)@, sent),
    {
        match sent.method {
            Method::Dialog => {},
            Method::Post => {
                self.remember_scroll();
                self.start_send(sent.target, false, true, 0, Some(sent.body));
            },
            Method::Get => self.navigate_from(sent.target, false),
        }
    }

    /// Where the home button and a new window go.
    pub fn home(&self) -> (home: String)
        ensures
            home == self@.settings.home,
    {
        proof {
            reveal(Browser::state);
        }
        self.settings.home.clone()
    }

    /// Go where the preferences say home is, which is on `site`.
    pub fn go_home(&mut self, site: Option<String>)
        requires
            old(self).wf(),
        ensures
            final(self).wf(),
            final(self)@ == gone_home(old(self)@, site),
    {
        let home = self.home();
        if is_blank(home.as_str()) {
            return;
        }
        self.navigate(Target { url: home, site, refused: false });
    }
}

} // verus!
