//! One tab: what it shows, where it has been, and the load it is waiting for.

use std::collections::HashMap;

use vstd::prelude::*;

use crate::images::Picture;
use crate::system::SystemPage;

verus! {

/// What names a tab for as long as it is open.
#[derive(Copy, Clone, Debug, PartialEq, Eq, Hash, PartialOrd, Ord, Structural)]
pub struct TabId(pub u64);

/// The number after `number`, round to zero past the last one.
pub open spec fn following(number: u64) -> u64 {
    if number == u64::MAX {
        0
    } else {
        (number + 1) as u64
    }
}

/// The next identity to hand out.
///
/// `counter` is the number to give. It only grows, up to the last number there is, so those
/// who share a counter never get one number twice: whoever makes browsers in one process has
/// them share one, or start from numbers far enough apart.
pub fn next_tab_id(counter: &mut u64) -> (id: TabId)
    ensures
        id == TabId(*old(counter)),
        *final(counter) == following(*old(counter)),
        *old(counter) < u64::MAX ==> id.0 < *final(counter),
{
    TabId(take_number(counter))
}

/// The number a counter is at, and the counter moved on.
pub fn take_number(counter: &mut u64) -> (number: u64)
    ensures
        number == *old(counter),
        *final(counter) == following(*old(counter)),
{
    let number: u64 = *counter;
    *counter = number.wrapping_add(1);
    number
}

/// One place a tab has been.
#[derive(Debug, PartialEq)]
pub struct HistoryEntry {
    /// The address that was loaded, after redirects.
    pub url: String,
    /// The site that address is on, if it is on one.
    pub site: Option<String>,
    /// How far down the reader had got when they left it. Restored on the way back,
    /// which is the difference between going back and starting over. The bits of a
    /// single-precision number, carried and never computed with.
    pub scroll: u32,
}

/// One place a tab has been.
pub struct EntryView {
    pub url: Seq<char>,
    pub site: Option<Seq<char>>,
    pub scroll: u32,
}

impl DeepView for HistoryEntry {
    type V = EntryView;

    open spec fn deep_view(&self) -> EntryView {
        EntryView { url: self.url@, site: self.site.deep_view(), scroll: self.scroll }
    }
}

impl Clone for HistoryEntry {
    fn clone(&self) -> (copy: Self)
        ensures
            copy == *self,
    {
        HistoryEntry { url: self.url.clone(), site: copy_text(&self.site), scroll: self.scroll }
    }
}

/// A search of a page: what is looked for, and what was found.
#[derive(Debug)]
pub struct Search {
    pub query: String,
    /// How many times the page holds it.
    pub total: usize,
    /// Which of them the reader is at, counted from the first.
    pub at: usize,
}

/// A search of a page.
pub struct SearchView {
    pub query: Seq<char>,
    pub total: usize,
    pub at: usize,
}

impl DeepView for Search {
    type V = SearchView;

    open spec fn deep_view(&self) -> SearchView {
        SearchView { query: self.query@, total: self.total, at: self.at }
    }
}

/// The facts the browser reads of the document in a tab.
#[derive(Debug)]
pub struct Page {
    /// How far down the reader is, as the bits of a single-precision number.
    pub scroll: u32,
    /// What the reader is looking for in it, if anything.
    pub search: Option<Search>,
}

/// The facts the browser reads of the document in a tab.
pub struct PageView {
    pub scroll: u32,
    pub search: Option<SearchView>,
}

impl PageView {
    /// Whether a search is at a match there is.
    pub open spec fn wf(self) -> bool {
        self.search matches Some(search) ==> (search.total > 0 ==> search.at < search.total)
    }
}

impl DeepView for Page {
    type V = PageView;

    open spec fn deep_view(&self) -> PageView {
        PageView { scroll: self.scroll, search: self.search.deep_view() }
    }
}

/// What a subresource is for once it lands.
///
/// A node is named by the number the document gives it, and a density is the bits of
/// a single-precision number.
#[derive(Debug)]
pub enum PendingResource {
    /// The `<link>` whose stylesheet this is.
    Stylesheet(u64),
    /// The `<img>` whose picture this is, the address it settled on as the markup
    /// spells it, and that candidate's density.
    Image(u64, String, u32),
    /// The `<script src>` whose source this is.
    Script(u64),
    /// A script asked for before the parse, named by the `src` that asked for it.
    ScriptSource(String),
}

/// One thing a load waits for: the request it comes under, and what it is for.
#[derive(Debug)]
pub struct Outstanding {
    pub id: u64,
    pub resource: PendingResource,
}

/// What is shown for an `<img>`: a decoded picture, at a density.
#[derive(Clone, Copy, Debug, PartialEq, Eq, Structural)]
pub struct Shown {
    pub picture: Picture,
    pub density: u32,
}

/// Which file an `<img>` is showing: its address as the markup spells it, and the
/// density it was chosen at.
#[derive(Debug)]
pub struct PictureChoice {
    pub src: String,
    pub density: u32,
}

/// A load in flight, and everything it is still waiting for.
pub struct PendingLoad {
    /// The request the document itself was asked for under.
    pub document: u64,
    /// Whether that request has come back: the line between a tab that has a document
    /// to look at and one that has everything it asked for.
    pub document_arrived: bool,
    /// Where the tab was before, which decides whether this is a new place.
    pub previous_url: String,
    /// Whether arriving should add a history entry. A reload and a step through the
    /// history are the same place again, so they do not.
    pub record: bool,
    /// Where to put the reader once the page is built.
    pub restore_scroll: u32,
    /// The source of each `<link>` stylesheet that has arrived.
    pub sheets: HashMap<u64, String>,
    /// The picture of each `<img>` that has arrived.
    pub images: HashMap<u64, Shown>,
    /// Which file each of those pictures came from, and at what density.
    pub picture_sources: HashMap<u64, PictureChoice>,
    /// What is still to come, in the order it was asked for.
    pub outstanding: Vec<Outstanding>,
    /// The script a stopped parse is waiting at, while one is.
    pub parse: Option<u64>,
    /// The `<script src>` elements to run, in the order the document names them.
    pub script_order: Vec<u64>,
    /// The source of each of those that has arrived.
    pub scripts: HashMap<u64, String>,
    /// Whether the page's own code is alive, to be given those.
    pub runner: bool,
    /// The elements whose stylesheet or picture has been seen to, so that what a longer
    /// parse names again is not asked for again.
    pub seen: Vec<u64>,
}

/// A load in flight.
pub struct PendingView {
    pub document: u64,
    pub document_arrived: bool,
    pub previous_url: Seq<char>,
    pub record: bool,
    pub restore_scroll: u32,
    pub sheets: Map<u64, String>,
    pub images: Map<u64, Shown>,
    pub picture_sources: Map<u64, PictureChoice>,
    pub outstanding: Seq<Outstanding>,
    pub parse: Option<u64>,
    pub script_order: Seq<u64>,
    pub scripts: Map<u64, String>,
    pub runner: bool,
    pub seen: Seq<u64>,
}

impl DeepView for PendingLoad {
    type V = PendingView;

    open spec fn deep_view(&self) -> PendingView {
        PendingView {
            document: self.document,
            document_arrived: self.document_arrived,
            previous_url: self.previous_url@,
            record: self.record,
            restore_scroll: self.restore_scroll,
            sheets: self.sheets@,
            images: self.images@,
            picture_sources: self.picture_sources@,
            outstanding: self.outstanding@,
            parse: self.parse,
            script_order: self.script_order@,
            scripts: self.scripts@,
            runner: self.runner,
            seen: self.seen@,
        }
    }
}

/// One tab.
pub struct Tab {
    /// What this tab is, for as long as it is open.
    ///
    /// Its position in the strip is not an identity: closing a tab shifts every tab
    /// after it, and anything holding an index would then be holding a different tab
    /// without being told.
    pub id: TabId,
    /// What the address bar shows for it.
    pub url: String,
    /// The site that address is on, if it is on one: what a zoom is remembered
    /// against.
    pub site: Option<String>,
    /// Its title, or the address until it has one.
    pub title: String,
    /// The document, absent for a blank tab or one whose load failed.
    pub page: Option<Page>,
    /// What went wrong, if anything.
    pub error: Option<String>,
    /// The browser's own page this tab is showing, if it is showing one.
    pub system: Option<SystemPage>,
    /// What the load that filled this tab, or is filling it, is called.
    pub navigation: Option<u64>,
    /// Whether the page's own code is alive in the tab.
    pub scripts: bool,
    /// The load in flight, if one is.
    pub pending: Option<PendingLoad>,
    /// Where this tab has been, oldest first.
    ///
    /// A list and a position rather than two stacks: going back and then somewhere
    /// new drops the forward entries, and that rule is one truncation on a list
    /// instead of a second stack to keep in step.
    pub history: Vec<HistoryEntry>,
    /// Which entry is showing. Meaningless while the history is empty.
    pub position: usize,
}

/// One tab.
pub struct TabView {
    pub id: TabId,
    pub url: Seq<char>,
    pub site: Option<Seq<char>>,
    pub title: Seq<char>,
    pub page: Option<PageView>,
    pub error: Option<Seq<char>>,
    pub system: Option<SystemPage>,
    pub navigation: Option<u64>,
    pub scripts: bool,
    pub pending: Option<PendingView>,
    pub history: Seq<EntryView>,
    pub position: int,
}

impl View for Tab {
    type V = TabView;

    open spec fn view(&self) -> TabView {
        TabView {
            id: self.id,
            url: self.url@,
            site: self.site.deep_view(),
            title: self.title@,
            page: self.page.deep_view(),
            error: self.error.deep_view(),
            system: self.system,
            navigation: self.navigation,
            scripts: self.scripts,
            pending: self.pending.deep_view(),
            history: self.history.deep_view(),
            position: self.position as int,
        }
    }
}

impl DeepView for Tab {
    type V = TabView;

    open spec fn deep_view(&self) -> TabView {
        self@
    }
}

/// A tab that shows nothing and has been nowhere.
pub open spec fn blank_tab(id: TabId) -> TabView {
    TabView {
        id,
        url: seq![],
        site: None,
        title: "New tab"@,
        page: None,
        error: None,
        system: None,
        navigation: None,
        scripts: false,
        pending: None,
        history: seq![],
        position: 0,
    }
}

impl TabView {
    /// Whether the position names an entry, or nothing has been recorded yet, and a
    /// search of the page is at a match there is.
    pub open spec fn wf(self) -> bool {
        &&& if self.history.len() == 0 {
            self.position == 0
        } else {
            0 <= self.position < self.history.len()
        }
        &&& self.page matches Some(page) ==> page.wf()
    }

    /// Whether there is anywhere to go back to.
    pub open spec fn has_back(self) -> bool {
        self.position > 0
    }

    /// Whether there is anywhere to go forward to.
    pub open spec fn has_forward(self) -> bool {
        self.position + 1 < self.history.len()
    }

    /// Whether the tab shows nothing and was asked for nothing.
    pub open spec fn is_empty(self) -> bool {
        self.url.len() == 0 && self.page is None && self.system is None
    }
}

/// A copy of an optional text.
pub fn copy_text(text: &Option<String>) -> (copy: Option<String>)
    ensures
        copy == *text,
{
    match text {
        Some(text) => Some(text.clone()),
        None => None,
    }
}

impl Tab {
    /// A blank tab, named with the next number of `counter`.
    pub fn blank(counter: &mut u64) -> (tab: Self)
        ensures
            tab@ == blank_tab(TabId(*old(counter))),
            *final(counter) == following(*old(counter)),
    {
        let tab = Tab {
            id: next_tab_id(counter),
            url: String::new(),
            site: None,
            title: "New tab".to_owned(),
            page: None,
            error: None,
            system: None,
            navigation: None,
            scripts: false,
            pending: None,
            history: Vec::new(),
            position: 0,
        };
        assert(tab.history.deep_view() =~= seq![]);
        tab
    }

    /// Whether this tab is waiting for something.
    pub fn loading(&self) -> (answer: bool)
        ensures
            answer == (self@.pending is Some),
    {
        self.pending.is_some()
    }

    /// Whether there is anywhere to go back to.
    pub fn can_go_back(&self) -> (answer: bool)
        ensures
            answer == self@.has_back(),
    {
        self.position > 0
    }

    /// Whether there is anywhere to go forward to.
    pub fn can_go_forward(&self) -> (answer: bool)
        ensures
            answer == self@.has_forward(),
    {
        self.history.len() > 0 && self.position < self.history.len() - 1
    }
}

/// Numbers are given one after the other, and from the first again once there are no more.
pub proof fn numbers_follow_each_other(number: u64)
    ensures
        number < u64::MAX ==> following(number) == number + 1,
        number == u64::MAX ==> following(number) == 0,
{
}

} // verus!
