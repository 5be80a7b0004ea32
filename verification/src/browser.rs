//! The browser itself: what it holds, and how one is made.
//!
//! One window, several tabs, one of them active. Each tab owns its document and its
//! scroll position; the chrome owns what is typed and what is offered; this type owns
//! the two of them and decides what happens between them. What it does is in the
//! modules beside this one, one responsibility each.
//!
//! Nothing here waits and nothing here draws. What has to be fetched is put on
//! [`Browser::requests`], what has to be said to the engine or to a surface is put on
//! [`Browser::told`], and a load that has everything it asked for on
//! [`Browser::finished`], each in the order it is to be done.

use std::collections::HashMap;

use vstd::prelude::*;

use crate::images::{ImageCache, Picture};
use crate::tab::{blank_tab, following, PendingLoad, PendingView, Tab, TabId, TabView};
use crate::zoom::{ZoomMemory, OWN_SIZE};

verus! {

/// The one surface that owns the keyboard, text, the clipboard and the focus a screen
/// reader is told about.
#[derive(Clone, Copy, Debug, PartialEq, Eq, Structural)]
pub enum Surface {
    /// The tab strip and the toolbar.
    Chrome,
    /// The document in the active tab.
    Page,
    /// One of the browser's own pages.
    System,
    /// The panel that shows what the engine built.
    Inspector,
}

/// What the cache may do about a fetch.
#[derive(Clone, Copy, Debug, PartialEq, Eq, Structural)]
pub enum CacheMode {
    /// Answer from it where it can.
    Default,
    /// Ask the server whether the stored copy still holds.
    Revalidate,
    /// Do not consult it.
    Bypass,
}

/// What a request is for.
#[derive(Clone, Copy, Debug, PartialEq, Eq, Structural)]
pub enum ResourceKind {
    Document,
    Stylesheet,
    Image,
    Script,
}

/// What a form sends: bytes, and what they are.
#[derive(Debug)]
pub struct Body {
    pub content_type: String,
    pub bytes: Vec<u8>,
}

/// One request to put on the wire.
#[derive(Debug)]
pub struct Request {
    pub id: u64,
    pub url: String,
    pub kind: ResourceKind,
    pub body: Option<Body>,
    pub cache: CacheMode,
}

/// One request to put on the wire.
pub struct RequestView {
    pub id: u64,
    pub url: Seq<char>,
    pub kind: ResourceKind,
    pub body: Option<Body>,
    pub cache: CacheMode,
}

impl DeepView for Request {
    type V = RequestView;

    open spec fn deep_view(&self) -> RequestView {
        RequestView {
            id: self.id,
            url: self.url@,
            kind: self.kind,
            body: self.body,
            cache: self.cache,
        }
    }
}

/// Where a finished download is to be written.
#[derive(Debug)]
pub enum Destination {
    /// At this path.
    Exact(String),
    /// In this directory, under this name or the next one that is free.
    Into { directory: String, filename: String },
}

/// Something the engine, a surface or the machine is to be told.
#[derive(Debug)]
pub enum Command {
    /// Put away whatever the chrome has popped up.
    DismissPopup,
    /// Take the keyboard off the chrome.
    BlurChrome,
    /// Put the caret in the address field.
    FocusAddress,
    /// Give the keyboard to the end of the chrome it comes in at.
    FocusEdge(bool),
    /// Take the keyboard off the page in this tab.
    BlurPage(TabId),
    /// Take the keyboard off the inspector.
    BlurInspector,
    /// Take the keyboard off every one of the browser's own pages.
    BlurSystem,
    /// Keep the words at the top of the window where they are over the next layout.
    HoldPlace(TabId),
    /// Lay the page in this tab out again.
    InvalidateLayout(TabId),
    /// Put the page in this tab at this scroll position.
    SetScroll(TabId, u32),
    /// Draw no scrollbars on the page in this tab.
    HideScrollbars(TabId),
    /// Take the marks of a search off the page in this tab.
    ClearFind(TabId),
    /// Take the reader to this match on the page in this tab.
    ShowMatch(TabId, usize),
    /// Select everything on the page in this tab.
    SelectAll(TabId),
    /// Set the page in this tab again: a typeface it may name has come.
    FontArrived(TabId),
    /// Give the page in this tab the picture a rule names by this address.
    SetPicture(TabId, String, Picture),
    /// Give an element of the page in this tab another file, at this density.
    SetImage(TabId, u64, String, Picture, u32),
    /// Empty the store of what has been fetched.
    ClearCache,
    /// Write the preferences.
    SavePreferences,
    /// Put this on the clipboard.
    Copy(String),
    /// Choose the element at this point of the window.
    PickAt(Point),
    /// Set an attribute of a node of the page in this tab.
    SetAttribute(TabId, u64, String, String),
    /// Write the download of this number out.
    Save(u64, Destination),
    /// Forget every visit.
    ClearVisits,
    /// Throw the cookies of one site away.
    ClearSite(String),
    /// Throw every cookie away.
    ClearCookies,
    /// Write the cookies.
    FlushCookies,
    /// Forget every download.
    ClearDownloads,
}

/// A point of the window, its coordinates carried as the bits of double-precision
/// numbers.
#[derive(Clone, Copy, Debug, PartialEq, Eq, Structural)]
pub struct Point {
    pub x: u64,
    pub y: u64,
}

/// What an open context menu was asked about.
#[derive(Debug)]
pub struct ContextTarget {
    /// Where the press landed.
    pub at: Point,
    /// The link under it, if it landed on one.
    pub link: Option<Target>,
}

/// An address, with what the address rules say of it.
///
/// The rules are the network's: which site an address is on, and whether a page at
/// the tab's own address may go there.
#[derive(Debug)]
pub struct Target {
    pub url: String,
    /// The site the address is on, if it is on one.
    pub site: Option<String>,
    /// Whether the rules can read the address and refuse it to a page at the active
    /// tab's address.
    pub refused: bool,
}

/// Whether the page in front of the reader is one they kept.
#[derive(Clone, Copy, Debug, PartialEq, Eq, Structural)]
pub enum Bookmarked {
    /// There is no page to keep.
    Impossible,
    No,
    Yes,
}

/// How many matches a search found, and which one the reader is at, from one.
#[derive(Clone, Copy, Debug, PartialEq, Eq, Structural)]
pub struct FindStatus {
    pub total: usize,
    pub current: usize,
}

/// What a row of the context menu does.
#[derive(Clone, Copy, Debug, PartialEq, Eq, Structural)]
pub enum ContextCommand {
    OpenLinkInNewTab,
    CopyLinkAddress,
    CopySelection,
    SelectAll,
    Back,
    Forward,
    Reload,
    InspectElement,
}

/// One row of the context menu: a command and whether it can be chosen, or a line.
#[derive(Clone, Copy, Debug, PartialEq, Eq, Structural)]
pub enum ContextRow {
    Command(ContextCommand, bool),
    Divider,
}

/// One place the address field offers.
#[derive(Debug)]
pub struct Suggestion {
    pub title: String,
    pub url: String,
    /// Whether it is offered because the reader kept it.
    pub kept: bool,
}

/// One place the address field offers.
pub struct SuggestionView {
    pub title: Seq<char>,
    pub url: Seq<char>,
    pub kept: bool,
}

impl DeepView for Suggestion {
    type V = SuggestionView;

    open spec fn deep_view(&self) -> SuggestionView {
        SuggestionView { title: self.title@, url: self.url@, kept: self.kept }
    }
}

/// A page the reader kept, or a place they have been.
#[derive(Debug)]
pub struct Place {
    pub url: String,
    pub title: String,
}

/// A page the reader kept, or a place they have been.
pub struct PlaceView {
    pub url: Seq<char>,
    pub title: Seq<char>,
}

impl DeepView for Place {
    type V = PlaceView;

    open spec fn deep_view(&self) -> PlaceView {
        PlaceView { url: self.url@, title: self.title@ }
    }
}

/// One arrival at a place, and when it was, where the clock could say.
#[derive(Debug)]
pub struct Visit {
    pub place: Place,
    pub at: Option<jiff::Timestamp>,
}

impl DeepView for Visit {
    type V = PlaceView;

    /// The place alone: when a visit was is the clock's to say.
    open spec fn deep_view(&self) -> PlaceView {
        self.place.deep_view()
    }
}

/// `jiff::Timestamp`: a moment, carried and not looked into.
#[verifier::external_type_specification]
#[verifier::external_body]
pub struct ExTimestamp(jiff::Timestamp);

/// What the chrome shows.
pub struct Chrome {
    /// What is in the address field.
    pub address: String,
    pub bookmark: Bookmarked,
    pub zoom: u32,
    /// What is in the find bar's field, while the bar is open.
    pub finding: Option<String>,
    pub find_status: FindStatus,
    /// The rows of the context menu, while it is open.
    pub menu: Option<Vec<ContextRow>>,
    /// The places offered under the address field.
    pub suggestions: Vec<Suggestion>,
}

/// What the chrome shows.
pub struct ChromeView {
    pub address: Seq<char>,
    pub bookmark: Bookmarked,
    pub zoom: u32,
    pub finding: Option<Seq<char>>,
    pub find_status: FindStatus,
    pub menu: Option<Seq<ContextRow>>,
    pub suggestions: Seq<SuggestionView>,
}

impl View for Chrome {
    type V = ChromeView;

    open spec fn view(&self) -> ChromeView {
        ChromeView {
            address: self.address@,
            bookmark: self.bookmark,
            zoom: self.zoom,
            finding: self.finding.deep_view(),
            find_status: self.find_status,
            menu: match self.menu {
                Some(rows) => Some(rows@),
                None => None,
            },
            suggestions: self.suggestions.deep_view(),
        }
    }
}

/// What the platform says the environment is, or what a reader chose over it.
#[derive(Clone, Copy, Debug, PartialEq, Eq, Structural)]
pub enum Scheme {
    Light,
    Dark,
}

/// What the appearance preference says.
#[derive(Clone, Copy, Debug, PartialEq, Eq, Structural)]
pub enum Appearance {
    /// Follow the platform.
    System,
    Light,
    Dark,
}

/// The preferences the browser reads.
#[derive(Debug)]
pub struct Settings {
    pub home: String,
    pub appearance: Appearance,
    pub load_images: bool,
    pub ask_where_to_save: bool,
    pub download_directory: Option<String>,
    pub block_third_party_cookies: bool,
    /// How far down the page that shows them the reader is, as the bits of a
    /// single-precision number.
    pub scroll: u32,
}

/// What the panel that shows what the engine built is doing.
#[derive(Clone, Copy, Debug, PartialEq, Eq, Structural)]
pub struct Inspector {
    pub open: bool,
    /// Whether the next press on the page chooses an element.
    pub picking: bool,
    /// The chosen node.
    pub selected: Option<u64>,
}

/// A background picture in flight: the tab it is for, and the address its rule names.
#[derive(Debug)]
pub struct BackgroundFetch {
    pub tab: TabId,
    pub url: String,
}

/// A picture in flight that an element chose again.
#[derive(Debug)]
pub struct PictureFetch {
    pub tab: TabId,
    pub node: u64,
    pub src: String,
    pub density: u32,
}

/// A font a page has asked for: its family, and the address it comes from.
#[derive(Debug)]
pub struct FontRequest {
    pub family: String,
    pub url: String,
}

impl DeepView for FontRequest {
    type V = (Seq<char>, Seq<char>);

    open spec fn deep_view(&self) -> (Seq<char>, Seq<char>) {
        (self.family@, self.url@)
    }
}

/// What pages have asked for beyond their own loads: pictures and fonts that a rule
/// names, which are known only once a page has been styled.
pub struct Extras {
    /// Pictures that have already been decoded.
    pub images: ImageCache,
    /// Background pictures asked for, so none is asked for twice.
    pub background_requests: Vec<String>,
    /// Background fetches in flight, by request number.
    pub background_fetches: HashMap<u64, BackgroundFetch>,
    /// Fetches for a picture an element chose again, by request number.
    pub picture_fetches: HashMap<u64, PictureFetch>,
    /// The window the pictures on screen were last chosen against: its width and its
    /// scale, as the bits of single-precision numbers.
    pub picture_window: Option<(u32, u32)>,
    /// The fonts pages have asked for, so none is asked for twice.
    pub font_requests: Vec<FontRequest>,
    /// Font fetches in flight, by request number, with the family each one is for.
    pub font_fetches: HashMap<u64, String>,
}

/// What pages have asked for beyond their own loads.
pub struct ExtrasView {
    pub images: Seq<(Seq<char>, Picture)>,
    pub background_requests: Seq<Seq<char>>,
    pub background_fetches: Map<u64, BackgroundFetch>,
    pub picture_fetches: Map<u64, PictureFetch>,
    pub picture_window: Option<(u32, u32)>,
    pub font_requests: Seq<(Seq<char>, Seq<char>)>,
    pub font_fetches: Map<u64, String>,
}

impl View for Extras {
    type V = ExtrasView;

    open spec fn view(&self) -> ExtrasView {
        ExtrasView {
            images: self.images@,
            background_requests: self.background_requests.deep_view(),
            background_fetches: self.background_fetches@,
            picture_fetches: self.picture_fetches@,
            picture_window: self.picture_window,
            font_requests: self.font_requests.deep_view(),
            font_fetches: self.font_fetches@,
        }
    }
}

/// Nothing asked for and nothing kept.
pub open spec fn no_extras() -> ExtrasView {
    ExtrasView {
        images: seq![],
        background_requests: seq![],
        background_fetches: Map::empty(),
        picture_fetches: Map::empty(),
        picture_window: None,
        font_requests: seq![],
        font_fetches: Map::empty(),
    }
}

impl Extras {
    /// Nothing asked for and nothing kept.
    pub fn new() -> (extras: Self)
        ensures
            extras.images.wf(),
            extras@ == no_extras(),
    {
        let extras = Extras {
            images: ImageCache::new(),
            background_requests: Vec::new(),
            background_fetches: HashMap::new(),
            picture_fetches: HashMap::new(),
            picture_window: None,
            font_requests: Vec::new(),
            font_fetches: HashMap::new(),
        };
        assert(extras@.background_requests =~= seq![]);
        assert(extras@.font_requests =~= seq![]);
        extras
    }
}

/// A load that has everything it asked for, to be built into the page of a tab: its
/// scripts run, and what arrived given to the elements that asked for it.
pub struct FinishedLoad {
    pub tab: TabId,
    pub load: PendingLoad,
}

impl DeepView for FinishedLoad {
    type V = (TabId, PendingView);

    open spec fn deep_view(&self) -> (TabId, PendingView) {
        (self.tab, self.load.deep_view())
    }
}

/// The browser.
pub struct Browser {
    pub tabs: Vec<Tab>,
    pub active: usize,
    /// The name the next tab will have.
    pub next_tab: u64,
    /// The names that have been given, from the first to before the end.
    pub names: Ghost<(int, int)>,
    /// The name the next load will have.
    pub next_navigation: u64,
    /// The number the next request will go out under.
    pub next_request: u64,
    /// What is to be fetched, oldest first.
    pub requests: Vec<Request>,
    /// What is to be said and done elsewhere, oldest first.
    pub told: Vec<Command>,
    /// The loads that are to be built, oldest first.
    pub finished: Vec<FinishedLoad>,
    pub chrome: Chrome,
    pub settings: Settings,
    /// The zoom each site was left at.
    pub zooms: ZoomMemory,
    /// How much larger than its own size the page is drawn, in millionths.
    pub zoom: u32,
    /// What the reader kept, oldest first.
    pub bookmarks: Vec<Place>,
    /// Everywhere the browser has been, oldest first.
    pub visits: Vec<Visit>,
    /// The one surface that owns the keyboard.
    pub keyboard: Surface,
    /// What the open context menu was asked about, while it is open.
    pub context: Option<ContextTarget>,
    pub inspector: Inspector,
    /// What the cache may do about the next navigation. Set by a reload and cleared by
    /// the navigation it was set for.
    pub next_cache_mode: CacheMode,
    /// How many navigations in a row page script has asked for.
    pub script_hops: u8,
    /// What pages have asked for beyond their own loads.
    pub extras: Extras,
    /// Whether the pointer is taking a selection across the page.
    pub selecting: bool,
    /// Whether the browser's own interface is drawn at all.
    pub interface: bool,
    /// What the platform last said the environment is.
    pub scheme: Scheme,
    /// The palette every surface is drawn from.
    pub theme: Scheme,
    /// Whether the jar takes cookies from a site that is not the one being read.
    pub accepts_third_party: bool,
    /// Whether the platform needs a new accessibility tree after the next frame.
    pub accessibility_dirty: bool,
}

/// What a browser holds.
pub struct State {
    pub tabs: Seq<TabView>,
    pub active: int,
    pub next_tab: u64,
    /// The names that have been given, as if there were no last one: from the first to
    /// before the end.
    pub first_name: int,
    pub names_end: int,
    pub next_navigation: u64,
    pub next_request: u64,
    pub requests: Seq<RequestView>,
    pub told: Seq<Command>,
    pub finished: Seq<(TabId, PendingView)>,
    pub chrome: ChromeView,
    pub settings: Settings,
    pub zooms: Map<Seq<char>, u32>,
    pub zoom: u32,
    pub bookmarks: Seq<PlaceView>,
    pub visits: Seq<PlaceView>,
    pub keyboard: Surface,
    pub context: Option<ContextTarget>,
    pub inspector: Inspector,
    pub next_cache_mode: CacheMode,
    pub script_hops: u8,
    pub extras: ExtrasView,
    pub selecting: bool,
    pub interface: bool,
    pub scheme: Scheme,
    pub theme: Scheme,
    pub accepts_third_party: bool,
    pub accessibility_dirty: bool,
}

impl Browser {
    /// What this browser holds.
    #[verifier::opaque]
    pub open spec fn state(&self) -> State {
        State {
            tabs: self.tabs.deep_view(),
            active: self.active as int,
            next_tab: self.next_tab,
            first_name: self.names@.0,
            names_end: self.names@.1,
            next_navigation: self.next_navigation,
            next_request: self.next_request,
            requests: self.requests.deep_view(),
            told: self.told@,
            finished: self.finished.deep_view(),
            chrome: self.chrome@,
            settings: self.settings,
            zooms: self.zooms@,
            zoom: self.zoom,
            bookmarks: self.bookmarks.deep_view(),
            visits: self.visits.deep_view(),
            keyboard: self.keyboard,
            context: self.context,
            inspector: self.inspector,
            next_cache_mode: self.next_cache_mode,
            script_hops: self.script_hops,
            extras: self.extras@,
            selecting: self.selecting,
            interface: self.interface,
            scheme: self.scheme,
            theme: self.theme,
            accepts_third_party: self.accepts_third_party,
            accessibility_dirty: self.accessibility_dirty,
        }
    }
}

impl View for Browser {
    type V = State;

    open spec fn view(&self) -> State {
        self.state()
    }
}

/// How many names there are for tabs.
pub open spec fn all_names() -> int {
    0x1_0000_0000_0000_0000
}

/// Whether every tab's history makes sense.
#[verifier::opaque]
pub open spec fn tabs_sound(tabs: Seq<TabView>) -> bool {
    forall|i: int| 0 <= i < tabs.len() ==> (#[trigger] tabs[i]).wf()
}

/// Whether `next` is the name to give where those from `first` to before `end` have been
/// given, every tab has one of these, and no two tabs have the same; of the last two nothing
/// is said once the names have run out.
#[verifier::opaque]
pub open spec fn names_sound(tabs: Seq<TabView>, first: int, end: int, next: u64) -> bool {
    &&& 0 <= first < end
    &&& next == end % all_names()
    &&& end <= all_names() ==> {
        &&& forall|i: int| 0 <= i < tabs.len() ==> first <= (#[trigger] tabs[i]).id.0 < end
        &&& forall|i: int, j: int|
            0 <= i < j < tabs.len() ==> (#[trigger] tabs[i]).id != (#[trigger] tabs[j]).id
    }
}

/// Whether the pictures and the zooms a browser keeps make sense.
#[verifier::opaque]
pub open spec fn stores_sound(images: ImageCache, zooms: ZoomMemory) -> bool {
    &&& images.wf()
    &&& zooms.wf()
}

/// `told` with one more thing where `condition` holds.
#[verifier::opaque]
pub open spec fn saying(told: Seq<Command>, condition: bool, command: Command) -> Seq<Command> {
    if condition {
        told.push(command)
    } else {
        told
    }
}

impl State {
    /// Whether the browser is one that can be used: there is a tab, one of them is the
    /// active one, every tab's history makes sense, and no two tabs share a name.
    pub open spec fn wf(self) -> bool {
        &&& 0 <= self.active < self.tabs.len()
        &&& tabs_sound(self.tabs)
        &&& names_sound(self.tabs, self.first_name, self.names_end, self.next_tab)
    }

    /// The active tab.
    pub open spec fn tab(self) -> TabView {
        self.tabs[self.active]
    }

    /// The same browser with `tab` as its active tab.
    pub open spec fn with_tab(self, tab: TabView) -> State {
        State { tabs: self.tabs.update(self.active, tab), ..self }
    }

    /// The same browser with `tab` as its tab at `index`.
    pub open spec fn with_tab_at(self, index: int, tab: TabView) -> State {
        State { tabs: self.tabs.update(index, tab), ..self }
    }

    /// The same browser with one more thing to be said.
    pub open spec fn telling(self, command: Command) -> State {
        State { told: self.told.push(command), ..self }
    }

    /// The same browser with one more thing to be said where `condition` holds.
    pub open spec fn telling_if(self, condition: bool, command: Command) -> State {
        State { told: saying(self.told, condition, command), ..self }
    }
}

impl Browser {
    /// Whether the browser is one that can be used.
    pub open spec fn wf(&self) -> bool {
        &&& self@.wf()
        &&& stores_sound(self.extras.images, self.zooms)
    }
}

/// Every tab of a browser that can be used has a history that makes sense.
pub proof fn each_tab_is_sound(s: State)
    requires
        s.wf(),
    ensures
        forall|i: int| 0 <= i < s.tabs.len() ==> (#[trigger] s.tabs[i]).wf(),
{
    reveal(tabs_sound);
}

/// A browser whose tab at `index` changed, and kept its name and a history that makes
/// sense, can still be used.
pub proof fn changing_a_tab_is_sound(s: State, index: int, tab: TabView)
    requires
        s.wf(),
        0 <= index < s.tabs.len(),
        s.tabs[index].wf() ==> tab.wf(),
        tab.id == s.tabs[index].id,
    ensures
        s.with_tab_at(index, tab).wf(),
{
    reveal(tabs_sound);
    reveal(names_sound);
    let tabs = s.tabs.update(index, tab);
    assert forall|i: int| 0 <= i < tabs.len() implies (#[trigger] tabs[i]).wf() && tabs[i].id
        == s.tabs[i].id by {
        assert(s.tabs[i].wf());
    }
}

/// The palette in force: the appearance preference, or what the platform says when
/// that preference is to follow it.
pub open spec fn scheme_in_force(appearance: Appearance, platform: Scheme) -> Scheme {
    match appearance {
        Appearance::Light => Scheme::Light,
        Appearance::Dark => Scheme::Dark,
        Appearance::System => platform,
    }
}

/// A browser as it starts: one blank tab, named with `counter`.
pub open spec fn started(counter: u64, settings: Settings) -> State {
    State {
        tabs: seq![blank_tab(TabId(counter))],
        active: 0,
        next_tab: following(counter),
        first_name: counter as int,
        names_end: counter + 1,
        next_navigation: 1,
        next_request: 1,
        requests: seq![],
        told: seq![],
        finished: seq![],
        chrome: ChromeView {
            address: seq![],
            bookmark: Bookmarked::Impossible,
            zoom: OWN_SIZE,
            finding: None,
            find_status: FindStatus { total: 0, current: 0 },
            menu: None,
            suggestions: seq![],
        },
        settings,
        zooms: Map::empty(),
        zoom: OWN_SIZE,
        bookmarks: seq![],
        visits: seq![],
        keyboard: Surface::Chrome,
        context: None,
        inspector: Inspector { open: false, picking: false, selected: None },
        next_cache_mode: CacheMode::Default,
        script_hops: 0,
        extras: no_extras(),
        selecting: false,
        interface: true,
        scheme: Scheme::Light,
        theme: scheme_in_force(settings.appearance, Scheme::Light),
        accepts_third_party: !settings.block_third_party_cookies,
        accessibility_dirty: true,
    }
}

impl Settings {
    /// The preferences a browser starts with when none were saved.
    pub fn new() -> (settings: Self)
        ensures
            settings.home@ == Seq::<char>::empty(),
            settings.appearance == Appearance::System,
            settings.load_images,
            settings.ask_where_to_save,
            settings.download_directory is None,
            !settings.block_third_party_cookies,
            settings.scroll == 0,
    {
        Settings {
            home: String::new(),
            appearance: Appearance::System,
            load_images: true,
            ask_where_to_save: true,
            download_directory: None,
            block_third_party_cookies: false,
            scroll: 0,
        }
    }
}

impl Browser {
    /// A browser with one blank tab, named with `counter`, and the preferences it
    /// starts with when none were saved.
    pub fn new(counter: u64) -> (browser: Self)
        ensures
            browser.wf(),
            browser@ == started(counter, browser@.settings),
            browser@.settings.load_images,
            browser@.settings.ask_where_to_save,
            browser@.settings.appearance == Appearance::System,
            browser@.settings.home@ == Seq::<char>::empty(),
            browser@.settings.download_directory is None,
            !browser@.settings.block_third_party_cookies,
            browser@.settings.scroll == 0,
    {
        Browser::with_settings(counter, Settings::new())
    }

    /// A browser with one blank tab, named with `counter`, starting from `settings`.
    ///
    /// Preferences are handed in rather than read here. Loading them is the shell's
    /// job; this is what a browser does with them.
    pub fn with_settings(counter: u64, settings: Settings) -> (browser: Self)
        ensures
            browser.wf(),
            browser@ == started(counter, settings),
    {
        proof {
            reveal(Browser::state);
        }
        let mut next_tab: u64 = counter;
        let tab = Tab::blank(&mut next_tab);
        let appearance = settings.appearance;
        let blocks = settings.block_third_party_cookies;
        let mut tabs: Vec<Tab> = Vec::new();
        tabs.push(tab);
        let mut browser = Browser {
            tabs,
            active: 0,
            next_tab,
            names: Ghost((counter as int, counter + 1)),
            next_navigation: 1,
            next_request: 1,
            requests: Vec::new(),
            told: Vec::new(),
            finished: Vec::new(),
            chrome: Chrome {
                address: String::new(),
                bookmark: Bookmarked::Impossible,
                zoom: OWN_SIZE,
                finding: None,
                find_status: FindStatus { total: 0, current: 0 },
                menu: None,
                suggestions: Vec::new(),
            },
            settings,
            zooms: ZoomMemory::new(),
            zoom: OWN_SIZE,
            bookmarks: Vec::new(),
            visits: Vec::new(),
            keyboard: Surface::Chrome,
            context: None,
            inspector: Inspector { open: false, picking: false, selected: None },
            next_cache_mode: CacheMode::Default,
            script_hops: 0,
            extras: Extras::new(),
            selecting: false,
            interface: true,
            scheme: Scheme::Light,
            theme: Scheme::Light,
            accepts_third_party: true,
            accessibility_dirty: true,
        };
        browser.apply_theme();
        browser.sync_cookie_policy();
        proof {
            assert(browser@.tabs =~= seq![blank_tab(TabId(counter))]);
            assert(browser@.requests =~= seq![]);
            assert(browser@.told =~= seq![]);
            assert(browser@.finished =~= seq![]);
            assert(browser@.chrome.suggestions =~= seq![]);
            assert(browser@.bookmarks =~= seq![]);
            assert(browser@.visits =~= seq![]);
            assert(browser@ =~= started(counter, settings));
            reveal(tabs_sound);
            reveal(names_sound);
            reveal(stores_sound);
        }
        browser
    }

    /// The palette in force: the appearance preference, or what the platform says when
    /// that preference is to follow it.
    ///
    /// One answer for two readers, the interface's own theme and the scheme a page is
    /// styled against.
    pub fn effective_scheme(&self) -> (scheme: Scheme)
        ensures
            scheme == scheme_in_force(self@.settings.appearance, self@.scheme),
    {
        proof {
            reveal(Browser::state);
        }
        match self.settings.appearance {
            Appearance::Light => Scheme::Light,
            Appearance::Dark => Scheme::Dark,
            Appearance::System => self.scheme,
        }
    }

    /// The active tab.
    pub fn active_tab(&self) -> (tab: &Tab)
        requires
            self.wf(),
        ensures
            tab@ == self@.tab(),
            tab@.wf(),
    {
        proof {
            reveal(Browser::state);
            each_tab_is_sound(self@);
        }
        &self.tabs[self.active]
    }

    /// The one surface that owns the keyboard.
    pub fn keyboard_surface(&self) -> (surface: Surface)
        ensures
            surface == self@.keyboard,
    {
        proof {
            reveal(Browser::state);
        }
        self.keyboard
    }

    /// What the panel that shows what the engine built is doing.
    pub fn inspector(&self) -> (inspector: Inspector)
        ensures
            inspector == self@.inspector,
    {
        proof {
            reveal(Browser::state);
        }
        self.inspector
    }

    /// Put one more thing on what is to be said and done elsewhere.
    pub fn tell(&mut self, command: Command)
        requires
            old(self).wf(),
        ensures
            final(self).wf(),
            final(self)@ == old(self)@.telling(command),
    {
        proof {
            reveal(Browser::state);
        }
        self.told.push(command);
    }

    /// The same, where `condition` holds.
    pub fn tell_if(&mut self, condition: bool, command: Command)
        requires
            old(self).wf(),
        ensures
            final(self).wf(),
            final(self)@ == old(self)@.telling_if(condition, command),
    {
        proof {
            reveal(saying);
            reveal(Browser::state);
        }
        if condition {
            self.told.push(command);
        }
    }

    /// Draw every surface from the palette the preference and the platform agree on.
    pub fn apply_theme(&mut self)
        ensures
            final(self)@ == (State {
                theme: scheme_in_force(old(self)@.settings.appearance, old(self)@.scheme),
                ..old(self)@
            }),
            old(self).wf() ==> final(self).wf(),
    {
        proof {
            reveal(Browser::state);
        }
        self.theme = self.effective_scheme();
    }

    /// Tell the jar what the reader's switch says.
    pub fn sync_cookie_policy(&mut self)
        ensures
            final(self)@ == (State {
                accepts_third_party: !old(self)@.settings.block_third_party_cookies,
                ..old(self)@
            }),
            old(self).wf() ==> final(self).wf(),
    {
        proof {
            reveal(Browser::state);
        }
        self.accepts_third_party = !self.settings.block_third_party_cookies;
    }

    /// What the platform should make the window's own frame look like, or nothing
    /// where it is to decide for itself.
    pub fn window_appearance(&self) -> (scheme: Option<Scheme>)
        ensures
            scheme == match self@.settings.appearance {
                Appearance::System => None,
                Appearance::Light => Some(Scheme::Light),
                Appearance::Dark => Some(Scheme::Dark),
            },
    {
        proof {
            reveal(Browser::state);
        }
        match self.settings.appearance {
            Appearance::System => None,
            Appearance::Light => Some(Scheme::Light),
            Appearance::Dark => Some(Scheme::Dark),
        }
    }

    /// The tabs, in order.
    pub fn tabs(&self) -> (tabs: &Vec<Tab>)
        ensures
            tabs.deep_view() == self@.tabs,
    {
        proof {
            reveal(Browser::state);
        }
        &self.tabs
    }

    /// Which tab is active.
    pub fn active(&self) -> (active: usize)
        ensures
            active == self@.active,
    {
        proof {
            reveal(Browser::state);
        }
        self.active
    }

    /// What the chrome shows.
    pub fn ui(&self) -> (chrome: &Chrome)
        ensures
            chrome@ == self@.chrome,
    {
        proof {
            reveal(Browser::state);
        }
        &self.chrome
    }
}

} // verus!
