//! Deciding a frame: when the next one is due, what it draws, and what of it is new.
//!
//! The drawing is the engine's. What is drawn in which order, into which part of the
//! window, and which of it has to be drawn again is decided here, so that the two ways a
//! frame is painted cannot disagree about what a frame is.

use vstd::prelude::*;

use crate::arriving::{is_style_here, style_blocked};
use crate::browser::{saying, Browser, Command, Inspector, State, Surface};
use crate::strip::{
    emptied, names_last, no_two_tabs_share_a_name, tab_closed, tab_moved, tab_selected,
    which_tab_is_read,
};
use crate::system::SystemPage;
use crate::tab::{copy_text, TabId, TabView};

verus! {

/// When the window is to be drawn next.
#[derive(Clone, Copy, Debug, PartialEq, Eq, Structural)]
pub enum FrameRequest {
    /// When something asks for it.
    Idle,
    Now,
    /// At the display's own pace.
    Vsync,
    /// At this moment.
    At(u64),
}

/// The layers of a frame, back to front.
#[derive(Clone, Copy, Debug, PartialEq, Eq, Structural)]
pub enum Layer {
    Page,
    Highlight,
    Inspector,
    Chrome,
}

/// A rectangle of the window, in device pixels.
#[derive(Clone, Copy, Debug, PartialEq, Eq, Structural)]
pub struct LayerRect {
    pub x: u32,
    pub y: u32,
    pub width: u32,
    pub height: u32,
}

/// A layer, the part of the window it is drawn into, and what of it changed: nothing said
/// means that all of it may have.
#[derive(Clone, Copy, Debug, PartialEq, Eq, Structural)]
pub struct Band {
    pub layer: Layer,
    pub rect: LayerRect,
    pub dirty: Option<LayerRect>,
}

/// What a frame is drawn for, in device pixels: the size of the window, where the content
/// area begins and ends in it, and what is over it.
#[derive(Clone, Copy, Debug, PartialEq, Eq, Structural)]
pub struct Frame {
    pub width: u32,
    pub height: u32,
    pub top: u32,
    pub bottom: u32,
    /// Whether an element is highlighted.
    pub highlight: bool,
    /// Whether the developer tools take a part of the window.
    pub dock: bool,
    pub popup_open: bool,
    /// What of the page changed, if it knows.
    pub page_dirty: Option<LayerRect>,
    /// What of the chrome changed, if it knows.
    pub chrome_dirty: Option<LayerRect>,
}

/// What a screen reader is told of.
#[derive(Clone, Copy, Debug, PartialEq, Eq, Structural)]
pub struct Described {
    /// Whether there is a document, or only its title.
    pub document: bool,
    /// Whether the interface is around it.
    pub interface: bool,
    /// Which of the browser's own pages adds its controls.
    pub page: Option<SystemPage>,
}

/// Where what fills the content area comes from.
#[derive(Clone, Copy, Debug, PartialEq, Eq, Structural)]
pub enum PageSource {
    System(SystemPage),
    Document,
    Blank,
}

/// How the strip names a tab.
#[derive(Debug)]
pub struct TabLabel {
    pub id: u64,
    pub title: String,
    pub loading: bool,
}

/// How the strip names a tab.
pub struct LabelView {
    pub id: u64,
    pub title: Seq<char>,
    pub loading: bool,
}

impl DeepView for TabLabel {
    type V = LabelView;

    open spec fn deep_view(&self) -> LabelView {
        LabelView { id: self.id, title: self.title@, loading: self.loading }
    }
}

/// How often each of the browser's own pages has been built.
#[derive(Clone, Copy, Debug, PartialEq, Eq, Structural)]
pub struct SystemBuilds {
    pub settings: u64,
    pub history: u64,
    pub downloads: u64,
    pub bookmarks: u64,
    pub cookies: u64,
    pub cache: u64,
    pub about: u64,
}

/// How often each part of the interface has been built, and described.
#[derive(Clone, Copy, Debug, PartialEq, Eq, Structural)]
pub struct InterfaceBuilds {
    pub chrome: u64,
    pub tabs: u64,
    pub toolbar: u64,
    pub tab_semantics: u64,
    pub toolbar_semantics: u64,
    pub inspector: u64,
    pub header: u64,
    pub body: u64,
    pub header_semantics: u64,
    pub body_semantics: u64,
}

/// What drawing has cost so far.
#[derive(Clone, Copy, Debug, PartialEq, Eq, Structural)]
pub struct PainterWork {
    pub chrome_reconciles: u64,
    pub chrome_layouts: u64,
    pub chrome_paints: u64,
    pub chrome_semantics: u64,
    pub page_paints: u64,
}

/// What the page layer is drawn from: two frames with the same have the same pixels
/// there.
#[derive(Debug)]
pub enum PageVersion {
    System { tab: TabId, page: SystemPage, builds: SystemBuilds, scale: u64 },
    Document { tab: TabId, builds: u64, scale: u64 },
    Blank { tab: TabId, error: Option<String>, window: Window, marked: bool },
}

/// What the page layer is drawn from.
pub enum VersionView {
    System { tab: TabId, page: SystemPage, builds: SystemBuilds, scale: u64 },
    Document { tab: TabId, builds: u64, scale: u64 },
    Blank { tab: TabId, error: Option<Seq<char>>, window: Window, marked: bool },
}

impl DeepView for PageVersion {
    type V = VersionView;

    open spec fn deep_view(&self) -> VersionView {
        match *self {
            PageVersion::System { tab, page, builds, scale } => VersionView::System {
                tab,
                page,
                builds,
                scale,
            },
            PageVersion::Document { tab, builds, scale } => VersionView::Document {
                tab,
                builds,
                scale,
            },
            PageVersion::Blank { tab, error, window, marked } => VersionView::Blank {
                tab,
                error: error.deep_view(),
                window,
                marked,
            },
        }
    }
}

/// A list of what a layer draws that was scaled to the device: which list it was, the bits
/// of the factor, and which list came of it. A list is named by a number that no other has
/// while it is kept.
#[derive(Clone, Copy, Debug, PartialEq, Eq, Structural)]
pub struct Scaled {
    pub logical: u64,
    pub scale: u64,
    pub device: u64,
}

/// The window a frame is drawn for: its logical size and its scale as their bits, and
/// whether its scheme is dark.
#[derive(Clone, Copy, Debug, PartialEq, Eq, Structural)]
pub struct Window {
    pub width: u64,
    pub height: u64,
    pub scale: u64,
    pub dark: bool,
}

/// Where the pointer was and is, and what a move of it may have changed.
#[derive(Clone, Copy, Debug, PartialEq, Eq, Structural)]
pub struct Moved {
    pub still: bool,
    pub was_below_bar: bool,
    pub below_bar: bool,
    pub was_in_dock: bool,
    pub in_dock: bool,
    pub popup_open: bool,
    pub captured: bool,
    /// Whether the page has to be drawn otherwise than before.
    pub damage_changed: bool,
    /// Whether what has to be done to it reaches as far as its layout.
    pub layout_damaged: bool,
}

/// What the pointer looks like.
#[derive(Clone, Copy, Debug, PartialEq, Eq, Structural)]
pub enum CursorFrom {
    Default,
    Pointer,
    /// As the interface says.
    Interface,
    /// As the developer tools say.
    Inspector,
    /// As one of the browser's own pages says.
    System(SystemPage),
}

/// Whether any of the tabs is loading.
pub open spec fn any_loading(tabs: Seq<TabView>) -> bool {
    exists|i: int| 0 <= i < tabs.len() && (#[trigger] tabs[i]).pending is Some
}

/// The earlier of two moments, either of which may not be.
pub open spec fn earlier(left: Option<u64>, right: Option<u64>) -> Option<u64> {
    match (left, right) {
        (Some(one), Some(other)) => Some(
            if one <= other {
                one
            } else {
                other
            },
        ),
        (Some(one), None) => Some(one),
        (None, other) => other,
    }
}

/// The earliest of several moments.
pub open spec fn earliest(moments: Seq<Option<u64>>) -> Option<u64>
    decreases moments.len(),
{
    if moments.len() == 0 {
        None
    } else {
        earlier(earliest(moments.drop_last()), moments.last())
    }
}

/// When a browser is to be drawn next.
pub open spec fn frame_due(
    s: State,
    marks_turn: bool,
    frames_pending: bool,
    caret: Option<u64>,
    tooltip: Option<u64>,
    timers: Option<u64>,
) -> FrameRequest {
    if s.tab().pending is Some || (marks_turn && any_loading(s.tabs)) || (s.tab().scripts
        && frames_pending) {
        FrameRequest::Vsync
    } else {
        match earlier(earlier(caret, tooltip), timers) {
            Some(at) => FrameRequest::At(at),
            None => FrameRequest::Idle,
        }
    }
}

/// Whether a move of the pointer is worth a frame.
pub open spec fn move_shows(s: State, before: Inspector, moved: Moved) -> bool {
    !moved.still && {
        ||| !moved.was_below_bar
        ||| !moved.below_bar
        ||| moved.popup_open
        ||| moved.captured
        ||| s.inspector.open && (moved.was_in_dock || moved.in_dock)
        ||| before.picking && before.selected != s.inspector.selected
        ||| s.tab().system is Some && (moved.was_below_bar || moved.below_bar)
        ||| moved.damage_changed
    }
}

/// Whether a move of the pointer changed what a screen reader is told.
pub open spec fn move_retells(moved: Moved) -> bool {
    !moved.still && moved.damage_changed && moved.layout_damaged
}

/// A browser that has to tell a screen reader of a change, or of none.
pub open spec fn told_again(s: State, changed: bool) -> State {
    State { accessibility_dirty: s.accessibility_dirty || changed, ..s }
}

/// How the strip names a tab.
pub open spec fn label_of(tab: TabView) -> LabelView {
    LabelView { id: tab.id.0, title: tab.title, loading: tab.pending is Some }
}

/// Where what fills the content area comes from. A document is not drawn before the
/// stylesheets it cannot be drawn without have come.
pub open spec fn source_of(tab: TabView, elsewhere: Seq<u64>) -> PageSource {
    match tab.system {
        Some(page) => PageSource::System(page),
        None => if tab.page is Some && !style_blocked(tab, elsewhere) {
            PageSource::Document
        } else {
            PageSource::Blank
        },
    }
}

/// The layers a frame draws, back to front.
pub open spec fn layers_of(interface: bool, highlight: bool, dock: bool) -> Seq<Layer> {
    seq![Layer::Page] + (if highlight {
        seq![Layer::Highlight]
    } else {
        seq![]
    }) + (if interface && dock {
        seq![Layer::Inspector]
    } else {
        seq![]
    }) + (if interface {
        seq![Layer::Chrome]
    } else {
        seq![]
    })
}

/// The part of a window `width` by `height` that a layer is drawn into, where the content
/// area reaches from `top` to `bottom`.
pub open spec fn band_of(
    layer: Layer,
    width: u32,
    height: u32,
    top: u32,
    bottom: u32,
    popup_open: bool,
) -> LayerRect {
    let content_top = if top <= height {
        top
    } else {
        height
    };
    let content_bottom = if bottom <= height {
        bottom
    } else {
        height
    };
    match layer {
        Layer::Page | Layer::Highlight => LayerRect {
            x: 0,
            y: content_top,
            width,
            height: if content_bottom >= content_top {
                (content_bottom - content_top) as u32
            } else {
                0
            },
        },
        Layer::Inspector => LayerRect {
            x: 0,
            y: content_bottom,
            width,
            height: (height - content_bottom) as u32,
        },
        Layer::Chrome => LayerRect {
            x: 0,
            y: 0,
            width,
            height: if popup_open {
                height
            } else {
                content_top
            },
        },
    }
}

/// What a layer of a frame is drawn into, and what of it changed.
pub open spec fn band_in(frame: Frame, layer: Layer) -> Band {
    Band {
        layer,
        rect: band_of(
            layer,
            frame.width,
            frame.height,
            frame.top,
            frame.bottom,
            frame.popup_open,
        ),
        dirty: match layer {
            Layer::Page => frame.page_dirty,
            Layer::Chrome => frame.chrome_dirty,
            Layer::Highlight | Layer::Inspector => None,
        },
    }
}

/// The layers of a frame that are kept from one to the next, back to front; none where
/// the interface is not drawn.
pub open spec fn composed(interface: bool, frame: Frame) -> Option<Seq<Band>> {
    if interface {
        Some(
            layers_of(true, frame.highlight, frame.dock).map_values(
                |layer: Layer| band_in(frame, layer),
            ),
        )
    } else {
        None
    }
}

/// The list that came of scaling `logical` by `scale`, where that is what was scaled last.
pub open spec fn scaled_before(kept: Option<Scaled>, logical: u64, scale: u64) -> Option<u64> {
    match kept {
        Some(last) => if last.logical == logical && last.scale == scale {
            Some(last.device)
        } else {
            None
        },
        None => None,
    }
}

/// The rectangle with these edges; an empty one where they have crossed.
pub open spec fn rect_between(left: u32, top: u32, right: u32, bottom: u32) -> LayerRect {
    LayerRect {
        x: left,
        y: top,
        width: if right >= left {
            (right - left) as u32
        } else {
            0
        },
        height: if bottom >= top {
            (bottom - top) as u32
        } else {
            0
        },
    }
}

/// What the page layer of a browser is drawn from. A list that was built once is drawn
/// larger on a finer display, so the scale is a part of it, and so is the tab, by the name
/// that it keeps wherever in the strip it is. The stylesheets of `elsewhere` are written for
/// another medium.
pub open spec fn version_of(
    s: State,
    elsewhere: Seq<u64>,
    builds: SystemBuilds,
    page_builds: u64,
    window: Window,
    marked: bool,
) -> VersionView {
    let tab = s.tab().id;
    match source_of(s.tab(), elsewhere) {
        PageSource::System(page) => VersionView::System { tab, page, builds, scale: window.scale },
        PageSource::Document => VersionView::Document {
            tab,
            builds: page_builds,
            scale: window.scale,
        },
        PageSource::Blank => VersionView::Blank { tab, error: s.tab().error, window, marked },
    }
}

/// The sum of three counters that may run over.
pub open spec fn sum_of_builds(one: u64, two: u64, three: u64) -> int {
    (one + two + three) % 0x1_0000_0000_0000_0000
}

/// What the page's layer, the chrome's and the developer tools' are drawn from: their
/// content versions.
pub open spec fn epochs_of(
    s: State,
    elsewhere: Seq<u64>,
    system: SystemBuilds,
    interface: InterfaceBuilds,
    page_builds: u64,
    window: Window,
    marked: bool,
) -> (VersionView, int, int) {
    (
        version_of(s, elsewhere, system, page_builds, window, marked),
        sum_of_builds(interface.chrome, interface.tabs, interface.toolbar),
        sum_of_builds(interface.inspector, interface.header, interface.body),
    )
}

/// The sum of several counters.
pub open spec fn total(counts: Seq<u64>) -> int
    decreases counts.len(),
{
    if counts.len() == 0 {
        0
    } else {
        total(counts.drop_last()) + counts.last()
    }
}

/// How often something of the interface was built from its root.
pub open spec fn roots(system: SystemBuilds, interface: InterfaceBuilds) -> int {
    system.settings + system.history + system.downloads + system.bookmarks + system.about
        + interface.inspector + interface.chrome
}

/// How often something was built behind a boundary that the interface keeps.
pub open spec fn boundaries(interface: InterfaceBuilds) -> int {
    interface.tabs + interface.toolbar + interface.header + interface.body
}

/// How often something of the interface was described.
pub open spec fn semantics(interface: InterfaceBuilds) -> int {
    interface.tab_semantics + interface.toolbar_semantics + interface.header_semantics
        + interface.body_semantics
}

/// The focus a screen reader is told of: only that of the surface that has the keyboard.
pub open spec fn focus_told(
    keyboard: Surface,
    interface: Option<u64>,
    page: Option<u64>,
) -> Option<u64> {
    match keyboard {
        Surface::Chrome => interface,
        Surface::System => page,
        Surface::Page | Surface::Inspector => None,
    }
}

/// What a screen reader is told of. With no interface the page is the whole window; the
/// page of what has been fetched describes nothing.
pub open spec fn described_in(s: State) -> Described {
    Described {
        document: s.tab().page is Some,
        interface: s.interface,
        page: match s.tab().system {
            Some(page) => if s.interface && page != SystemPage::Cache {
                Some(page)
            } else {
                None
            },
            None => None,
        },
    }
}

/// A browser that has told a screen reader what there is.
pub open spec fn described(s: State) -> State {
    State { accessibility_dirty: false, ..s }
}

/// What the pointer looks like.
pub open spec fn cursor_of(
    s: State,
    interface: bool,
    over_interface: bool,
    in_dock: bool,
    link: bool,
) -> CursorFrom {
    if interface {
        CursorFrom::Interface
    } else if over_interface {
        CursorFrom::Default
    } else if in_dock {
        CursorFrom::Inspector
    } else if s.inspector.picking {
        CursorFrom::Pointer
    } else {
        match s.tab().system {
            Some(page) => CursorFrom::System(page),
            None => if link {
                CursorFrom::Pointer
            } else {
                CursorFrom::Default
            },
        }
    }
}

/// A browser that draws the page and nothing else.
pub open spec fn bare(s: State) -> State {
    State { interface: false, ..s }
}

/// A browser that has told the pages of its first `count` tabs to draw no scrollbars.
pub open spec fn scrollbars_hidden(s: State, count: nat) -> State
    decreases count,
{
    if count == 0 {
        s
    } else {
        scrollbars_hidden(s, (count - 1) as nat).telling_if(
            s.tabs[count - 1].page is Some,
            Command::HideScrollbars(s.tabs[count - 1].id),
        )
    }
}

fn first_of(left: Option<u64>, right: Option<u64>) -> (at: Option<u64>)
    ensures
        at == earlier(left, right),
{
    match left {
        Some(one) => match right {
            Some(other) => Some(
                if one <= other {
                    one
                } else {
                    other
                },
            ),
            None => Some(one),
        },
        None => right,
    }
}

/// When the loop must wake for a page's timers, if it must: the earliest of what the tabs
/// have put on the clock.
pub fn next_timer_deadline(deadlines: &Vec<Option<u64>>) -> (at: Option<u64>)
    ensures
        at == earliest(deadlines@),
{
    let mut at: Option<u64> = None;
    let mut done: usize = 0;
    assert(deadlines@.take(0) =~= seq![]);
    while done < deadlines.len()
        invariant
            done <= deadlines.len(),
            at == earliest(deadlines@.take(done as int)),
        decreases deadlines.len() - done,
    {
        proof {
            let longer = deadlines@.take(done + 1);
            assert(longer.drop_last() =~= deadlines@.take(done as int));
            assert(longer.last() == deadlines@[done as int]);
        }
        at = first_of(at, deadlines[done]);
        done = done + 1;
    }
    assert(deadlines@.take(deadlines@.len() as int) =~= deadlines@);
    at
}

/// The layers a frame draws, back to front.
pub fn layers(interface: bool, highlight: bool, dock: bool) -> (layers: Vec<Layer>)
    ensures
        layers@ == layers_of(interface, highlight, dock),
{
    let mut layers: Vec<Layer> = Vec::new();
    layers.push(Layer::Page);
    if highlight {
        layers.push(Layer::Highlight);
    }
    if interface && dock {
        layers.push(Layer::Inspector);
    }
    if interface {
        layers.push(Layer::Chrome);
    }
    assert(layers@ =~= layers_of(interface, highlight, dock));
    layers
}

/// The part of the window a layer is drawn into.
///
/// The bands tile the window from top to bottom. An open menu is an overlay rather than a
/// band, so the chrome's layer covers the window for as long as there is one.
pub fn band(layer: Layer, width: u32, height: u32, top: u32, bottom: u32, popup_open: bool) -> (rect:
    LayerRect)
    ensures
        rect == band_of(layer, width, height, top, bottom, popup_open),
{
    let content_top = if top <= height {
        top
    } else {
        height
    };
    let content_bottom = if bottom <= height {
        bottom
    } else {
        height
    };
    match layer {
        Layer::Page | Layer::Highlight => LayerRect {
            x: 0,
            y: content_top,
            width,
            height: if content_bottom >= content_top {
                content_bottom - content_top
            } else {
                0
            },
        },
        Layer::Inspector => LayerRect {
            x: 0,
            y: content_bottom,
            width,
            height: height - content_bottom,
        },
        Layer::Chrome => LayerRect {
            x: 0,
            y: 0,
            width,
            height: if popup_open {
                height
            } else {
                content_top
            },
        },
    }
}

/// The rectangle with these edges. One that lies wholly outside the window comes out
/// empty, which is not the same as not knowing what changed.
pub fn dirty_rect(left: u32, top: u32, right: u32, bottom: u32) -> (rect: LayerRect)
    ensures
        rect == rect_between(left, top, right, bottom),
{
    LayerRect {
        x: left,
        y: top,
        width: if right >= left {
            right - left
        } else {
            0
        },
        height: if bottom >= top {
            bottom - top
        } else {
            0
        },
    }
}

/// The list that came of scaling `logical` by `scale`, where that is what was scaled last:
/// a surface that hands back the list it handed back last frame is saying that nothing it
/// draws has moved, so the scaled copy of it is still right.
pub fn scaled(kept: Option<Scaled>, logical: u64, scale: u64) -> (device: Option<u64>)
    ensures
        device == scaled_before(kept, logical, scale),
{
    match kept {
        Some(last) => if last.logical == logical && last.scale == scale {
            Some(last.device)
        } else {
            None
        },
        None => None,
    }
}

/// A content version of the chrome's layer: it moves when the chrome's pixels would.
pub fn chrome_epoch(builds: InterfaceBuilds) -> (epoch: u64)
    ensures
        epoch == sum_of_builds(builds.chrome, builds.tabs, builds.toolbar),
{
    builds.chrome.wrapping_add(builds.tabs).wrapping_add(builds.toolbar)
}

/// A content version of the developer tools' layer.
pub fn inspector_epoch(builds: InterfaceBuilds) -> (epoch: u64)
    ensures
        epoch == sum_of_builds(builds.inspector, builds.header, builds.body),
{
    builds.inspector.wrapping_add(builds.header).wrapping_add(builds.body)
}

/// What drawing has cost so far.
pub fn work_counters(system: SystemBuilds, interface: InterfaceBuilds, pages: &Vec<u64>) -> (work:
    PainterWork)
    requires
        roots(system, interface) + boundaries(interface) <= u64::MAX,
        semantics(interface) <= u64::MAX,
        total(pages@) <= u64::MAX,
    ensures
        work.chrome_reconciles == roots(system, interface),
        work.chrome_layouts == roots(system, interface) + boundaries(interface),
        work.chrome_paints == roots(system, interface) + boundaries(interface),
        work.chrome_semantics == semantics(interface),
        work.page_paints == total(pages@),
{
    let chrome_roots: u64 = system.settings + system.history + system.downloads + system.bookmarks
        + system.about + interface.inspector + interface.chrome;
    let kept: u64 = interface.tabs + interface.toolbar + interface.header + interface.body;
    let mut page_paints: u64 = 0;
    let mut done: usize = 0;
    assert(pages@.take(0) =~= seq![]);
    while done < pages.len()
        invariant
            done <= pages.len(),
            total(pages@) <= u64::MAX,
            page_paints == total(pages@.take(done as int)),
        decreases pages.len() - done,
    {
        proof {
            let longer = pages@.take(done + 1);
            assert(longer.drop_last() =~= pages@.take(done as int));
            assert(longer.last() == pages@[done as int]);
            a_part_is_no_more_than_the_whole(pages@, done + 1);
        }
        page_paints = page_paints + pages[done];
        done = done + 1;
    }
    assert(pages@.take(pages@.len() as int) =~= pages@);
    PainterWork {
        chrome_reconciles: chrome_roots,
        chrome_layouts: chrome_roots + kept,
        chrome_paints: chrome_roots + kept,
        chrome_semantics: interface.tab_semantics + interface.toolbar_semantics
            + interface.header_semantics + interface.body_semantics,
        page_paints,
    }
}

proof fn a_part_is_no_more_than_the_whole(counts: Seq<u64>, count: int)
    requires
        0 <= count <= counts.len(),
    ensures
        total(counts.take(count)) <= total(counts),
    decreases counts.len() - count,
{
    if count < counts.len() {
        let longer = counts.take(count + 1);
        assert(longer.drop_last() =~= counts.take(count));
        a_part_is_no_more_than_the_whole(counts, count + 1);
    } else {
        assert(counts.take(count) =~= counts);
    }
}

/// The focus a screen reader is told of: background surfaces may keep one, but never
/// publish a second.
pub fn accessibility_focus(keyboard: Surface, interface: Option<u64>, page: Option<u64>) -> (focus:
    Option<u64>)
    ensures
        focus == focus_told(keyboard, interface, page),
{
    match keyboard {
        Surface::Chrome => interface,
        Surface::System => page,
        Surface::Page | Surface::Inspector => None,
    }
}

impl Browser {
    /// Whether any tab is loading. The strip turns a mark for each that is, so one behind
    /// the active tab counts as well.
    pub fn is_loading(&self) -> (answer: bool)
        requires
            self.wf(),
        ensures
            answer == any_loading(self@.tabs),
    {
        let count: usize = self.tab_count();
        let mut at: usize = 0;
        while at < count
            invariant
                at <= count,
                self.wf(),
                count == self@.tabs.len(),
                forall|i: int| 0 <= i < at ==> (#[trigger] self@.tabs[i]).pending is None,
            decreases count - at,
        {
            if self.tab_at(at).loading() {
                assert(self@.tabs[at as int].pending is Some);
                return true;
            }
            at = at + 1;
        }
        false
    }

    /// When the window is to be drawn next.
    ///
    /// Only visible animation drives it at the display's pace. The active tab loading is
    /// visible, and so is one loading in the background where the strip turns a mark for
    /// each; a strip that does not is drawn again when that tab changes. Otherwise it is
    /// whatever comes first, because one wake serves them all and a loop told of the later
    /// would sleep through the earlier.
    pub fn next_frame(
        &self,
        marks_turn: bool,
        frames_pending: bool,
        caret: Option<u64>,
        tooltip: Option<u64>,
        timers: Option<u64>,
    ) -> (frame: FrameRequest)
        requires
            self.wf(),
        ensures
            frame == frame_due(self@, marks_turn, frames_pending, caret, tooltip, timers),
    {
        if self.active_tab().loading() || (marks_turn && self.is_loading()) {
            return FrameRequest::Vsync;
        }
        if self.active_tab().scripts && frames_pending {
            return FrameRequest::Vsync;
        }
        match first_of(first_of(caret, tooltip), timers) {
            Some(at) => FrameRequest::At(at),
            None => FrameRequest::Idle,
        }
    }

    /// Note a change that a screen reader has to be told of, if there is one.
    pub fn retell_if(&mut self, changed: bool)
        requires
            old(self).wf(),
        ensures
            final(self).wf(),
            final(self)@ == told_again(old(self)@, changed),
    {
        proof {
            reveal(Browser::state);
        }
        self.accessibility_dirty = self.accessibility_dirty || changed;
    }

    /// Whether an event that has been dealt with is worth a frame. Any is but a move of the
    /// pointer, and a move only where something follows the pointer.
    pub fn handle_event(&mut self, before: Inspector, moved: Option<Moved>) -> (frame: FrameRequest)
        requires
            old(self).wf(),
        ensures
            final(self).wf(),
            frame == match moved {
                Some(moved) => if move_shows(old(self)@, before, moved) {
                    FrameRequest::Now
                } else {
                    FrameRequest::Idle
                },
                None => FrameRequest::Now,
            },
            final(self)@ == told_again(
                old(self)@,
                match moved {
                    Some(moved) => move_retells(moved),
                    None => true,
                },
            ),
    {
        match moved {
            None => {
                self.retell_if(true);
                FrameRequest::Now
            },
            Some(moved) => {
                let inspector = self.inspector();
                let system = self.active_tab().system.is_some();
                let chosen = before.picking && match (before.selected, inspector.selected) {
                    (Some(was), Some(is)) => was != is,
                    (None, None) => false,
                    _ => true,
                };
                let chrome = !moved.was_below_bar || !moved.below_bar || moved.popup_open
                    || moved.captured;
                let panel = inspector.open && (moved.was_in_dock || moved.in_dock);
                let own = system && (moved.was_below_bar || moved.below_bar);
                self.retell_if(!moved.still && moved.damage_changed && moved.layout_damaged);
                if !moved.still && (chrome || panel || chosen || own || moved.damage_changed) {
                    FrameRequest::Now
                } else {
                    FrameRequest::Idle
                }
            },
        }
    }

    /// How the strip names the tabs, in order.
    pub fn labels(&self) -> (labels: Vec<TabLabel>)
        requires
            self.wf(),
        ensures
            labels.deep_view() == self@.tabs.map_values(|tab: TabView| label_of(tab)),
    {
        let count: usize = self.tab_count();
        let mut labels: Vec<TabLabel> = Vec::new();
        let mut at: usize = 0;
        while at < count
            invariant
                at <= count,
                self.wf(),
                count == self@.tabs.len(),
                labels.deep_view().len() == at,
                forall|i: int|
                    0 <= i < at ==> #[trigger] labels.deep_view()[i] == label_of(self@.tabs[i]),
            decreases count - at,
        {
            let ghost before = labels.deep_view();
            let tab = self.tab_at(at);
            let label = TabLabel { id: tab.id.0, title: tab.title.clone(), loading: tab.loading() };
            labels.push(label);
            assert(labels.deep_view() =~= before.push(label.deep_view()));
            at = at + 1;
        }
        assert(labels.deep_view() =~= self@.tabs.map_values(|tab: TabView| label_of(tab)));
        labels
    }

    /// Where what fills the content area comes from. The stylesheets of `elsewhere` are
    /// written for another medium.
    pub fn page_source(&self, elsewhere: &Vec<u64>) -> (source: PageSource)
        requires
            self.wf(),
        ensures
            source == source_of(self@.tab(), elsewhere@),
    {
        let index = self.active_index();
        let tab = self.active_tab();
        match tab.system {
            Some(page) => PageSource::System(page),
            None => if tab.page.is_some() && !self.blocked_on_style(index, elsewhere) {
                PageSource::Document
            } else {
                PageSource::Blank
            },
        }
    }

    /// What the page layer is drawn from. `page_builds` counts what was built for the tab over
    /// all the documents it has held. The counters advance only when something is built
    /// again, so a page that has not changed keeps the pixels it has, at the scale it has
    /// them; the blank page, which also stands in for a document that waits for its style,
    /// has no counter, so what it shows stands for it. A tab is told from another by its
    /// name: where it is in the strip is no identity.
    pub fn page_epoch(
        &self,
        elsewhere: &Vec<u64>,
        builds: SystemBuilds,
        page_builds: u64,
        window: Window,
        marked: bool,
    ) -> (version: PageVersion)
        requires
            self.wf(),
        ensures
            version.deep_view() == version_of(
                self@,
                elsewhere@,
                builds,
                page_builds,
                window,
                marked,
            ),
    {
        let source = self.page_source(elsewhere);
        let tab = self.active_tab();
        let id = tab.id;
        match source {
            PageSource::System(page) => PageVersion::System {
                tab: id,
                page,
                builds,
                scale: window.scale,
            },
            PageSource::Document => PageVersion::Document {
                tab: id,
                builds: page_builds,
                scale: window.scale,
            },
            PageSource::Blank => PageVersion::Blank {
                tab: id,
                error: copy_text(&tab.error),
                window,
                marked,
            },
        }
    }

    /// Note that a screen reader has been told what there is. Says whether it had to be.
    fn describe(&mut self) -> (due: bool)
        requires
            old(self).wf(),
        ensures
            final(self).wf(),
            due == old(self)@.accessibility_dirty,
            final(self)@ == described(old(self)@),
    {
        proof {
            reveal(Browser::state);
        }
        let due = self.accessibility_dirty;
        self.accessibility_dirty = false;
        due
    }

    /// What a screen reader has to be told of, if anything it can tell of has changed since
    /// it was last told.
    pub fn accessibility(&mut self) -> (told: Option<Described>)
        requires
            old(self).wf(),
        ensures
            final(self).wf(),
            told == if old(self)@.accessibility_dirty {
                Some(described_in(old(self)@))
            } else {
                None
            },
            final(self)@ == described(old(self)@),
    {
        if !self.describe() {
            return None;
        }
        let interface = self.draws_interface();
        let tab = self.active_tab();
        let page = match tab.system {
            Some(page) => if interface && page != SystemPage::Cache {
                Some(page)
            } else {
                None
            },
            None => None,
        };
        Some(Described { document: tab.page.is_some(), interface, page })
    }

    /// The layers of a frame, back to front, each with the part of the window it is drawn
    /// into, for whoever keeps their pixels from one frame to the next. None where the
    /// interface is not drawn: such a frame is drawn whole.
    pub fn compose(&self, frame: Frame) -> (bands: Option<Vec<Band>>)
        requires
            self.wf(),
        ensures
            match bands {
                Some(bands) => composed(self@.interface, frame) == Some(bands@),
                None => composed(self@.interface, frame) is None,
            },
    {
        if !self.draws_interface() {
            return None;
        }
        let order = layers(true, frame.highlight, frame.dock);
        let mut bands: Vec<Band> = Vec::new();
        let mut at: usize = 0;
        while at < order.len()
            invariant
                at <= order.len(),
                order@ == layers_of(true, frame.highlight, frame.dock),
                bands@ == order@.take(at as int).map_values(|layer: Layer| band_in(frame, layer)),
            decreases order.len() - at,
        {
            let layer = order[at];
            let dirty = match layer {
                Layer::Page => frame.page_dirty,
                Layer::Chrome => frame.chrome_dirty,
                Layer::Highlight | Layer::Inspector => None,
            };
            let rect = band(
                layer,
                frame.width,
                frame.height,
                frame.top,
                frame.bottom,
                frame.popup_open,
            );
            bands.push(Band { layer, rect, dirty });
            at = at + 1;
            assert(bands@ =~= order@.take(at as int).map_values(
                |layer: Layer| band_in(frame, layer),
            ));
        }
        assert(order@.take(at as int) =~= order@);
        Some(bands)
    }

    /// What the pointer looks like where it is: whether the interface has something there
    /// that says, whether it is over the interface or over the developer tools, and whether
    /// there is a link under it.
    pub fn update_cursor(&self, interface: bool, over_interface: bool, in_dock: bool, link: bool) -> (cursor:
        CursorFrom)
        requires
            self.wf(),
        ensures
            cursor == cursor_of(self@, interface, over_interface, in_dock, link),
    {
        if interface {
            CursorFrom::Interface
        } else if over_interface {
            CursorFrom::Default
        } else if in_dock {
            CursorFrom::Inspector
        } else if self.inspector().picking {
            CursorFrom::Pointer
        } else {
            match self.active_tab().system {
                Some(page) => CursorFrom::System(page),
                None => if link {
                    CursorFrom::Pointer
                } else {
                    CursorFrom::Default
                },
            }
        }
    }

    /// Draw no interface.
    fn draw_no_interface(&mut self)
        requires
            old(self).wf(),
        ensures
            final(self).wf(),
            final(self)@ == bare(old(self)@),
    {
        proof {
            reveal(Browser::state);
        }
        self.interface = false;
    }

    /// Draw the page and nothing else, for a picture that is going to be compared with one
    /// from elsewhere.
    pub fn hide_interface(&mut self)
        requires
            old(self).wf(),
        ensures
            final(self).wf(),
            final(self)@ == scrollbars_hidden(bare(old(self)@), old(self)@.tabs.len()),
    {
        self.draw_no_interface();
        let ghost before = self@;
        let count: usize = self.tab_count();
        let mut at: usize = 0;
        while at < count
            invariant
                at <= count,
                self.wf(),
                count == before.tabs.len(),
                self@.tabs == before.tabs,
                self@ == scrollbars_hidden(before, at as nat),
            decreases count - at,
        {
            let tab = self.tab_at(at);
            let id = tab.id;
            let shown = tab.page.is_some();
            self.tell_if(shown, Command::HideScrollbars(id));
            at = at + 1;
        }
    }
}

/// With nothing popped up, the chrome, the content and the developer tools fill a window
/// from top to bottom: each begins where the one above it ends, and the last ends where
/// the window does.
pub proof fn the_bands_tile_the_window(width: u32, height: u32, top: u32, bottom: u32)
    requires
        top <= bottom,
    ensures
        ({
            let chrome = band_of(Layer::Chrome, width, height, top, bottom, false);
            let page = band_of(Layer::Page, width, height, top, bottom, false);
            let dock = band_of(Layer::Inspector, width, height, top, bottom, false);
            &&& chrome.y == 0
            &&& chrome.y + chrome.height == page.y
            &&& page.y + page.height == dock.y
            &&& dock.y + dock.height == height
            &&& chrome.width == width && page.width == width && dock.width == width
        }),
{
}

/// No layer reaches outside the window.
pub proof fn no_layer_leaves_the_window(
    layer: Layer,
    width: u32,
    height: u32,
    top: u32,
    bottom: u32,
    popup_open: bool,
)
    ensures
        ({
            let rect = band_of(layer, width, height, top, bottom, popup_open);
            rect.x + rect.width <= width && rect.y + rect.height <= height
        }),
{
}

/// The layers that are kept are the layers that are painted, in the same order: the page at
/// the back and the chrome in front.
pub proof fn composing_draws_what_painting_draws(frame: Frame)
    ensures
        composed(true, frame) is Some,
        ({
            let bands = composed(true, frame)->0;
            let painted = layers_of(true, frame.highlight, frame.dock);
            &&& bands.len() == painted.len()
            &&& forall|i: int|
                0 <= i < bands.len() ==> (#[trigger] bands[i]).layer == painted[i]
            &&& bands.first().layer == Layer::Page
            &&& bands.last().layer == Layer::Chrome
        }),
        composed(false, frame) is None,
{
}

/// Another tab is drawn anew, however often either of the two has been built and wherever in
/// the strip they are, and so is any page at another scale.
pub proof fn another_tab_or_scale_is_another_version(
    s: State,
    t: State,
    elsewhere: (Seq<u64>, Seq<u64>),
    builds: (SystemBuilds, SystemBuilds),
    page_builds: (u64, u64),
    windows: (Window, Window),
    marked: (bool, bool),
)
    requires
        s.tab().id != t.tab().id || windows.0.scale != windows.1.scale,
    ensures
        version_of(s, elsewhere.0, builds.0, page_builds.0, windows.0, marked.0) != version_of(
            t,
            elsewhere.1,
            builds.1,
            page_builds.1,
            windows.1,
            marked.1,
        ),
{
}

/// Turning to another tab of a window is turning to another version, and so is closing the
/// tab that is read; carrying a tab elsewhere in the strip is none.
pub proof fn a_version_follows_its_tab(
    s: State,
    index: int,
    id: TabId,
    to: int,
    elsewhere: Seq<u64>,
    builds: SystemBuilds,
    page_builds: u64,
    window: Window,
    marked: bool,
)
    requires
        s.wf(),
        names_last(s),
        0 <= index < s.tabs.len(),
        0 <= to,
    ensures
        ({
            let before = version_of(s, elsewhere, builds, page_builds, window, marked);
            &&& index != s.active ==> version_of(
                tab_selected(s, index),
                elsewhere,
                builds,
                page_builds,
                window,
                marked,
            ) != before
            &&& s.tabs.len() > 1 || names_last(emptied(s)) ==> version_of(
                tab_closed(s, s.active),
                elsewhere,
                builds,
                page_builds,
                window,
                marked,
            ) != before
            &&& version_of(
                tab_moved(s, id, to),
                elsewhere,
                builds,
                page_builds,
                window,
                marked,
            ) == before
        }),
{
    no_two_tabs_share_a_name(s);
    which_tab_is_read(s, index, id, to);
}

/// Two frames with nothing between them are composed alike, whatever is known of what
/// changed: the same layers, in the same order, into the same parts of the window, with the
/// same content versions. That a screen reader was told in between changes none of it.
pub proof fn frames_with_nothing_between_are_composed_alike(
    s: State,
    one: Frame,
    other: Frame,
    elsewhere: Seq<u64>,
    system: SystemBuilds,
    interface: InterfaceBuilds,
    page_builds: u64,
    window: Window,
    marked: bool,
)
    requires
        other == (Frame {
            page_dirty: other.page_dirty,
            chrome_dirty: other.chrome_dirty,
            ..one
        }),
    ensures
        ({
            let after = described(s);
            let bands = composed(s.interface, one);
            let again = composed(after.interface, other);
            &&& (bands is Some) == (again is Some)
            &&& bands is Some ==> bands->0.len() == again->0.len()
            &&& bands is Some ==> forall|i: int|
                0 <= i < bands->0.len() ==> (#[trigger] bands->0[i]).layer == again->0[i].layer
                    && bands->0[i].rect == again->0[i].rect
            &&& epochs_of(
                after,
                elsewhere,
                system,
                interface,
                page_builds,
                window,
                marked,
            ) == epochs_of(s, elsewhere, system, interface, page_builds, window, marked)
        }),
{
}

/// A frame that changed nothing scales nothing again: the same list at the same scale is
/// handed back as it was scaled before, and any other list or scale is not.
pub proof fn a_list_is_scaled_once(kept: Scaled, logical: u64, scale: u64)
    ensures
        scaled_before(Some(kept), kept.logical, kept.scale) == Some(kept.device),
        logical != kept.logical || scale != kept.scale ==> scaled_before(
            Some(kept),
            logical,
            scale,
        ) is None,
        scaled_before(None, logical, scale) is None,
{
}

/// Something built again is another content version of its layer.
pub proof fn what_is_built_again_is_another_version(one: u64, two: u64, three: u64, next: u64)
    requires
        next == one + 1,
    ensures
        sum_of_builds(next, two, three) != sum_of_builds(one, two, three),
        sum_of_builds(two, next, three) != sum_of_builds(two, one, three),
        sum_of_builds(two, three, next) != sum_of_builds(two, three, one),
{
}

/// A wake for the earliest of several moments sleeps through none of them.
pub proof fn the_earliest_sleeps_through_none(moments: Seq<Option<u64>>, at: int)
    requires
        0 <= at < moments.len(),
        moments[at] is Some,
    ensures
        earliest(moments) is Some,
        earliest(moments)->0 <= moments[at]->0,
    decreases moments.len(),
{
    if at < moments.len() - 1 {
        the_earliest_sleeps_through_none(moments.drop_last(), at);
    }
}

/// A window is drawn at the display's own pace exactly while what is read is loading, while any
/// tab is and the marks turn, or while the page's own code waits for a frame; and otherwise at
/// the first of the moments something is due at, or when something asks for it.
pub proof fn a_frame_is_due_when_something_is(
    s: State,
    marks_turn: bool,
    frames_pending: bool,
    caret: Option<u64>,
    tooltip: Option<u64>,
    timers: Option<u64>,
)
    ensures
        ({
            let due = frame_due(s, marks_turn, frames_pending, caret, tooltip, timers);
            let loading = exists|i: int| 0 <= i < s.tabs.len() && (#[trigger] s.tabs[i]).pending is Some;
            let pace = s.tab().pending is Some || (marks_turn && loading) || (s.tab().scripts
                && frames_pending);
            let none = caret is None && tooltip is None && timers is None;
            &&& pace <==> due == FrameRequest::Vsync
            &&& !pace && none <==> due == FrameRequest::Idle
            &&& !pace && !none ==> due is At
            &&& due is At && caret is Some ==> due->0 <= caret->0
            &&& due is At && tooltip is Some ==> due->0 <= tooltip->0
            &&& due is At && timers is Some ==> due->0 <= timers->0
            &&& due is At ==> caret == Some(due->0) || tooltip == Some(due->0) || timers == Some(
                due->0,
            )
        }),
{
}

/// The earliest of several moments is one of them, and there is none only where none of them
/// is.
pub proof fn the_earliest_is_one_of_them(moments: Seq<Option<u64>>)
    ensures
        earliest(moments) is Some ==> moments.contains(earliest(moments)),
        earliest(moments) is None ==> forall|i: int|
            0 <= i < moments.len() ==> (#[trigger] moments[i]) is None,
    decreases moments.len(),
{
    if moments.len() > 0 {
        let fewer = moments.drop_last();
        the_earliest_is_one_of_them(fewer);
        if earliest(moments) is Some {
            if earliest(moments) == moments.last() {
                assert(moments[moments.len() - 1] == earliest(moments));
            } else {
                let i = choose|i: int| 0 <= i < fewer.len() && fewer[i] == earliest(fewer);
                assert(moments[i] == earliest(moments));
            }
        } else {
            assert forall|i: int| 0 <= i < moments.len() implies (#[trigger] moments[i]) is None by {
                if i < fewer.len() {
                    assert(fewer[i] == moments[i]);
                }
            }
        }
    }
}

/// What fills the content area is one of the browser's own pages where the tab is on one, the
/// document where it has one that waits for no stylesheet it cannot be drawn without, and
/// nothing otherwise.
pub proof fn a_document_is_drawn_once_it_can_be(tab: TabView, elsewhere: Seq<u64>)
    ensures
        ({
            let source = source_of(tab, elsewhere);
            let blocked = tab.pending is Some && exists|i: int|
                0 <= i < tab.pending->0.outstanding.len() && (
                #[trigger] tab.pending->0.outstanding[i]).resource is Stylesheet
                    && !elsewhere.contains(tab.pending->0.outstanding[i].resource->Stylesheet_0);
            &&& tab.system is Some ==> source == PageSource::System(tab.system->0)
            &&& tab.system is None && tab.page is Some && !blocked ==> source
                == PageSource::Document
            &&& tab.system is None && (tab.page is None || blocked) ==> source == PageSource::Blank
        }),
{
    if tab.pending is Some {
        let load = tab.pending->0;
        assert forall|i: int| 0 <= i < load.outstanding.len() implies is_style_here(
            #[trigger] load.outstanding[i],
            elsewhere,
        ) == (load.outstanding[i].resource is Stylesheet && !elsewhere.contains(
            load.outstanding[i].resource->Stylesheet_0,
        )) by {}
    }
}

/// A frame with no interface is the page and what is highlighted on it; one with it has the
/// dock over the page where there is one, and the chrome over everything. What is popped up is
/// drawn over the whole window, and each layer is drawn again where it changed itself.
pub proof fn each_layer_has_its_place(frame: Frame, highlight: bool, dock: bool)
    ensures
        layers_of(false, highlight, dock).contains(Layer::Page),
        !layers_of(false, highlight, dock).contains(Layer::Chrome),
        !layers_of(false, highlight, dock).contains(Layer::Inspector),
        layers_of(false, highlight, dock).contains(Layer::Highlight) == highlight,
        layers_of(true, highlight, dock).contains(Layer::Highlight) == highlight,
        layers_of(true, highlight, dock).contains(Layer::Inspector) == dock,
        layers_of(true, highlight, dock)[0] == Layer::Page,
        layers_of(true, highlight, dock).last() == Layer::Chrome,
        band_in(frame, Layer::Page).dirty == frame.page_dirty,
        band_in(frame, Layer::Chrome).dirty == frame.chrome_dirty,
        band_in(frame, Layer::Highlight).dirty is None,
        band_in(frame, Layer::Inspector).dirty is None,
        band_in(frame, Layer::Highlight).rect == band_in(frame, Layer::Page).rect,
        frame.popup_open ==> band_in(frame, Layer::Chrome).rect.height == frame.height,
        band_in(frame, Layer::Chrome).rect.y == 0,
{
    let bare = layers_of(false, highlight, dock);
    let full = layers_of(true, highlight, dock);
    assert(bare[0] == Layer::Page);
    if highlight {
        assert(bare[1] == Layer::Highlight && full[1] == Layer::Highlight);
    }
    if dock {
        assert(full[full.len() - 2] == Layer::Inspector);
    }
}

/// A screen reader is told of the focus of the surface that has the keyboard, of the document
/// where there is one, and of the browser's own page that is shown with the interface round
/// it; once it was told there is nothing to tell it until something changes.
pub proof fn a_reader_is_told_of_what_has_the_keyboard(
    s: State,
    interface: Option<u64>,
    page: Option<u64>,
    changed: bool,
)
    ensures
        focus_told(Surface::Chrome, interface, page) == interface,
        focus_told(Surface::System, interface, page) == page,
        focus_told(Surface::Page, interface, page) is None,
        focus_told(Surface::Inspector, interface, page) is None,
        described_in(s).document == s.tab().page is Some,
        described_in(s).interface == s.interface,
        s.interface && s.tab().system is Some && s.tab().system != Some(SystemPage::Cache)
            ==> described_in(s).page == s.tab().system,
        !s.interface || s.tab().system is None || s.tab().system == Some(SystemPage::Cache)
            ==> described_in(s).page is None,
        !described(s).accessibility_dirty,
        told_again(s, changed).accessibility_dirty == (s.accessibility_dirty || changed),
        label_of(s.tab()).id == s.tab().id.0,
        label_of(s.tab()).title == s.tab().title,
        label_of(s.tab()).loading == s.tab().pending is Some,
{
}

/// The pointer looks as whatever is under it says: the interface, the developer tools in their
/// dock, the picker, one of the browser's own pages, or a link; and ordinary anywhere else.
pub proof fn the_pointer_looks_as_what_is_under_it_says(
    s: State,
    interface: bool,
    over_interface: bool,
    in_dock: bool,
    link: bool,
)
    ensures
        ({
            let cursor = cursor_of(s, interface, over_interface, in_dock, link);
            let page = !interface && !over_interface && !in_dock;
            &&& interface ==> cursor == CursorFrom::Interface
            &&& !interface && over_interface ==> cursor == CursorFrom::Default
            &&& !interface && !over_interface && in_dock ==> cursor == CursorFrom::Inspector
            &&& page && s.inspector.picking ==> cursor == CursorFrom::Pointer
            &&& page && !s.inspector.picking && s.tab().system is Some ==> cursor
                == CursorFrom::System(s.tab().system->0)
            &&& page && !s.inspector.picking && s.tab().system is None && link ==> cursor
                == CursorFrom::Pointer
            &&& page && !s.inspector.picking && s.tab().system is None && !link ==> cursor
                == CursorFrom::Default
        }),
{
}

/// Hiding the interface draws no scrollbar on any page, and no tab is otherwise changed.
pub proof fn every_page_loses_its_scrollbars(s: State, count: nat, i: int)
    requires
        count <= s.tabs.len(),
        0 <= i < count,
    ensures
        scrollbars_hidden(s, count).tabs == s.tabs,
        s.tabs[i].page is Some ==> scrollbars_hidden(s, count).told.contains(
            Command::HideScrollbars(s.tabs[i].id),
        ),
        !bare(s).interface,
        bare(s).tabs == s.tabs,
    decreases count,
{
    reveal(saying);
    let after = scrollbars_hidden(s, count).told;
    let fewer = scrollbars_hidden(s, (count - 1) as nat).told;
    hiding_changes_no_tab(s, count);
    if i < count - 1 {
        every_page_loses_its_scrollbars(s, (count - 1) as nat, i);
        if s.tabs[i].page is Some {
            let at = choose|at: int|
                0 <= at < fewer.len() && fewer[at] == Command::HideScrollbars(s.tabs[i].id);
            assert(after[at] == fewer[at]);
        }
    } else if s.tabs[i].page is Some {
        assert(after[after.len() - 1] == Command::HideScrollbars(s.tabs[i].id));
    }
}

proof fn hiding_changes_no_tab(s: State, count: nat)
    ensures
        scrollbars_hidden(s, count).tabs == s.tabs,
    decreases count,
{
    if count > 0 {
        hiding_changes_no_tab(s, (count - 1) as nat);
    }
}

/// A pointer that stays where it is is worth no frame. One that moves is where the interface is
/// involved, where a popup or a drag has it, or where what is under it changed.
pub proof fn a_move_is_worth_a_frame_where_it_changes_something(
    s: State,
    before: Inspector,
    moved: Moved,
)
    ensures
        moved.still ==> !move_shows(s, before, moved) && !move_retells(moved),
        !moved.still && (!moved.was_below_bar || !moved.below_bar) ==> move_shows(s, before, moved),
        !moved.still && (moved.popup_open || moved.captured || moved.damage_changed) ==> move_shows(
            s,
            before,
            moved,
        ),
        !moved.still && s.tab().system is Some ==> move_shows(s, before, moved),
        !moved.still && moved.was_below_bar && moved.below_bar && !moved.popup_open
            && !moved.captured && !moved.damage_changed && s.tab().system is None
            && !s.inspector.open && !before.picking ==> !move_shows(s, before, moved),
        move_retells(moved) ==> move_shows(s, before, moved),
{
}

/// What the page layer is drawn from is another version once what fills it was built again, or
/// says something else.
pub proof fn a_page_built_again_is_another_version(
    s: State,
    t: State,
    elsewhere: Seq<u64>,
    builds: (SystemBuilds, SystemBuilds),
    page_builds: (u64, u64),
    windows: (Window, Window),
    marked: (bool, bool),
)
    requires
        s.tab() == t.tab() || s.tab().error != t.tab().error,
        s.tab().system == t.tab().system,
        s.tab().page is Some == t.tab().page is Some,
        s.tab().pending == t.tab().pending,
    ensures
        ({
            let one = version_of(s, elsewhere, builds.0, page_builds.0, windows.0, marked.0);
            let other = version_of(t, elsewhere, builds.1, page_builds.1, windows.1, marked.1);
            let source = source_of(s.tab(), elsewhere);
            &&& source is System && builds.0 != builds.1 ==> one != other
            &&& source is Document && page_builds.0 != page_builds.1 ==> one != other
            &&& source is Blank && (windows.0 != windows.1 || marked.0 != marked.1 || s.tab().error
                != t.tab().error) ==> one != other
            &&& s.tab() == t.tab() && builds.0 == builds.1 && page_builds.0 == page_builds.1
                && windows.0 == windows.1 && marked.0 == marked.1 ==> one == other
        }),
{
}

/// The chrome's layer is another version once the chrome, the strip or the toolbar was built
/// again, the dock's once the developer tools or a part of them was, and neither for the sake
/// of the other.
pub proof fn a_layer_built_again_is_another_version(
    s: State,
    elsewhere: Seq<u64>,
    system: SystemBuilds,
    before: InterfaceBuilds,
    after: InterfaceBuilds,
    page_builds: u64,
    window: Window,
    marked: bool,
)
    ensures
        ({
            let one = epochs_of(s, elsewhere, system, before, page_builds, window, marked);
            let other = epochs_of(s, elsewhere, system, after, page_builds, window, marked);
            let chrome = (before.chrome, before.tabs, before.toolbar);
            let now = (after.chrome, after.tabs, after.toolbar);
            let dock = (before.inspector, before.header, before.body);
            let later = (after.inspector, after.header, after.body);
            &&& one.0 == other.0
            &&& chrome == now ==> one.1 == other.1
            &&& dock == later ==> one.2 == other.2
            &&& after.chrome == before.chrome + 1 && after.tabs == before.tabs && after.toolbar
                == before.toolbar ==> one.1 != other.1
            &&& after.tabs == before.tabs + 1 && after.chrome == before.chrome && after.toolbar
                == before.toolbar ==> one.1 != other.1
            &&& after.toolbar == before.toolbar + 1 && after.chrome == before.chrome && after.tabs
                == before.tabs ==> one.1 != other.1
            &&& after.inspector == before.inspector + 1 && after.header == before.header
                && after.body == before.body ==> one.2 != other.2
            &&& after.header == before.header + 1 && after.inspector == before.inspector
                && after.body == before.body ==> one.2 != other.2
            &&& after.body == before.body + 1 && after.inspector == before.inspector
                && after.header == before.header ==> one.2 != other.2
        }),
{
}

/// A rectangle between edges reaches from the first to the last of them, and has no room where
/// they have crossed.
pub proof fn a_rectangle_reaches_its_edges(left: u32, top: u32, right: u32, bottom: u32)
    ensures
        ({
            let rect = rect_between(left, top, right, bottom);
            &&& rect.x == left && rect.y == top
            &&& left <= right ==> rect.x + rect.width == right
            &&& top <= bottom ==> rect.y + rect.height == bottom
            &&& left > right ==> rect.width == 0
            &&& top > bottom ==> rect.height == 0
        }),
{
}

} // verus!
