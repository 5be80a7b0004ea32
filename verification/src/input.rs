//! Where an event goes: which surface is asked about it, and in what order.
//!
//! An event settles at once what is the browser's own to settle, and names the surfaces
//! that are to be asked about the rest, in turn, until one of them takes it. What a
//! surface answered comes back through the function that says what to do about it.

use vstd::prelude::*;

use crate::address::{bookmark_toggled, zoomed};
use crate::browser::{
    saying, scheme_in_force, Appearance, Browser, Command, Inspector, Point, Scheme, State, Surface,
    Target,
};
use crate::keys::SliderMotion;
use crate::navigation::{
    gone_home, menu_dismissed, navigated, reloaded, reloaded_ignoring_cache, stopped,
    system_opened_beside, travelled,
};
use crate::offering::{applied, retold, suggestions_refreshed, PageFacts, UiAction};
use crate::strip::{tab_closed, tab_opened};
use crate::surface::{activated, inspector_toggled, popup_dismissed, surface_of};
use crate::system::SystemPage;
use crate::tab::TabView;
use crate::zoom::{
    a_step_in_is_larger_until_the_end, a_step_out_is_smaller_until_the_end, stepped, ZoomStep,
    LARGEST, SMALLEST,
};

verus! {

/// A key.
#[derive(Clone, Copy, Debug, PartialEq, Eq, Structural)]
pub enum Key {
    Character(char),
    Enter,
    Escape,
    Tab,
    Backspace,
    Delete,
    Left,
    Right,
    Up,
    Down,
    Home,
    End,
    PageUp,
    PageDown,
    F5,
    Other,
}

/// What was held with a key.
#[derive(Clone, Copy, Debug, PartialEq, Eq, Structural)]
pub struct Modifiers {
    pub shift: bool,
    pub control: bool,
    pub alt: bool,
    pub command: bool,
    /// Whether the platform's own accelerator is among them.
    pub accelerator: bool,
}

/// Which modifier a platform opens its developer tools with.
#[derive(Clone, Copy, Debug, PartialEq, Eq, Structural)]
pub enum Platform {
    Mac,
    Other,
}

/// What a press on the page selects.
#[derive(Clone, Copy, Debug, PartialEq, Eq, Structural)]
pub enum SelectKind {
    /// From where it landed.
    From,
    /// The word it landed on.
    Word,
    /// The block it landed in.
    Paragraph,
}

/// Who is asked about an event, and what.
#[derive(Clone, Copy, Debug, PartialEq, Eq, Structural)]
pub enum Ask {
    /// The developer tools, about the event.
    Inspector,
    /// One of the browser's own pages, about the event.
    System(SystemPage),
    /// The browser's interface, about the event.
    Interface,
    /// The document, about the event.
    Page,
    /// The document: walk to the next thing in it, or the one before.
    FocusStep(bool),
    /// The document: the link the keyboard has reached.
    FocusedLink,
    /// The document: what is selected, to copy it.
    CopySelection,
    /// The document: send the form of the field the caret is in.
    ImplicitSubmit,
    /// The document: edit the field the caret is in.
    Edit,
    /// The document: move what is selected.
    MoveSelection,
    /// The document: scroll.
    Scroll,
    /// The document: take hold of its scrollbar.
    Scrollbar,
    /// The document: the link under the pointer.
    LinkUnder,
    /// The document: press the control under the pointer.
    Control,
    /// The document: select.
    Select(SelectKind),
    /// The document: select as far as the pointer.
    SelectTo,
    /// The document: drag its scrollbar.
    DragScrollbar,
    /// The document: the pointer is over it, or has left it.
    Hover(bool),
    /// The document: the button was let go.
    Release,
    /// The interface: what it described under this number.
    InterfaceItem(usize),
    /// One of the browser's own pages: what it described under this number.
    SystemItem(SystemPage, usize),
}

/// What a screen reader wants done to something in the document.
#[derive(Clone, Copy, Debug, PartialEq, Eq, Structural)]
pub enum ReaderAction {
    Focus,
    Increment,
    Decrement,
    Activate,
}

/// What is done to the document for a screen reader, in turn.
#[derive(Clone, Copy, Debug, PartialEq, Eq, Structural)]
pub enum ReaderStep {
    /// Give this element the keyboard.
    Focus(u64),
    /// Move the slider that has the keyboard.
    Slide(SliderMotion),
    /// Press this element.
    Activate(u64),
    /// Send the form that pressing it asked to be sent.
    FollowSubmission,
    /// Ask for the files that pressing it asked for.
    AnswerFileRequest,
}

/// A command of the menu bar.
#[derive(Clone, Copy, Debug, PartialEq, Eq, Structural)]
pub enum MenuCommand {
    Reload,
    ReloadIgnoringCache,
    Stop,
    Back,
    Forward,
    Home,
    Settings,
    ShowHistory,
    ShowDownloads,
    ShowBookmarks,
    ShowCookies,
    ShowCache,
    ToggleBookmark,
    ToggleDevTools,
    ZoomIn,
    ZoomOut,
    ActualSize,
    NewTab,
    CloseTab,
    Cut,
    Copy,
    Paste,
    SelectAll,
    /// One that is not implemented.
    Other,
}

/// What became of a press before any surface was asked about it.
#[derive(Clone, Copy, Debug, PartialEq, Eq, Structural)]
pub enum Pressed {
    /// It is the developer tools'.
    Inspector,
    /// It chose an element.
    Picked,
    /// It goes on to whatever is under it.
    GoesOn,
}

/// Something that happened to the window.
#[derive(Clone, Copy, Debug, PartialEq, Eq, Structural)]
pub enum Event {
    /// The platform's scheme is another one.
    AppearanceChanged(Scheme),
    /// The window was resized; whether its logical size is another one.
    Resized { changed: bool },
    /// The pointer moved. Whether it is over the document, whether the interface has it,
    /// and whether the document's scrollbar is being dragged.
    PointerMoved { at: Point, over_page: bool, owns_pointer: bool, dragging: bool },
    /// A press went past what is drawn over the page. Whether a popup owned it, whether it
    /// is below the toolbar, whether the interface has the pointer, and which click of a
    /// run it is.
    PressGoesOn { owned: bool, below_bar: bool, owns_pointer: bool, clicks: u32 },
    PointerReleased,
    /// A key was pressed; whether something is popped up.
    KeyPressed { key: Key, modifiers: Modifiers, platform: Platform, popup_open: bool },
    /// A character was typed.
    TextInput,
    /// The wheel turned. With the accelerator it is a zoom, if it turned at all.
    Scroll {
        accelerator: bool,
        turn: Option<ZoomStep>,
        owns_pointer: bool,
        over_strip: bool,
        popup_open: bool,
        in_dock: bool,
    },
    /// A screen reader asked for something described under this number, or for something
    /// in the document; how many things the toolbar described.
    AccessibilityRequest { index: Option<usize>, toolbar: usize },
    /// Anything else.
    Other,
}

/// What an event came to: the browser after it, and who is to be asked.
pub struct Routed {
    pub state: State,
    pub asks: Seq<Ask>,
}

/// `ask`, where `condition` holds.
pub open spec fn if_so(condition: bool, ask: Ask) -> Seq<Ask> {
    if condition {
        seq![ask]
    } else {
        seq![]
    }
}

/// Whether these are the modifiers the developer tools open with.
pub open spec fn opens_inspector(modifiers: Modifiers, platform: Platform) -> bool {
    modifiers.alt && match platform {
        Platform::Mac => modifiers.command,
        Platform::Other => modifiers.control,
    }
}

/// Which way a key zooms, if it does.
pub open spec fn zooming(key: Key) -> Option<ZoomStep> {
    match key {
        Key::Character(character) => if character == '=' || character == '+' {
            Some(ZoomStep::In)
        } else if character == '-' || character == '_' {
            Some(ZoomStep::Out)
        } else if character == '0' {
            Some(ZoomStep::Reset)
        } else {
            None
        },
        _ => None,
    }
}

/// Whether the document has the keyboard.
pub open spec fn document_reads(s: State) -> bool {
    s.keyboard == Surface::Page && s.tab().system is None
}

/// The page of the browser's own that a tab shows, to be asked.
pub open spec fn system_asked(tab: TabView) -> Seq<Ask> {
    match tab.system {
        Some(page) => seq![Ask::System(page)],
        None => seq![],
    }
}

/// Who is asked about a key once the panel and the browser's own pages have declined it.
pub open spec fn document_key_asks(s: State, key: Key, modifiers: Modifiers, popup_open: bool) -> Seq<
    Ask,
> {
    let reads = document_reads(s);
    let shown = reads && s.tab().page is Some;
    if key == Key::Tab && !modifiers.accelerator && reads {
        seq![Ask::FocusStep(!modifiers.shift)]
    } else {
        if_so(key == Key::Enter && !modifiers.accelerator && shown, Ask::FocusedLink) + if_so(
            key == Key::Character('c') && modifiers.command && s.keyboard == Surface::Page,
            Ask::CopySelection,
        ) + if_so(key == Key::Enter && shown, Ask::ImplicitSubmit) + if_so(shown, Ask::Edit)
            + if_so(shown, Ask::MoveSelection) + last_key_ask(s, key, modifiers, popup_open)
    }
}

/// Who is asked about a key that nothing else took.
pub open spec fn last_key_ask(s: State, key: Key, modifiers: Modifiers, popup_open: bool) -> Seq<Ask> {
    if s.keyboard == Surface::Chrome || key == Key::F5 || modifiers.accelerator || (key
        == Key::Escape && popup_open) {
        seq![Ask::Interface]
    } else {
        if_so(s.keyboard == Surface::Page, Ask::Scroll)
    }
}

/// Who is asked about a key.
pub open spec fn key_asks(s: State, key: Key, modifiers: Modifiers, popup_open: bool) -> Seq<Ask> {
    if_so(s.keyboard == Surface::Inspector && s.inspector.open, Ask::Inspector) + (if s.keyboard
        == Surface::System {
        system_asked(s.tab())
    } else {
        seq![]
    }) + document_key_asks(s, key, modifiers, popup_open)
}

/// What a key comes to.
///
/// The developer tools' own accelerator and the zoom come before anything reads the key:
/// they belong to the window whatever holds the keyboard.
#[verifier::opaque]
pub open spec fn key_routed(
    s: State,
    key: Key,
    modifiers: Modifiers,
    platform: Platform,
    popup_open: bool,
) -> Routed {
    if key == Key::Character('i') && opens_inspector(modifiers, platform) {
        Routed { state: inspector_toggled(s), asks: seq![] }
    } else if modifiers.accelerator && zooming(key) is Some {
        Routed { state: zoomed(s, stepped(zooming(key)->0, s.zoom)), asks: seq![] }
    } else {
        Routed { state: s, asks: key_asks(s, key, modifiers, popup_open) }
    }
}

/// Which surface a press lands on.
pub open spec fn pressed_surface(s: State, owned: bool, below_bar: bool, in_dock: bool) -> Surface {
    if owned || !below_bar {
        Surface::Chrome
    } else if s.inspector.open && in_dock {
        Surface::Inspector
    } else if s.tab().system is Some {
        Surface::System
    } else {
        Surface::Page
    }
}

/// A browser whose press has been given to the surface it landed on.
pub open spec fn press_given(s: State, owned: bool, below_bar: bool, in_dock: bool) -> State {
    let past = if owned {
        s
    } else {
        popup_dismissed(s)
    };
    activated(past, pressed_surface(past, owned, below_bar, in_dock)).telling_if(
        below_bar && !owned,
        Command::BlurChrome,
    )
}

/// A browser whose picker is no longer armed.
pub open spec fn disarmed(s: State) -> State {
    State { inspector: Inspector { picking: false, ..s.inspector }, ..s }
}

/// What becomes of a press before any surface is asked about it.
pub open spec fn press_fate(s: State, owned: bool, below_bar: bool, in_dock: bool) -> Pressed {
    if in_dock && !owned {
        Pressed::Inspector
    } else if s.inspector.picking && below_bar {
        Pressed::Picked
    } else {
        Pressed::GoesOn
    }
}

/// A browser that was pressed.
pub open spec fn press_begun(
    s: State,
    at: Point,
    owned: bool,
    below_bar: bool,
    in_dock: bool,
) -> State {
    let given = press_given(s, owned, below_bar, in_dock);
    if press_fate(given, owned, below_bar, in_dock) == Pressed::Picked {
        disarmed(given.telling(Command::PickAt(at)))
    } else {
        given
    }
}

/// What a press on the page selects: a second click takes the word, a third the block it
/// is in, and a fourth starts over.
pub open spec fn selected_by(clicks: u32) -> SelectKind {
    if clicks % 3 == 2 {
        SelectKind::Word
    } else if clicks % 3 == 0 && clicks > 0 {
        SelectKind::Paragraph
    } else {
        SelectKind::From
    }
}

/// Who is asked about a press.
///
/// A link takes it before a control does, and a control before the text under it: pressing
/// a checkbox is not the start of selecting the word beside it.
#[verifier::opaque]
pub open spec fn press_asks(
    s: State,
    owned: bool,
    below_bar: bool,
    owns_pointer: bool,
    clicks: u32,
) -> Seq<Ask> {
    let reads = !owns_pointer && s.tab().system is None && s.tab().page is Some;
    if_so(reads, Ask::Scrollbar) + (if below_bar && !owned && s.tab().system is Some {
        system_asked(s.tab())
    } else {
        if_so(!owns_pointer, Ask::LinkUnder) + if_so(reads && below_bar, Ask::Control) + seq![
            if reads {
                Ask::Select(selected_by(clicks))
            } else {
                Ask::Interface
            },
        ]
    })
}

/// A browser that has to select as far as the pointer until the button is let go.
pub open spec fn selecting(s: State, begun: bool) -> State {
    State { selecting: begun, ..s }
}

/// A browser whose press on the page started a selection.
pub open spec fn selection_begun(s: State, below_bar: bool) -> State {
    selecting(s.telling_if(below_bar, Command::BlurPage(s.tab().id)), true)
}

/// What a move of the pointer comes to.
#[verifier::opaque]
pub open spec fn move_routed(
    s: State,
    at: Point,
    over_page: bool,
    owns_pointer: bool,
    dragging: bool,
) -> Routed {
    let tab = s.tab();
    if s.inspector.picking && over_page {
        Routed { state: s.telling(Command::PickAt(at)), asks: seq![] }
    } else if s.selecting && tab.page is Some {
        Routed { state: s, asks: seq![Ask::SelectTo] }
    } else if tab.page is Some && dragging {
        Routed { state: s, asks: seq![Ask::DragScrollbar] }
    } else {
        Routed {
            state: s,
            asks: if_so(
                !owns_pointer && tab.system is None && tab.page is Some,
                Ask::Hover(over_page),
            ) + system_asked(tab),
        }
    }
}

/// Whether a page of the browser's own has something to type into.
pub open spec fn takes_text(page: SystemPage) -> bool {
    page == SystemPage::History || page == SystemPage::Settings
}

/// Who is asked about a character. Text is exclusive: a caret that a background surface
/// kept never gets a chance after the active one declines.
#[verifier::opaque]
pub open spec fn text_asks(s: State) -> Seq<Ask> {
    match s.keyboard {
        Surface::Inspector => seq![Ask::Inspector],
        Surface::Page => if_so(s.tab().system is None && s.tab().page is Some, Ask::Page),
        Surface::System => match s.tab().system {
            Some(page) => if_so(takes_text(page), Ask::System(page)),
            None => seq![],
        },
        Surface::Chrome => seq![Ask::Interface],
    }
}

/// Whether a page of the browser's own scrolls.
pub open spec fn scrolls(page: SystemPage) -> bool {
    page != SystemPage::Cache && page != SystemPage::About
}

/// What the wheel comes to.
#[verifier::opaque]
pub open spec fn scroll_routed(
    s: State,
    accelerator: bool,
    turn: Option<ZoomStep>,
    owns_pointer: bool,
    over_strip: bool,
    popup_open: bool,
    in_dock: bool,
) -> Routed {
    if accelerator {
        Routed {
            state: match turn {
                Some(step) => zoomed(s, stepped(step, s.zoom)),
                None => s,
            },
            asks: seq![],
        }
    } else {
        Routed { state: s, asks: wheel_asks(s, owns_pointer, over_strip, popup_open, in_dock) }
    }
}

/// Who is asked about the wheel where it scrolls: whatever is under the pointer.
pub open spec fn wheel_asks(
    s: State,
    owns_pointer: bool,
    over_strip: bool,
    popup_open: bool,
    in_dock: bool,
) -> Seq<Ask> {
    if owns_pointer {
        if_so(over_strip && !popup_open, Ask::Interface)
    } else if in_dock {
        seq![Ask::Inspector]
    } else {
        match s.tab().system {
            Some(page) if scrolls(page) => seq![Ask::System(page)],
            _ => if_so(s.tab().page is Some, Ask::Page),
        }
    }
}

/// Whether a page of the browser's own does what a screen reader asks of it.
pub open spec fn answers_reader(page: SystemPage) -> bool {
    page != SystemPage::Cache
}

/// What a screen reader's wish comes to. What is described is the toolbar's controls
/// followed by those of the browser's own page, so a number past the toolbar's is the
/// page's.
#[verifier::opaque]
pub open spec fn reader_routed(s: State, index: Option<usize>, toolbar: usize) -> Routed {
    let told = retold(s);
    match index {
        None => Routed { state: activated(told, Surface::Page), asks: seq![Ask::Page] },
        Some(index) => if index < toolbar {
            Routed {
                state: activated(told, Surface::Chrome),
                asks: seq![Ask::InterfaceItem(index)],
            }
        } else {
            Routed {
                state: activated(told, Surface::System),
                asks: match s.tab().system {
                    Some(page) => if_so(
                        answers_reader(page),
                        Ask::SystemItem(page, (index - toolbar) as usize),
                    ),
                    None => seq![],
                },
            }
        },
    }
}

/// What is done to an element of the document for a screen reader: what the pointer or the
/// keyboard would do to it. A control gets the keyboard before it moves.
pub open spec fn reader_steps(element: u64, action: ReaderAction) -> Seq<ReaderStep> {
    match action {
        ReaderAction::Focus => seq![ReaderStep::Focus(element)],
        ReaderAction::Increment => seq![
            ReaderStep::Focus(element),
            ReaderStep::Slide(SliderMotion::Up),
        ],
        ReaderAction::Decrement => seq![
            ReaderStep::Focus(element),
            ReaderStep::Slide(SliderMotion::Down),
        ],
        ReaderAction::Activate => seq![
            ReaderStep::Activate(element),
            ReaderStep::FollowSubmission,
            ReaderStep::AnswerFileRequest,
        ],
    }
}

/// Whether a screen reader's wish is to follow the link it names.
pub open spec fn follows_link(
    s: State,
    element: Option<u64>,
    action: ReaderAction,
    link: Option<Target>,
) -> bool {
    s.tab().page is Some && element is Some && action == ReaderAction::Activate && link is Some
}

/// A browser that has done its part of what a screen reader wants of the document.
pub open spec fn reader_answered(
    s: State,
    element: Option<u64>,
    action: ReaderAction,
    link: Option<Target>,
) -> State {
    if follows_link(s, element, action, link) {
        navigated(s, link->0, false)
    } else {
        s
    }
}

/// What is left to be done to the document for a screen reader.
pub open spec fn reader_asks(
    s: State,
    element: Option<u64>,
    action: ReaderAction,
    link: Option<Target>,
) -> Seq<ReaderStep> {
    if s.tab().page is None || element is None || follows_link(s, element, action, link) {
        seq![]
    } else {
        reader_steps(element->0, action)
    }
}

/// A browser on a platform whose scheme is another one.
pub open spec fn appearance_changed(s: State, scheme: Scheme) -> State {
    State { scheme, theme: scheme_in_force(s.settings.appearance, scheme), ..s }
}

/// What an event comes to.
pub open spec fn routed(s: State, event: Event) -> Routed {
    match event {
        Event::AppearanceChanged(scheme) => Routed {
            state: appearance_changed(s, scheme),
            asks: seq![],
        },
        Event::Resized { changed } => Routed {
            state: if changed {
                menu_dismissed(s)
            } else {
                s
            },
            asks: seq![],
        },
        Event::PointerMoved { at, over_page, owns_pointer, dragging } => move_routed(
            s,
            at,
            over_page,
            owns_pointer,
            dragging,
        ),
        Event::PressGoesOn { owned, below_bar, owns_pointer, clicks } => Routed {
            state: s,
            asks: press_asks(s, owned, below_bar, owns_pointer, clicks),
        },
        Event::PointerReleased => Routed {
            state: selecting(s, false),
            asks: if_so(s.tab().page is Some, Ask::Release),
        },
        Event::KeyPressed { key, modifiers, platform, popup_open } => key_routed(
            s,
            key,
            modifiers,
            platform,
            popup_open,
        ),
        Event::TextInput => Routed { state: s, asks: text_asks(s) },
        Event::Scroll { accelerator, turn, owns_pointer, over_strip, popup_open, in_dock } =>
            scroll_routed(s, accelerator, turn, owns_pointer, over_strip, popup_open, in_dock),
        Event::AccessibilityRequest { index, toolbar } => reader_routed(s, index, toolbar),
        Event::Other => Routed { state: s, asks: seq![] },
    }
}

/// A browser whose developer tools took a key, and are open after it or not.
pub open spec fn inspector_keyed(s: State, open: bool) -> State {
    let shown = State { inspector: Inspector { open, ..s.inspector }, ..s };
    if open {
        shown
    } else {
        activated(shown, surface_of(shown.tab()))
    }
}

/// A browser whose document was walked with the keyboard. Off the end of it the keyboard
/// goes on to the browser around it.
pub open spec fn page_walked(s: State, walked: bool, forward: bool) -> State {
    if walked {
        retold(s)
    } else {
        activated(s, Surface::Chrome).telling(Command::FocusEdge(forward))
    }
}

/// A browser whose interface took a key, that changed what is in the address field or
/// not.
pub open spec fn interface_keyed(
    s: State,
    action: UiAction,
    facts: PageFacts,
    retyped: bool,
    focused: bool,
    typed: Seq<char>,
) -> State {
    let done = applied(s, action, facts);
    if retyped {
        suggestions_refreshed(done, focused, typed)
    } else {
        done
    }
}

/// A browser whose interface claims the keyboard after a key, or does not.
pub open spec fn interface_settled(s: State, claims: bool) -> State {
    if claims {
        activated(s, Surface::Chrome)
    } else {
        s
    }
}

/// A browser that has gone where the menu bar says.
#[verifier::opaque]
pub open spec fn gone_by_menu(
    s: State,
    command: MenuCommand,
    refused: bool,
    home: Option<String>,
) -> State {
    match command {
        MenuCommand::Reload => reloaded(s, refused),
        MenuCommand::ReloadIgnoringCache => reloaded_ignoring_cache(s, refused),
        MenuCommand::Stop => stopped(s),
        MenuCommand::Back => travelled(s, -1),
        MenuCommand::Forward => travelled(s, 1),
        MenuCommand::Home => gone_home(s, home),
        _ => s,
    }
}

/// The page of the browser's own that a command of the menu bar opens, if it opens one.
pub open spec fn page_opened_by(command: MenuCommand) -> Option<SystemPage> {
    match command {
        MenuCommand::Settings => Some(SystemPage::Settings),
        MenuCommand::ShowHistory => Some(SystemPage::History),
        MenuCommand::ShowDownloads => Some(SystemPage::Downloads),
        MenuCommand::ShowBookmarks => Some(SystemPage::Bookmarks),
        MenuCommand::ShowCookies => Some(SystemPage::Cookies),
        MenuCommand::ShowCache => Some(SystemPage::Cache),
        _ => None,
    }
}

/// A browser that has done to the page being read what the menu bar says.
#[verifier::opaque]
pub open spec fn page_by_menu(s: State, command: MenuCommand) -> State {
    match command {
        MenuCommand::ToggleBookmark => bookmark_toggled(s),
        MenuCommand::ToggleDevTools => inspector_toggled(s),
        MenuCommand::ZoomIn => zoomed(s, stepped(ZoomStep::In, s.zoom)),
        MenuCommand::ZoomOut => zoomed(s, stepped(ZoomStep::Out, s.zoom)),
        MenuCommand::ActualSize => zoomed(s, stepped(ZoomStep::Reset, s.zoom)),
        _ => s,
    }
}

/// A browser that has done to its tabs what the menu bar says.
#[verifier::opaque]
pub open spec fn tabs_by_menu(s: State, command: MenuCommand) -> State {
    match command {
        MenuCommand::NewTab => tab_opened(s),
        MenuCommand::CloseTab => tab_closed(s, s.active),
        _ => s,
    }
}

/// A browser that has done what the menu bar says. A command that is a keystroke, or that is
/// not implemented, leaves it as it is.
pub open spec fn menu_applied(
    s: State,
    command: MenuCommand,
    refused: bool,
    home: Option<String>,
) -> State {
    match page_opened_by(command) {
        Some(page) => system_opened_beside(s, page),
        None => match command {
            MenuCommand::NewTab | MenuCommand::CloseTab => tabs_by_menu(s, command),
            MenuCommand::ToggleBookmark
            | MenuCommand::ToggleDevTools
            | MenuCommand::ZoomIn
            | MenuCommand::ZoomOut
            | MenuCommand::ActualSize => page_by_menu(s, command),
            _ => gone_by_menu(s, command, refused, home),
        },
    }
}

/// The key an editing command of the menu bar stands for, if it is one.
pub open spec fn keystroke_of(command: MenuCommand) -> Option<char> {
    match command {
        MenuCommand::Cut => Some('x'),
        MenuCommand::Copy => Some('c'),
        MenuCommand::Paste => Some('v'),
        MenuCommand::SelectAll => Some('a'),
        _ => None,
    }
}

fn add_if(asks: &mut Vec<Ask>, condition: bool, ask: Ask)
    ensures
        final(asks)@ == old(asks)@ + if_so(condition, ask),
{
    let ghost before = asks@;
    if condition {
        asks.push(ask);
    }
    assert(asks@ =~= before + if_so(condition, ask));
}

fn add_system(asks: &mut Vec<Ask>, system: Option<SystemPage>)
    ensures
        final(asks)@ == old(asks)@ + match system {
            Some(page) => seq![Ask::System(page)],
            None => seq![],
        },
{
    let ghost before = asks@;
    match system {
        Some(page) => {
            asks.push(Ask::System(page));
            assert(asks@ =~= before + seq![Ask::System(page)]);
        },
        None => {
            assert(asks@ =~= before + seq![]);
        },
    }
}

/// Whether these are the modifiers the developer tools open with: the platform's own
/// accelerator, and alt, which keeps it clear of what the accelerator alone does.
pub fn inspector_modifier(modifiers: Modifiers, platform: Platform) -> (answer: bool)
    ensures
        answer == opens_inspector(modifiers, platform),
{
    modifiers.alt && match platform {
        Platform::Mac => modifiers.command,
        Platform::Other => modifiers.control,
    }
}

/// Which way a key zooms, if it does.
pub fn zoom_key(key: Key) -> (step: Option<ZoomStep>)
    ensures
        step == zooming(key),
{
    match key {
        Key::Character(character) => if character == '=' || character == '+' {
            Some(ZoomStep::In)
        } else if character == '-' || character == '_' {
            Some(ZoomStep::Out)
        } else if character == '0' {
            Some(ZoomStep::Reset)
        } else {
            None
        },
        _ => None,
    }
}

/// What a press on the page selects.
pub fn select_kind(clicks: u32) -> (kind: SelectKind)
    ensures
        kind == selected_by(clicks),
{
    if clicks % 3 == 2 {
        SelectKind::Word
    } else if clicks % 3 == 0 && clicks > 0 {
        SelectKind::Paragraph
    } else {
        SelectKind::From
    }
}

/// The key an editing command of the menu bar stands for, if it is one.
///
/// A menu item that did the copying itself would be a second answer to what the key means,
/// and the answer depends on which surface holds the keyboard.
pub fn keystroke(command: MenuCommand) -> (character: Option<char>)
    ensures
        character == keystroke_of(command),
{
    match command {
        MenuCommand::Cut => Some('x'),
        MenuCommand::Copy => Some('c'),
        MenuCommand::Paste => Some('v'),
        MenuCommand::SelectAll => Some('a'),
        _ => None,
    }
}

fn steps_for_reader(element: u64, action: ReaderAction) -> (steps: Vec<ReaderStep>)
    ensures
        steps@ == reader_steps(element, action),
{
    let mut steps: Vec<ReaderStep> = Vec::new();
    match action {
        ReaderAction::Focus => steps.push(ReaderStep::Focus(element)),
        ReaderAction::Increment => {
            steps.push(ReaderStep::Focus(element));
            steps.push(ReaderStep::Slide(SliderMotion::Up));
        },
        ReaderAction::Decrement => {
            steps.push(ReaderStep::Focus(element));
            steps.push(ReaderStep::Slide(SliderMotion::Down));
        },
        ReaderAction::Activate => {
            steps.push(ReaderStep::Activate(element));
            steps.push(ReaderStep::FollowSubmission);
            steps.push(ReaderStep::AnswerFileRequest);
        },
    }
    assert(steps@ =~= reader_steps(element, action));
    steps
}

impl Browser {
    /// Who is asked about a key once the panel and the browser's own pages have declined
    /// it.
    fn ask_document(&self, key: Key, modifiers: Modifiers, popup_open: bool) -> (asks: Vec<Ask>)
        requires
            self.wf(),
        ensures
            asks@ == document_key_asks(self@, key, modifiers, popup_open),
    {
        let keyboard = self.keyboard_surface();
        let tab = self.active_tab();
        let reads = keyboard == Surface::Page && tab.system.is_none();
        let shown = reads && tab.page.is_some();
        let mut asks: Vec<Ask> = Vec::new();
        if key == Key::Tab && !modifiers.accelerator && reads {
            asks.push(Ask::FocusStep(!modifiers.shift));
            assert(asks@ =~= seq![Ask::FocusStep(!modifiers.shift)]);
            return asks;
        }
        add_if(&mut asks, key == Key::Enter && !modifiers.accelerator && shown, Ask::FocusedLink);
        add_if(
            &mut asks,
            key == Key::Character('c') && modifiers.command && keyboard == Surface::Page,
            Ask::CopySelection,
        );
        add_if(&mut asks, key == Key::Enter && shown, Ask::ImplicitSubmit);
        add_if(&mut asks, shown, Ask::Edit);
        add_if(&mut asks, shown, Ask::MoveSelection);
        let global = key == Key::F5 || modifiers.accelerator || (key == Key::Escape && popup_open);
        let interface = keyboard == Surface::Chrome || global;
        add_if(&mut asks, interface, Ask::Interface);
        add_if(&mut asks, !interface && keyboard == Surface::Page, Ask::Scroll);
        assert(asks@ =~= document_key_asks(self@, key, modifiers, popup_open));
        asks
    }

    /// Who is asked about a key.
    fn ask_about_key(&self, key: Key, modifiers: Modifiers, popup_open: bool) -> (asks: Vec<Ask>)
        requires
            self.wf(),
        ensures
            asks@ == key_asks(self@, key, modifiers, popup_open),
    {
        let keyboard = self.keyboard_surface();
        let mut asks: Vec<Ask> = Vec::new();
        add_if(
            &mut asks,
            keyboard == Surface::Inspector && self.inspector().open,
            Ask::Inspector,
        );
        if keyboard == Surface::System {
            add_system(&mut asks, self.active_tab().system);
        }
        let mut rest = self.ask_document(key, modifiers, popup_open);
        asks.append(&mut rest);
        assert(asks@ =~= key_asks(self@, key, modifiers, popup_open));
        asks
    }

    /// A key was pressed.
    pub fn key_pressed(
        &mut self,
        key: Key,
        modifiers: Modifiers,
        platform: Platform,
        popup_open: bool,
    ) -> (asks: Vec<Ask>)
        requires
            old(self).wf(),
        ensures
            final(self).wf(),
            ({
                let to = key_routed(old(self)@, key, modifiers, platform, popup_open);
                final(self)@ == to.state && asks@ == to.asks
            }),
    {
        proof {
            reveal(key_routed);
        }
        if key == Key::Character('i') && inspector_modifier(modifiers, platform) {
            self.toggle_inspector();
            return Vec::new();
        }
        if modifiers.accelerator {
            match zoom_key(key) {
                Some(step) => {
                    self.step_zoom(step);
                    return Vec::new();
                },
                None => {},
            }
        }
        self.ask_about_key(key, modifiers, popup_open)
    }

    /// Disarm the picker.
    fn disarm(&mut self)
        requires
            old(self).wf(),
        ensures
            final(self).wf(),
            final(self)@ == disarmed(old(self)@),
    {
        proof {
            reveal(Browser::state);
        }
        self.inspector.picking = false;
    }

    /// Give a press to the surface it landed on.
    fn give_press(&mut self, owned: bool, below_bar: bool, in_dock: bool)
        requires
            old(self).wf(),
        ensures
            final(self).wf(),
            final(self)@ == press_given(old(self)@, owned, below_bar, in_dock),
    {
        if !owned {
            self.dismiss_popup();
        }
        let surface = if owned || !below_bar {
            Surface::Chrome
        } else if self.inspector().open && in_dock {
            Surface::Inspector
        } else if self.active_tab().system.is_some() {
            Surface::System
        } else {
            Surface::Page
        };
        self.activate_surface(surface);
        self.tell_if(below_bar && !owned, Command::BlurChrome);
    }

    /// The window was pressed at `at`. Whether a popup owned the press, whether it is below
    /// the toolbar, and whether it is on the developer tools.
    ///
    /// A press below the toolbar takes the caret off the address field, wherever it lands.
    /// Where the picker is armed, a press on the page chooses an element instead of
    /// following what is under it, and disarms the picker: staying armed would make the
    /// next press on a link choose an element too.
    pub fn pointer_pressed(&mut self, at: Point, owned: bool, below_bar: bool, in_dock: bool) -> (fate:
        Pressed)
        requires
            old(self).wf(),
        ensures
            final(self).wf(),
            final(self)@ == press_begun(old(self)@, at, owned, below_bar, in_dock),
            fate == press_fate(
                press_given(old(self)@, owned, below_bar, in_dock),
                owned,
                below_bar,
                in_dock,
            ),
    {
        self.give_press(owned, below_bar, in_dock);
        if in_dock && !owned {
            Pressed::Inspector
        } else if self.inspector().picking && below_bar {
            self.tell(Command::PickAt(at));
            self.disarm();
            Pressed::Picked
        } else {
            Pressed::GoesOn
        }
    }

    /// Who is asked about a press.
    fn ask_about_press(&self, owned: bool, below_bar: bool, owns_pointer: bool, clicks: u32) -> (asks:
        Vec<Ask>)
        requires
            self.wf(),
        ensures
            asks@ == press_asks(self@, owned, below_bar, owns_pointer, clicks),
    {
        proof {
            reveal(press_asks);
        }
        let tab = self.active_tab();
        let reads = !owns_pointer && tab.system.is_none() && tab.page.is_some();
        let mut asks: Vec<Ask> = Vec::new();
        add_if(&mut asks, reads, Ask::Scrollbar);
        if below_bar && !owned && tab.system.is_some() {
            add_system(&mut asks, tab.system);
        } else {
            add_if(&mut asks, !owns_pointer, Ask::LinkUnder);
            add_if(&mut asks, reads && below_bar, Ask::Control);
            if reads {
                asks.push(Ask::Select(select_kind(clicks)));
            } else {
                asks.push(Ask::Interface);
            }
        }
        assert(asks@ =~= press_asks(self@, owned, below_bar, owns_pointer, clicks));
        asks
    }

    /// Select as far as the pointer until the button is let go, or stop.
    fn set_selecting(&mut self, begun: bool)
        requires
            old(self).wf(),
        ensures
            final(self).wf(),
            final(self)@ == selecting(old(self)@, begun),
    {
        proof {
            reveal(Browser::state);
        }
        self.selecting = begun;
    }

    /// A press on the page starts a selection. One below the toolbar that no control took
    /// also takes the caret out of the field the reader was typing in.
    pub fn start_selection(&mut self, below_bar: bool)
        requires
            old(self).wf(),
        ensures
            final(self).wf(),
            final(self)@ == selection_begun(old(self)@, below_bar),
    {
        let id = self.active_tab().id;
        self.tell_if(below_bar, Command::BlurPage(id));
        self.set_selecting(true);
    }

    /// Whether a selection is being made.
    pub fn is_selecting(&self) -> (answer: bool)
        ensures
            answer == self@.selecting,
    {
        proof {
            reveal(Browser::state);
        }
        self.selecting
    }

    /// The pointer moved.
    fn pointer_moved(&mut self, at: Point, over_page: bool, owns_pointer: bool, dragging: bool) -> (asks:
        Vec<Ask>)
        requires
            old(self).wf(),
        ensures
            final(self).wf(),
            ({
                let to = move_routed(old(self)@, at, over_page, owns_pointer, dragging);
                final(self)@ == to.state && asks@ == to.asks
            }),
    {
        proof {
            reveal(move_routed);
        }
        let ghost before = self@;
        let mut asks: Vec<Ask> = Vec::new();
        if self.inspector().picking && over_page {
            self.tell(Command::PickAt(at));
            return asks;
        }
        let tab = self.active_tab();
        let shown = tab.page.is_some();
        let system = tab.system;
        if self.is_selecting() && shown {
            asks.push(Ask::SelectTo);
            assert(asks@ =~= seq![Ask::SelectTo]);
        } else if shown && dragging {
            asks.push(Ask::DragScrollbar);
            assert(asks@ =~= seq![Ask::DragScrollbar]);
        } else {
            let hovers = !owns_pointer && system.is_none() && shown;
            add_if(&mut asks, hovers, Ask::Hover(over_page));
            add_system(&mut asks, system);
            assert(asks@ =~= if_so(hovers, Ask::Hover(over_page)) + system_asked(before.tab()));
        }
        asks
    }

    /// Who is asked about a character.
    fn ask_about_text(&self) -> (asks: Vec<Ask>)
        requires
            self.wf(),
        ensures
            asks@ == text_asks(self@),
    {
        proof {
            reveal(text_asks);
        }
        let tab = self.active_tab();
        let mut asks: Vec<Ask> = Vec::new();
        match self.keyboard_surface() {
            Surface::Inspector => asks.push(Ask::Inspector),
            Surface::Page => add_if(
                &mut asks,
                tab.system.is_none() && tab.page.is_some(),
                Ask::Page,
            ),
            Surface::System => match tab.system {
                Some(page) => add_if(
                    &mut asks,
                    page == SystemPage::History || page == SystemPage::Settings,
                    Ask::System(page),
                ),
                None => {},
            },
            Surface::Chrome => asks.push(Ask::Interface),
        }
        assert(asks@ =~= text_asks(self@));
        asks
    }

    /// Who is asked about the wheel where it scrolls.
    fn ask_about_wheel(
        &self,
        owns_pointer: bool,
        over_strip: bool,
        popup_open: bool,
        in_dock: bool,
    ) -> (asks: Vec<Ask>)
        requires
            self.wf(),
        ensures
            asks@ == wheel_asks(self@, owns_pointer, over_strip, popup_open, in_dock),
    {
        let tab = self.active_tab();
        let mut asks: Vec<Ask> = Vec::new();
        if owns_pointer {
            add_if(&mut asks, over_strip && !popup_open, Ask::Interface);
        } else if in_dock {
            asks.push(Ask::Inspector);
        } else {
            let scrolling = match tab.system {
                Some(page) => page != SystemPage::Cache && page != SystemPage::About,
                None => false,
            };
            if scrolling {
                add_system(&mut asks, tab.system);
            } else {
                add_if(&mut asks, tab.page.is_some(), Ask::Page);
            }
        }
        assert(asks@ =~= wheel_asks(self@, owns_pointer, over_strip, popup_open, in_dock));
        asks
    }

    /// The wheel turned.
    fn wheel_turned(
        &mut self,
        accelerator: bool,
        turn: Option<ZoomStep>,
        owns_pointer: bool,
        over_strip: bool,
        popup_open: bool,
        in_dock: bool,
    ) -> (asks: Vec<Ask>)
        requires
            old(self).wf(),
        ensures
            final(self).wf(),
            ({
                let to = scroll_routed(
                    old(self)@,
                    accelerator,
                    turn,
                    owns_pointer,
                    over_strip,
                    popup_open,
                    in_dock,
                );
                final(self)@ == to.state && asks@ == to.asks
            }),
    {
        proof {
            reveal(scroll_routed);
        }
        if accelerator {
            match turn {
                Some(step) => self.step_zoom(step),
                None => {},
            }
            Vec::new()
        } else {
            self.ask_about_wheel(owns_pointer, over_strip, popup_open, in_dock)
        }
    }

    /// A screen reader asked for something.
    fn reader_asked(&mut self, index: Option<usize>, toolbar: usize) -> (asks: Vec<Ask>)
        requires
            old(self).wf(),
        ensures
            final(self).wf(),
            ({
                let to = reader_routed(old(self)@, index, toolbar);
                final(self)@ == to.state && asks@ == to.asks
            }),
    {
        proof {
            reveal(reader_routed);
        }
        let system = self.active_tab().system;
        let mut asks: Vec<Ask> = Vec::new();
        self.retell();
        match index {
            None => {
                self.activate_surface(Surface::Page);
                asks.push(Ask::Page);
                assert(asks@ =~= seq![Ask::Page]);
            },
            Some(index) => if index < toolbar {
                self.activate_surface(Surface::Chrome);
                asks.push(Ask::InterfaceItem(index));
                assert(asks@ =~= seq![Ask::InterfaceItem(index)]);
            } else {
                self.activate_surface(Surface::System);
                match system {
                    Some(page) => {
                        let item: usize = index - toolbar;
                        add_if(
                            &mut asks,
                            page != SystemPage::Cache,
                            Ask::SystemItem(page, item),
                        );
                        assert(asks@ =~= if_so(
                            answers_reader(page),
                            Ask::SystemItem(page, item),
                        ));
                    },
                    None => {},
                }
            },
        }
        asks
    }

    /// A screen reader wants something of an element of the document, which is in this
    /// link if it is in one. Says what is to be done to the document, in turn.
    ///
    /// A link is followed rather than pressed: there is no control behind it, and what
    /// pressing one means is a navigation.
    pub fn accessibility_request_on_page(
        &mut self,
        element: Option<u64>,
        action: ReaderAction,
        link: Option<Target>,
    ) -> (steps: Vec<ReaderStep>)
        requires
            old(self).wf(),
        ensures
            final(self).wf(),
            final(self)@ == reader_answered(old(self)@, element, action, link),
            steps@ == reader_asks(old(self)@, element, action, link),
    {
        if self.active_tab().page.is_none() {
            return Vec::new();
        }
        match element {
            None => Vec::new(),
            Some(element) => {
                if action == ReaderAction::Activate {
                    match link {
                        Some(target) => {
                            self.navigate_from(target, false);
                            return Vec::new();
                        },
                        None => {},
                    }
                }
                steps_for_reader(element, action)
            },
        }
    }

    /// Follow the platform's scheme.
    fn follow_scheme(&mut self, scheme: Scheme)
        requires
            old(self).wf(),
        ensures
            final(self).wf(),
            final(self)@ == appearance_changed(old(self)@, scheme),
    {
        proof {
            reveal(Browser::state);
        }
        self.scheme = scheme;
        self.apply_theme();
    }

    /// Something happened to the window: settle what is the browser's own to settle, and
    /// say who is to be asked about the rest, in turn, until one of them takes it.
    #[verifier::rlimit(30)]
    pub fn on_event(&mut self, event: Event) -> (asks: Vec<Ask>)
        requires
            old(self).wf(),
        ensures
            final(self).wf(),
            final(self)@ == routed(old(self)@, event).state,
            asks@ == routed(old(self)@, event).asks,
    {
        match event {
            Event::AppearanceChanged(scheme) => {
                self.follow_scheme(scheme);
                Vec::new()
            },
            Event::Resized { changed } => {
                if changed {
                    self.dismiss_context_menu();
                }
                Vec::new()
            },
            Event::PointerMoved { at, over_page, owns_pointer, dragging } => self.pointer_moved(
                at,
                over_page,
                owns_pointer,
                dragging,
            ),
            Event::PressGoesOn { owned, below_bar, owns_pointer, clicks } => self.ask_about_press(
                owned,
                below_bar,
                owns_pointer,
                clicks,
            ),
            Event::PointerReleased => {
                let shown = self.active_tab().page.is_some();
                let mut asks: Vec<Ask> = Vec::new();
                add_if(&mut asks, shown, Ask::Release);
                assert(asks@ =~= if_so(shown, Ask::Release));
                self.set_selecting(false);
                asks
            },
            Event::KeyPressed { key, modifiers, platform, popup_open } => self.key_pressed(
                key,
                modifiers,
                platform,
                popup_open,
            ),
            Event::TextInput => self.ask_about_text(),
            Event::Scroll { accelerator, turn, owns_pointer, over_strip, popup_open, in_dock } =>
                self.wheel_turned(
                accelerator,
                turn,
                owns_pointer,
                over_strip,
                popup_open,
                in_dock,
            ),
            Event::AccessibilityRequest { index, toolbar } => self.reader_asked(index, toolbar),
            Event::Other => Vec::new(),
        }
    }

    /// Note whether the developer tools are open.
    fn set_inspector_open(&mut self, open: bool)
        requires
            old(self).wf(),
        ensures
            final(self).wf(),
            final(self)@ == (State {
                inspector: Inspector { open, ..old(self)@.inspector },
                ..old(self)@
            }),
    {
        proof {
            reveal(Browser::state);
        }
        self.inspector.open = open;
    }

    /// The developer tools took a key, and are open after it or not.
    pub fn inspector_took_key(&mut self, open: bool)
        requires
            old(self).wf(),
        ensures
            final(self).wf(),
            final(self)@ == inspector_keyed(old(self)@, open),
    {
        self.set_inspector_open(open);
        if !open {
            let surface = self.tab_surface();
            self.activate_surface(surface);
        }
    }

    /// The document was walked with the keyboard, or the keyboard walked off the end of
    /// it: a document does not trap the keyboard.
    pub fn document_walked(&mut self, walked: bool, forward: bool)
        requires
            old(self).wf(),
        ensures
            final(self).wf(),
            final(self)@ == page_walked(old(self)@, walked, forward),
    {
        if walked {
            self.retell();
        } else {
            self.activate_surface(Surface::Chrome);
            self.tell(Command::FocusEdge(forward));
        }
    }

    /// The interface took a key. What is offered is refreshed only where the key changed
    /// what is in the address field: the key that puts the list away would otherwise put
    /// it straight back.
    pub fn interface_took_key(
        &mut self,
        action: UiAction,
        facts: PageFacts,
        retyped: bool,
        focused: bool,
        typed: &str,
    )
        requires
            old(self).wf(),
        ensures
            final(self).wf(),
            final(self)@ == interface_keyed(
                old(self)@,
                action,
                facts,
                retyped,
                focused,
                typed@,
            ),
    {
        self.apply(action, facts);
        if retyped {
            self.refresh_suggestions(focused, typed);
        }
    }

    /// What the key did in the interface is settled: whether that claims the keyboard, and
    /// whether the key did nothing there. Says whether the page scrolls by it.
    pub fn interface_settles(&mut self, claims: bool, idle: bool) -> (scrolls: bool)
        requires
            old(self).wf(),
        ensures
            final(self).wf(),
            final(self)@ == interface_settled(old(self)@, claims),
            scrolls == (idle && final(self)@.keyboard == Surface::Page),
    {
        if claims {
            self.activate_surface(Surface::Chrome);
        }
        idle && self.keyboard_surface() == Surface::Page
    }

    /// Do what the menu bar says. An editing command is the keystroke it carries, and is
    /// handed back to be delivered as one.
    pub fn menu_command(&mut self, command: MenuCommand, refused: bool, home: Option<String>) -> (key:
        Option<char>)
        requires
            old(self).wf(),
        ensures
            final(self).wf(),
            final(self)@ == menu_applied(old(self)@, command, refused, home),
            key == keystroke_of(command),
    {
        proof {
            reveal(gone_by_menu);
            reveal(page_by_menu);
            reveal(tabs_by_menu);
        }
        match command {
            MenuCommand::Reload => self.reload(refused),
            MenuCommand::ReloadIgnoringCache => self.reload_ignoring_cache(refused),
            MenuCommand::Stop => self.stop(),
            MenuCommand::Back => self.go_back(),
            MenuCommand::Forward => self.go_forward(),
            MenuCommand::Home => self.go_home(home),
            MenuCommand::Settings => self.open_system_in_new_tab(SystemPage::Settings),
            MenuCommand::ShowHistory => self.open_system_in_new_tab(SystemPage::History),
            MenuCommand::ShowDownloads => self.open_system_in_new_tab(SystemPage::Downloads),
            MenuCommand::ShowBookmarks => self.open_system_in_new_tab(SystemPage::Bookmarks),
            MenuCommand::ShowCookies => self.open_system_in_new_tab(SystemPage::Cookies),
            MenuCommand::ShowCache => self.open_system_in_new_tab(SystemPage::Cache),
            MenuCommand::ToggleBookmark => self.toggle_bookmark(),
            MenuCommand::ToggleDevTools => self.toggle_inspector(),
            MenuCommand::ZoomIn => self.step_zoom(ZoomStep::In),
            MenuCommand::ZoomOut => self.step_zoom(ZoomStep::Out),
            MenuCommand::ActualSize => self.step_zoom(ZoomStep::Reset),
            MenuCommand::NewTab => self.new_tab(),
            MenuCommand::CloseTab => {
                let index = self.active_index();
                self.close_tab(index);
            },
            _ => {},
        }
        keystroke(command)
    }
}

/// Whether an ask goes to a surface that may read what is typed: the one that has the
/// keyboard, or the interface, whose accelerators work from anywhere.
pub open spec fn may_read(keyboard: Surface, ask: Ask) -> bool {
    match ask {
        Ask::Interface => true,
        Ask::Inspector => keyboard == Surface::Inspector,
        Ask::System(_) => keyboard == Surface::System,
        _ => keyboard == Surface::Page,
    }
}

/// A key is asked of no surface that does not have the keyboard, but for the interface.
pub proof fn a_key_goes_to_who_has_the_keyboard(
    s: State,
    key: Key,
    modifiers: Modifiers,
    popup_open: bool,
)
    ensures
        forall|i: int|
            0 <= i < key_asks(s, key, modifiers, popup_open).len() ==> may_read(
                s.keyboard,
                #[trigger] key_asks(s, key, modifiers, popup_open)[i],
            ),
{
}

/// A character goes to one surface at the most, and to the one that has the keyboard.
pub proof fn text_goes_to_one_surface(s: State)
    ensures
        text_asks(s).len() <= 1,
        text_asks(s).len() == 1 ==> match text_asks(s)[0] {
            Ask::Interface => s.keyboard == Surface::Chrome,
            ask => may_read(s.keyboard, ask),
        },
{
    reveal(text_asks);
}

/// A run of clicks takes the place, the word and the block, and then starts over.
pub proof fn a_fourth_click_starts_over(clicks: u32)
    requires
        0 < clicks,
        clicks + 3 <= u32::MAX,
    ensures
        selected_by((clicks + 3) as u32) == selected_by(clicks),
        selected_by(1) == SelectKind::From,
        selected_by(2) == SelectKind::Word,
        selected_by(3) == SelectKind::Paragraph,
{
}

/// What a key with no modifiers but shift is asked of where the document has the keyboard: to
/// walk on with the tab key, and otherwise, one after the other, about the link that was
/// reached and the form where it is the enter key, then to edit, to move what is selected
/// and to scroll. The interface has the key that reloads, and the one that closes what is
/// popped up.
pub proof fn a_key_in_the_document_is_asked_of_it_in_turn(
    s: State,
    key: Key,
    modifiers: Modifiers,
    platform: Platform,
    popup_open: bool,
)
    requires
        s.keyboard == Surface::Page,
        s.tab().system is None,
        s.tab().page is Some,
        !modifiers.accelerator,
        !modifiers.command,
        !modifiers.alt,
    ensures
        ({
            let routed = key_routed(s, key, modifiers, platform, popup_open);
            let interface = key == Key::F5 || (key == Key::Escape && popup_open);
            &&& routed.state == s
            &&& key == Key::Tab ==> routed.asks == seq![Ask::FocusStep(!modifiers.shift)]
            &&& key == Key::Enter ==> routed.asks == seq![
                Ask::FocusedLink,
                Ask::ImplicitSubmit,
                Ask::Edit,
                Ask::MoveSelection,
                Ask::Scroll,
            ]
            &&& interface ==> routed.asks == seq![Ask::Edit, Ask::MoveSelection, Ask::Interface]
            &&& key != Key::Tab && key != Key::Enter && !interface ==> routed.asks == seq![
                Ask::Edit,
                Ask::MoveSelection,
                Ask::Scroll,
            ]
        }),
{
    reveal(key_routed);
    let asks = key_routed(s, key, modifiers, platform, popup_open).asks;
    if key == Key::Tab {
        assert(asks =~= seq![Ask::FocusStep(!modifiers.shift)]);
    } else if key == Key::Enter {
        assert(asks =~= seq![
            Ask::FocusedLink,
            Ask::ImplicitSubmit,
            Ask::Edit,
            Ask::MoveSelection,
            Ask::Scroll,
        ]);
    } else if key == Key::F5 || (key == Key::Escape && popup_open) {
        assert(asks =~= seq![Ask::Edit, Ask::MoveSelection, Ask::Interface]);
    } else {
        assert(asks =~= seq![Ask::Edit, Ask::MoveSelection, Ask::Scroll]);
    }
}

/// A key is the interface's alone while the chrome has the keyboard, and while one of the
/// browser's own pages has it that page's first.
pub proof fn a_key_outside_the_document_is_its_surfaces(
    s: State,
    key: Key,
    modifiers: Modifiers,
    platform: Platform,
    popup_open: bool,
)
    requires
        !modifiers.accelerator,
        !modifiers.command,
        !modifiers.alt,
    ensures
        ({
            let routed = key_routed(s, key, modifiers, platform, popup_open);
            let interface = key == Key::F5 || (key == Key::Escape && popup_open);
            &&& s.keyboard == Surface::Chrome ==> routed.state == s && routed.asks == seq![
                Ask::Interface,
            ]
            &&& s.keyboard == Surface::System && s.tab().system is Some && !interface
                ==> routed.state == s && routed.asks == seq![Ask::System(s.tab().system->0)]
            &&& s.keyboard == Surface::Inspector && s.inspector.open && !interface ==> routed.state
                == s && routed.asks == seq![Ask::Inspector]
        }),
{
    reveal(key_routed);
    let asks = key_routed(s, key, modifiers, platform, popup_open).asks;
    let interface = key == Key::F5 || (key == Key::Escape && popup_open);
    if s.keyboard == Surface::Chrome {
        assert(asks =~= seq![Ask::Interface]);
    } else if s.keyboard == Surface::System && s.tab().system is Some && !interface {
        assert(asks =~= seq![Ask::System(s.tab().system->0)]);
    } else if s.keyboard == Surface::Inspector && s.inspector.open && !interface {
        assert(asks =~= seq![Ask::Inspector]);
    }
}

/// With the accelerator a key zooms from any surface: in on the plus and the equals sign, out
/// on the minus and the underscore, and to the page's own size on the nought. Nobody else is
/// asked about it.
pub proof fn the_accelerator_zooms_from_anywhere(
    s: State,
    character: char,
    modifiers: Modifiers,
    platform: Platform,
    popup_open: bool,
)
    requires
        modifiers.accelerator,
        SMALLEST <= s.zoom <= LARGEST,
    ensures
        ({
            let routed = key_routed(
                s,
                Key::Character(character),
                modifiers,
                platform,
                popup_open,
            );
            let zooms = character == '=' || character == '+' || character == '-' || character
                == '_' || character == '0';
            &&& zooms ==> routed.asks.len() == 0
            &&& (character == '=' || character == '+') && s.zoom < LARGEST ==> routed.state.zoom
                > s.zoom
            &&& (character == '-' || character == '_') && s.zoom > SMALLEST ==> routed.state.zoom
                < s.zoom
            &&& character == '0' ==> routed.state.zoom == 1_000_000
            &&& !zooms && !modifiers.alt ==> routed.state == s && routed.asks.last()
                == Ask::Interface
        }),
{
    reveal(key_routed);
    a_step_in_is_larger_until_the_end(s.zoom);
    a_step_out_is_smaller_until_the_end(s.zoom);
}

/// The developer tools open and close on their own accelerator from any surface, and on no
/// other: the letter with alt and the platform's own key.
pub proof fn the_developer_tools_have_an_accelerator(
    s: State,
    modifiers: Modifiers,
    platform: Platform,
    popup_open: bool,
)
    ensures
        ({
            let routed = key_routed(s, Key::Character('i'), modifiers, platform, popup_open);
            let opens = modifiers.alt && if platform == Platform::Mac {
                modifiers.command
            } else {
                modifiers.control
            };
            &&& opens ==> routed.asks.len() == 0 && routed.state.inspector.open
                == !s.inspector.open
            &&& !opens ==> routed.state.inspector.open == s.inspector.open
        }),
{
    reveal(key_routed);
}

/// What is selected is copied on the command key and the letter, where the document has the
/// keyboard and before anything else is asked.
pub proof fn what_is_selected_is_copied_first(
    s: State,
    modifiers: Modifiers,
    platform: Platform,
    popup_open: bool,
)
    requires
        s.keyboard == Surface::Page,
    ensures
        ({
            let asks = key_routed(s, Key::Character('c'), modifiers, platform, popup_open).asks;
            &&& modifiers.command ==> asks.len() > 0 && asks[0] == Ask::CopySelection
            &&& !modifiers.command ==> !asks.contains(Ask::CopySelection)
        }),
{
    reveal(key_routed);
}

/// A press on a document goes to its scrollbar, then to the link under it, then below the
/// toolbar to the control there, and selects where none of them took it; on one of the
/// browser's own pages it goes to that page alone, and on what the interface has to that.
pub proof fn a_press_is_asked_of_what_is_under_it_in_turn(
    s: State,
    owned: bool,
    below_bar: bool,
    owns_pointer: bool,
    clicks: u32,
)
    ensures
        ({
            let asks = press_asks(s, owned, below_bar, owns_pointer, clicks);
            let document = s.tab().system is None && s.tab().page is Some && !owns_pointer;
            &&& document && below_bar ==> asks == seq![
                Ask::Scrollbar,
                Ask::LinkUnder,
                Ask::Control,
                Ask::Select(selected_by(clicks)),
            ]
            &&& document && !below_bar ==> asks == seq![
                Ask::Scrollbar,
                Ask::LinkUnder,
                Ask::Select(selected_by(clicks)),
            ]
            &&& s.tab().system is Some && below_bar && !owned ==> asks == seq![
                Ask::System(s.tab().system->0),
            ]
            &&& owns_pointer && (s.tab().system is None || !below_bar || owned) ==> asks == seq![
                Ask::Interface,
            ]
        }),
{
    reveal(press_asks);
    let asks = press_asks(s, owned, below_bar, owns_pointer, clicks);
    let document = s.tab().system is None && s.tab().page is Some && !owns_pointer;
    if document && below_bar {
        assert(asks =~= seq![
            Ask::Scrollbar,
            Ask::LinkUnder,
            Ask::Control,
            Ask::Select(selected_by(clicks)),
        ]);
    } else if document {
        assert(asks =~= seq![Ask::Scrollbar, Ask::LinkUnder, Ask::Select(selected_by(clicks))]);
    } else if s.tab().system is Some && below_bar && !owned {
        assert(asks =~= seq![Ask::System(s.tab().system->0)]);
    } else if owns_pointer {
        assert(asks =~= seq![Ask::Interface]);
    }
}

/// A press gives the keyboard to what it landed on: to the chrome where that is drawn over the
/// page or above it, to the developer tools in their dock, and otherwise to what the tab
/// shows. It puts away what was popped up unless it landed on that.
pub proof fn a_press_gives_the_keyboard_to_what_it_landed_on(
    s: State,
    at: Point,
    owned: bool,
    below_bar: bool,
    in_dock: bool,
)
    ensures
        ({
            let after = press_begun(s, at, owned, below_bar, in_dock);
            let chrome = owned || !below_bar;
            let dock = !chrome && s.inspector.open && in_dock;
            &&& chrome ==> after.keyboard == Surface::Chrome
            &&& dock ==> after.keyboard == Surface::Inspector
            &&& !chrome && !dock && s.tab().system is Some ==> after.keyboard == Surface::System
            &&& !chrome && !dock && s.tab().system is None ==> after.keyboard == Surface::Page
            &&& !owned ==> after.chrome.menu is None && after.chrome.suggestions.len() == 0
            &&& owned ==> after.chrome.menu == s.chrome.menu
            &&& after.tabs == s.tabs
        }),
{
}

/// A picker that is armed takes one press on the page and is armed no more: what is drawn
/// there is chosen. A press in the dock or above the page is not its business.
pub proof fn the_picker_takes_one_press(
    s: State,
    at: Point,
    owned: bool,
    below_bar: bool,
    in_dock: bool,
)
    ensures
        ({
            let after = press_begun(s, at, owned, below_bar, in_dock);
            let picks = s.inspector.picking && below_bar && (owned || !in_dock);
            &&& picks ==> !after.inspector.picking && after.told.last() == Command::PickAt(at)
            &&& !picks ==> after.inspector == s.inspector
        }),
{
}

/// A move of the pointer shows what an armed picker would take, goes on with a selection or
/// with a drag of the scrollbar where one is under way, and otherwise tells the document
/// whether the pointer is over it, and the browser's own page that it moved.
pub proof fn a_move_goes_on_with_what_is_under_way(
    s: State,
    at: Point,
    over_page: bool,
    owns_pointer: bool,
    dragging: bool,
)
    ensures
        ({
            let moved = move_routed(s, at, over_page, owns_pointer, dragging);
            let picks = s.inspector.picking && over_page;
            let page = s.tab().page is Some;
            &&& picks ==> moved.asks.len() == 0 && moved.state.told == s.told.push(
                Command::PickAt(at),
            )
            &&& !picks ==> moved.state == s
            &&& !picks && s.selecting && page ==> moved.asks == seq![Ask::SelectTo]
            &&& !picks && !(s.selecting && page) && page && dragging ==> moved.asks == seq![
                Ask::DragScrollbar,
            ]
            &&& !picks && !s.selecting && !dragging && page && s.tab().system is None
                && !owns_pointer ==> moved.asks == seq![Ask::Hover(over_page)]
            &&& !picks && !page && s.tab().system is Some ==> moved.asks == seq![
                Ask::System(s.tab().system->0),
            ]
        }),
{
    reveal(move_routed);
    let moved = move_routed(s, at, over_page, owns_pointer, dragging);
    let picks = s.inspector.picking && over_page;
    let page = s.tab().page is Some;
    if !picks && !s.selecting && !dragging && page && s.tab().system is None && !owns_pointer {
        assert(moved.asks =~= seq![Ask::Hover(over_page)]);
    }
    if !picks && !page && s.tab().system is Some {
        assert(moved.asks =~= seq![Ask::System(s.tab().system->0)]);
    }
}

/// A character goes to the surface that has the keyboard, where that has something to type
/// into.
pub proof fn a_character_goes_to_who_has_the_keyboard(s: State)
    ensures
        s.keyboard == Surface::Chrome ==> text_asks(s) == seq![Ask::Interface],
        s.keyboard == Surface::Inspector ==> text_asks(s) == seq![Ask::Inspector],
        s.keyboard == Surface::Page && s.tab().system is None && s.tab().page is Some ==> text_asks(
            s,
        ) == seq![Ask::Page],
        s.keyboard == Surface::System && s.tab().system == Some(SystemPage::History) ==> text_asks(s)
            == seq![Ask::System(SystemPage::History)],
        s.keyboard == Surface::System && s.tab().system == Some(SystemPage::Settings) ==> text_asks(
            s,
        ) == seq![Ask::System(SystemPage::Settings)],
        s.keyboard == Surface::System && s.tab().system != Some(SystemPage::History)
            && s.tab().system != Some(SystemPage::Settings) ==> text_asks(s).len() == 0,
{
    reveal(text_asks);
}

/// The wheel scrolls what is under the pointer: the strip, the developer tools in their dock,
/// one of the browser's own pages that scrolls, or the document.
pub proof fn the_wheel_scrolls_what_is_under_the_pointer(
    s: State,
    turn: Option<ZoomStep>,
    owns_pointer: bool,
    over_strip: bool,
    popup_open: bool,
    in_dock: bool,
)
    ensures
        ({
            let scrolled = scroll_routed(
                s,
                false,
                turn,
                owns_pointer,
                over_strip,
                popup_open,
                in_dock,
            );
            let asks = scrolled.asks;
            let under = !owns_pointer && !in_dock;
            &&& scrolled.state == s
            &&& owns_pointer && over_strip && !popup_open ==> asks == seq![Ask::Interface]
            &&& owns_pointer && (!over_strip || popup_open) ==> asks.len() == 0
            &&& !owns_pointer && in_dock ==> asks == seq![Ask::Inspector]
            &&& under && s.tab().system is None && s.tab().page is Some ==> asks == seq![Ask::Page]
            &&& under && s.tab().system is None && s.tab().page is None ==> asks.len() == 0
            &&& under && s.tab().system is Some && s.tab().system != Some(SystemPage::Cache)
                && s.tab().system != Some(SystemPage::About) ==> asks == seq![
                Ask::System(s.tab().system->0),
            ]
        }),
{
    reveal(scroll_routed);
}

/// With the accelerator the wheel zooms the way it turned, and scrolls nothing.
pub proof fn the_wheel_zooms_with_the_accelerator(
    s: State,
    turn: Option<ZoomStep>,
    owns_pointer: bool,
    over_strip: bool,
    popup_open: bool,
    in_dock: bool,
)
    requires
        SMALLEST <= s.zoom <= LARGEST,
    ensures
        ({
            let turned = scroll_routed(
                s,
                true,
                turn,
                owns_pointer,
                over_strip,
                popup_open,
                in_dock,
            );
            &&& turned.asks.len() == 0
            &&& turn is None ==> turned.state == s
            &&& turn == Some(ZoomStep::In) && s.zoom < LARGEST ==> turned.state.zoom > s.zoom
            &&& turn == Some(ZoomStep::Out) && s.zoom > SMALLEST ==> turned.state.zoom < s.zoom
            &&& turn == Some(ZoomStep::Reset) ==> turned.state.zoom == 1_000_000
        }),
{
    reveal(scroll_routed);
    a_step_in_is_larger_until_the_end(s.zoom);
    a_step_out_is_smaller_until_the_end(s.zoom);
}

/// A screen reader reaches what was described under a number where it was described: the
/// toolbar's things first, under their own numbers, and after them those of the browser's own
/// page, counted from there. What has no number is in the document. Whatever it reaches gets
/// the keyboard, and is described again.
pub proof fn a_number_is_counted_through_the_toolbar(
    s: State,
    index: Option<usize>,
    toolbar: usize,
)
    ensures
        ({
            let reached = reader_routed(s, index, toolbar);
            &&& reached.state.accessibility_dirty
            &&& reached.state.tabs == s.tabs
            &&& index is None ==> reached.state.keyboard == Surface::Page && reached.asks == seq![
                Ask::Page,
            ]
            &&& index is Some && index->0 < toolbar ==> reached.state.keyboard == Surface::Chrome
                && reached.asks == seq![Ask::InterfaceItem(index->0)]
            &&& index is Some && index->0 >= toolbar ==> reached.state.keyboard == Surface::System
            &&& index is Some && index->0 >= toolbar && s.tab().system is Some && s.tab().system
                != Some(SystemPage::Cache) ==> reached.asks.len() == 1 && reached.asks[0]
                == Ask::SystemItem(s.tab().system->0, (index->0 - toolbar) as usize)
            &&& index is Some && index->0 >= toolbar && (s.tab().system is None || s.tab().system
                == Some(SystemPage::Cache)) ==> reached.asks.len() == 0
        }),
{
    reveal(reader_routed);
}

/// What a screen reader wants of an element is done to that element: a slider is moved only
/// once it has the keyboard, up to increase it and down to decrease it, and pressing comes
/// before what pressing asks for. A link that is pressed is followed instead.
pub proof fn a_reader_acts_on_the_element_it_names(
    s: State,
    element: u64,
    action: ReaderAction,
    link: Option<Target>,
)
    requires
        s.tab().page is Some,
    ensures
        ({
            let asks = reader_asks(s, Some(element), action, link);
            let after = reader_answered(s, Some(element), action, link);
            let follows = action == ReaderAction::Activate && link is Some;
            &&& follows ==> asks.len() == 0
            &&& !follows ==> after == s && asks.len() > 0
            &&& action == ReaderAction::Focus ==> asks == seq![ReaderStep::Focus(element)]
            &&& action == ReaderAction::Increment ==> asks == seq![
                ReaderStep::Focus(element),
                ReaderStep::Slide(SliderMotion::Up),
            ]
            &&& action == ReaderAction::Decrement ==> asks == seq![
                ReaderStep::Focus(element),
                ReaderStep::Slide(SliderMotion::Down),
            ]
            &&& action == ReaderAction::Activate && link is None ==> asks[0]
                == ReaderStep::Activate(element)
            &&& reader_asks(s, None, action, link).len() == 0
        }),
{
}

/// The platform's scheme is the one a page is drawn in where the reader leaves the choice to
/// the platform, and a scheme the reader chose is whatever the platform's is.
pub proof fn a_chosen_scheme_outranks_the_platforms(s: State, scheme: Scheme)
    ensures
        ({
            let after = routed(s, Event::AppearanceChanged(scheme)).state;
            &&& after.scheme == scheme
            &&& s.settings.appearance == Appearance::System ==> after.theme == scheme
            &&& s.settings.appearance == Appearance::Light ==> after.theme == Scheme::Light
            &&& s.settings.appearance == Appearance::Dark ==> after.theme == Scheme::Dark
            &&& after.tabs == s.tabs
        }),
{
}

/// Letting go of the button ends the selection that was under way, and a window that changed
/// its size has no menu open on the page.
pub proof fn letting_go_ends_a_selection(s: State, changed: bool)
    ensures
        !routed(s, Event::PointerReleased).state.selecting,
        routed(s, Event::PointerReleased).state.tabs == s.tabs,
        s.tab().page is Some ==> routed(s, Event::PointerReleased).asks == seq![Ask::Release],
        s.tab().page is None ==> routed(s, Event::PointerReleased).asks.len() == 0,
        changed ==> routed(s, Event::Resized { changed }).state.chrome.menu is None,
        changed ==> routed(s, Event::Resized { changed }).state.context is None,
        !changed ==> routed(s, Event::Resized { changed }).state == s,
        routed(s, Event::Other).state == s,
        selection_begun(s, true).selecting,
{
}

/// Walking off the end of the document goes on into the chrome at the end it was walked from,
/// and closing the developer tools with a key gives the keyboard to what the tab shows.
pub proof fn walking_off_the_document_reaches_the_chrome(s: State, forward: bool)
    ensures
        page_walked(s, true, forward).keyboard == s.keyboard,
        page_walked(s, true, forward).accessibility_dirty,
        page_walked(s, false, forward).keyboard == Surface::Chrome,
        page_walked(s, false, forward).told.last() == Command::FocusEdge(forward),
        inspector_keyed(s, true).inspector.open,
        inspector_keyed(s, true).keyboard == s.keyboard,
        !inspector_keyed(s, false).inspector.open,
        s.tab().system is Some ==> inspector_keyed(s, false).keyboard == Surface::System,
        s.tab().system is None && s.tab().page is Some ==> inspector_keyed(s, false).keyboard
            == Surface::Page,
        interface_settled(s, true).keyboard == Surface::Chrome,
        interface_settled(s, false) == s,
{
}

/// An event goes where its kind of event goes, with all that is known of it.
pub proof fn an_event_is_routed_by_its_kind(
    s: State,
    at: Point,
    key: Key,
    modifiers: Modifiers,
    platform: Platform,
    flags: (bool, bool, bool, bool, bool),
    clicks: u32,
    turn: Option<ZoomStep>,
    index: Option<usize>,
    toolbar: usize,
)
    ensures
        routed(
            s,
            Event::PointerMoved {
                at,
                over_page: flags.0,
                owns_pointer: flags.1,
                dragging: flags.2,
            },
        ) == move_routed(s, at, flags.0, flags.1, flags.2),
        routed(
            s,
            Event::PressGoesOn { owned: flags.0, below_bar: flags.1, owns_pointer: flags.2, clicks },
        ).asks == press_asks(s, flags.0, flags.1, flags.2, clicks),
        routed(
            s,
            Event::PressGoesOn { owned: flags.0, below_bar: flags.1, owns_pointer: flags.2, clicks },
        ).state == s,
        routed(s, Event::KeyPressed { key, modifiers, platform, popup_open: flags.0 }) == key_routed(
            s,
            key,
            modifiers,
            platform,
            flags.0,
        ),
        routed(s, Event::TextInput).asks == text_asks(s),
        routed(s, Event::TextInput).state == s,
        routed(
            s,
            Event::Scroll {
                accelerator: flags.0,
                turn,
                owns_pointer: flags.1,
                over_strip: flags.2,
                popup_open: flags.3,
                in_dock: flags.4,
            },
        ) == scroll_routed(s, flags.0, turn, flags.1, flags.2, flags.3, flags.4),
        routed(s, Event::AccessibilityRequest { index, toolbar }) == reader_routed(
            s,
            index,
            toolbar,
        ),
{
}

/// A press that starts a selection takes the caret out of whatever field of the page had it,
/// below the toolbar; a key that changed what is in the address field changes what is offered.
pub proof fn a_selection_takes_the_caret_away(
    s: State,
    action: UiAction,
    facts: PageFacts,
    typed: Seq<char>,
)
    ensures
        selection_begun(s, true).told == s.told.push(Command::BlurPage(s.tab().id)),
        selection_begun(s, false).told == s.told,
        selection_begun(s, false).selecting,
        interface_keyed(s, action, facts, false, true, typed) == applied(s, action, facts),
        interface_keyed(s, action, facts, true, false, typed).chrome.suggestions.len() == 0,
        interface_keyed(s, action, facts, true, true, typed).tabs == applied(s, action, facts).tabs,
{
    reveal(saying);
}

/// A press on what is below the toolbar takes the caret out of the address field, unless it
/// landed on what is drawn over the page.
pub proof fn a_press_below_the_toolbar_takes_the_caret_away(
    s: State,
    at: Point,
    in_dock: bool,
)
    ensures
        press_begun(s, at, false, true, in_dock).told.contains(Command::BlurChrome),
        press_begun(s, at, false, true, in_dock).told.contains(Command::DismissPopup),
{
    reveal(saying);
    let given = press_given(s, false, true, in_dock);
    let after = press_begun(s, at, false, true, in_dock);
    assert(given.told[given.told.len() - 1] == Command::BlurChrome);
    assert(given.told[s.told.len() as int] == Command::DismissPopup);
    assert(after.told[given.told.len() - 1] == Command::BlurChrome);
    assert(after.told[s.told.len() as int] == Command::DismissPopup);
}

} // verus!
