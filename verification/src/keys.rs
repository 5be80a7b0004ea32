//! What a key means to the document: editing a field in it, moving what is selected, or
//! scrolling.

use vstd::prelude::*;

use crate::input::{Key, Modifiers};

verus! {

/// How a slider is moved.
#[derive(Clone, Copy, Debug, PartialEq, Eq, Structural)]
pub enum SliderMotion {
    Down,
    Up,
    PageUp,
    PageDown,
    Start,
    End,
}

/// How a field is edited.
#[derive(Clone, Copy, Debug, PartialEq, Eq, Structural)]
pub enum EditAction {
    Backspace,
    Delete,
    Left,
    Right,
    Home,
    End,
}

/// How far what is selected reaches.
#[derive(Clone, Copy, Debug, PartialEq, Eq, Structural)]
pub enum Motion {
    Back,
    Forward,
    Up,
    Down,
    LineStart,
    LineEnd,
    Start,
    End,
}

/// What a page is asked about a key that edits, in turn, until it takes it.
#[derive(Clone, Copy, Debug, PartialEq, Eq, Structural)]
pub enum EditAsk {
    /// Put away the list that is showing.
    Close,
    /// Take what is chosen in the list that is showing.
    Accept,
    /// Walk the list that is showing, down or up.
    Step(bool),
    /// Move the slider.
    Slide(SliderMotion),
    /// Edit the field, extending what is selected in it or not.
    Edit(EditAction, bool),
}

/// What a page is asked about a key that selects.
#[derive(Clone, Copy, Debug, PartialEq, Eq, Structural)]
pub enum SelectAsk {
    All,
    Move(Motion),
}

/// How a key scrolls.
#[derive(Clone, Copy, Debug, PartialEq, Eq, Structural)]
pub enum ScrollStep {
    /// By a line, down or up.
    Line(bool),
    /// By what the window shows, less what is kept for the reader to find their place.
    Screen(bool),
    Top,
    Bottom,
}

/// How a key moves a slider, if it does.
pub open spec fn slider_motion(key: Key) -> Option<SliderMotion> {
    match key {
        Key::Left | Key::Down => Some(SliderMotion::Down),
        Key::Right | Key::Up => Some(SliderMotion::Up),
        Key::PageUp => Some(SliderMotion::PageUp),
        Key::PageDown => Some(SliderMotion::PageDown),
        Key::Home => Some(SliderMotion::Start),
        Key::End => Some(SliderMotion::End),
        _ => None,
    }
}

/// How a key edits a field, if it does.
pub open spec fn edit_action(key: Key) -> Option<EditAction> {
    match key {
        Key::Backspace => Some(EditAction::Backspace),
        Key::Delete => Some(EditAction::Delete),
        Key::Left => Some(EditAction::Left),
        Key::Right => Some(EditAction::Right),
        Key::Home => Some(EditAction::Home),
        Key::End => Some(EditAction::End),
        _ => None,
    }
}

/// What a page whose list is showing, or is not, is asked about a key that edits.
pub open spec fn edit_asks(key: Key, modifiers: Modifiers, list_open: bool) -> Seq<EditAsk> {
    if modifiers.command || modifiers.alt {
        seq![]
    } else if key == Key::Escape && list_open {
        seq![EditAsk::Close]
    } else if key == Key::Enter && list_open {
        seq![EditAsk::Accept]
    } else {
        (if key == Key::Up || key == Key::Down {
            seq![EditAsk::Step(key == Key::Down)]
        } else {
            seq![]
        }) + (match slider_motion(key) {
            Some(motion) => seq![EditAsk::Slide(motion)],
            None => seq![],
        }) + (match edit_action(key) {
            Some(action) => seq![EditAsk::Edit(action, modifiers.shift)],
            None => seq![],
        })
    }
}

/// How far a key moves the end of what is selected, if it does: with the command key a
/// step is a jump.
pub open spec fn motion_of(key: Key, jump: bool) -> Option<Motion> {
    match key {
        Key::Left => Some(
            if jump {
                Motion::LineStart
            } else {
                Motion::Back
            },
        ),
        Key::Right => Some(
            if jump {
                Motion::LineEnd
            } else {
                Motion::Forward
            },
        ),
        Key::Up => Some(
            if jump {
                Motion::Start
            } else {
                Motion::Up
            },
        ),
        Key::Down => Some(
            if jump {
                Motion::End
            } else {
                Motion::Down
            },
        ),
        Key::Home => Some(Motion::LineStart),
        Key::End => Some(Motion::LineEnd),
        _ => None,
    }
}

/// What a page with something selected on it, or nothing, is asked about a key that
/// selects.
pub open spec fn select_ask(key: Key, modifiers: Modifiers, selection: bool) -> Option<SelectAsk> {
    if key == Key::Character('a') && modifiers.command {
        Some(SelectAsk::All)
    } else if !modifiers.shift || !selection {
        None
    } else {
        match motion_of(key, modifiers.command) {
            Some(motion) => Some(SelectAsk::Move(motion)),
            None => None,
        }
    }
}

/// How a key scrolls, if it does.
pub open spec fn scroll_step(key: Key) -> Option<ScrollStep> {
    match key {
        Key::Down => Some(ScrollStep::Line(true)),
        Key::Up => Some(ScrollStep::Line(false)),
        Key::PageDown => Some(ScrollStep::Screen(true)),
        Key::PageUp => Some(ScrollStep::Screen(false)),
        Key::Home => Some(ScrollStep::Top),
        Key::End => Some(ScrollStep::Bottom),
        Key::Character(character) => if character == ' ' {
            Some(ScrollStep::Screen(true))
        } else {
            None
        },
        _ => None,
    }
}

fn slide(key: Key) -> (motion: Option<SliderMotion>)
    ensures
        motion == slider_motion(key),
{
    match key {
        Key::Left | Key::Down => Some(SliderMotion::Down),
        Key::Right | Key::Up => Some(SliderMotion::Up),
        Key::PageUp => Some(SliderMotion::PageUp),
        Key::PageDown => Some(SliderMotion::PageDown),
        Key::Home => Some(SliderMotion::Start),
        Key::End => Some(SliderMotion::End),
        _ => None,
    }
}

fn edit(key: Key) -> (action: Option<EditAction>)
    ensures
        action == edit_action(key),
{
    match key {
        Key::Backspace => Some(EditAction::Backspace),
        Key::Delete => Some(EditAction::Delete),
        Key::Left => Some(EditAction::Left),
        Key::Right => Some(EditAction::Right),
        Key::Home => Some(EditAction::Home),
        Key::End => Some(EditAction::End),
        _ => None,
    }
}

/// What a page is asked about a key that edits a field in it, in turn, until it takes it.
///
/// A list that is showing owns the keys that walk it and the one that puts it away, and a
/// slider takes the keys that move it before a field does.
pub fn page_edit_key(key: Key, modifiers: Modifiers, list_open: bool) -> (asks: Vec<EditAsk>)
    ensures
        asks@ == edit_asks(key, modifiers, list_open),
{
    let mut asks: Vec<EditAsk> = Vec::new();
    if modifiers.command || modifiers.alt {
        return asks;
    }
    if key == Key::Escape && list_open {
        asks.push(EditAsk::Close);
    } else if key == Key::Enter && list_open {
        asks.push(EditAsk::Accept);
    } else {
        if key == Key::Up || key == Key::Down {
            asks.push(EditAsk::Step(key == Key::Down));
        }
        match slide(key) {
            Some(motion) => asks.push(EditAsk::Slide(motion)),
            None => {},
        }
        match edit(key) {
            Some(action) => asks.push(EditAsk::Edit(action, modifiers.shift)),
            None => {},
        }
    }
    assert(asks@ =~= edit_asks(key, modifiers, list_open));
    asks
}

/// What a page is asked about a key that takes a selection on it, or moves the one there
/// is.
///
/// An arrow moves it only with shift held: one on a page that nobody is editing scrolls
/// it, and turning that into a caret the moment something is selected would take the
/// page's scrolling away for as long as it is.
pub fn page_selection_key(key: Key, modifiers: Modifiers, selection: bool) -> (ask: Option<
    SelectAsk,
>)
    ensures
        ask == select_ask(key, modifiers, selection),
{
    if key == Key::Character('a') && modifiers.command {
        return Some(SelectAsk::All);
    }
    if !modifiers.shift || !selection {
        return None;
    }
    let jump = modifiers.command;
    match key {
        Key::Left => Some(
            SelectAsk::Move(
                if jump {
                    Motion::LineStart
                } else {
                    Motion::Back
                },
            ),
        ),
        Key::Right => Some(
            SelectAsk::Move(
                if jump {
                    Motion::LineEnd
                } else {
                    Motion::Forward
                },
            ),
        ),
        Key::Up => Some(
            SelectAsk::Move(
                if jump {
                    Motion::Start
                } else {
                    Motion::Up
                },
            ),
        ),
        Key::Down => Some(
            SelectAsk::Move(
                if jump {
                    Motion::End
                } else {
                    Motion::Down
                },
            ),
        ),
        Key::Home => Some(SelectAsk::Move(Motion::LineStart)),
        Key::End => Some(SelectAsk::Move(Motion::LineEnd)),
        _ => None,
    }
}

/// How a key scrolls a page that is being read, if it does: nothing scrolls while a field
/// is being typed into.
pub fn scroll_by_key(key: Key, editing: bool) -> (step: Option<ScrollStep>)
    ensures
        step == if editing {
            None
        } else {
            scroll_step(key)
        },
{
    if editing {
        return None;
    }
    match key {
        Key::Down => Some(ScrollStep::Line(true)),
        Key::Up => Some(ScrollStep::Line(false)),
        Key::PageDown => Some(ScrollStep::Screen(true)),
        Key::PageUp => Some(ScrollStep::Screen(false)),
        Key::Home => Some(ScrollStep::Top),
        Key::End => Some(ScrollStep::Bottom),
        Key::Character(character) => if character == ' ' {
            Some(ScrollStep::Screen(true))
        } else {
            None
        },
        _ => None,
    }
}

/// Which key scrolls which way: down and up by a line, the page keys and the space by a
/// screen, and to either end with the keys that name it. No other key scrolls.
pub proof fn each_way_of_scrolling_has_its_keys(key: Key)
    ensures
        scroll_step(key) == Some(ScrollStep::Line(true)) <==> key == Key::Down,
        scroll_step(key) == Some(ScrollStep::Line(false)) <==> key == Key::Up,
        scroll_step(key) == Some(ScrollStep::Screen(true)) <==> key == Key::PageDown || key
            == Key::Character(' '),
        scroll_step(key) == Some(ScrollStep::Screen(false)) <==> key == Key::PageUp,
        scroll_step(key) == Some(ScrollStep::Top) <==> key == Key::Home,
        scroll_step(key) == Some(ScrollStep::Bottom) <==> key == Key::End,
{
}

/// Which key moves what is selected which way. With the command key a step to the side is a
/// jump to that end of the line, and one up or down to that end of the document.
pub proof fn each_motion_has_its_keys(key: Key, jump: bool)
    ensures
        motion_of(key, jump) == Some(Motion::Back) <==> key == Key::Left && !jump,
        motion_of(key, jump) == Some(Motion::Forward) <==> key == Key::Right && !jump,
        motion_of(key, jump) == Some(Motion::Up) <==> key == Key::Up && !jump,
        motion_of(key, jump) == Some(Motion::Down) <==> key == Key::Down && !jump,
        motion_of(key, jump) == Some(Motion::LineStart) <==> key == Key::Home || key == Key::Left
            && jump,
        motion_of(key, jump) == Some(Motion::LineEnd) <==> key == Key::End || key == Key::Right
            && jump,
        motion_of(key, jump) == Some(Motion::Start) <==> key == Key::Up && jump,
        motion_of(key, jump) == Some(Motion::End) <==> key == Key::Down && jump,
{
}

/// Everything is selected with the command key and the letter. What is selected is moved with
/// shift held and by nothing else, and only where something is.
pub proof fn a_selection_is_moved_with_shift(key: Key, modifiers: Modifiers, selection: bool)
    ensures
        select_ask(key, modifiers, selection) == Some(SelectAsk::All) <==> key == Key::Character(
            'a',
        ) && modifiers.command,
        !modifiers.shift || !selection ==> !(select_ask(key, modifiers, selection) matches Some(
            SelectAsk::Move(_),
        )),
        modifiers.shift && selection && motion_of(key, modifiers.command) is Some ==> select_ask(
            key,
            modifiers,
            selection,
        ) == Some(SelectAsk::Move(motion_of(key, modifiers.command)->0)),
{
}

/// Which key moves a slider which way, and which edits a field how.
pub proof fn each_edit_has_its_keys(key: Key)
    ensures
        slider_motion(key) == Some(SliderMotion::Up) <==> key == Key::Right || key == Key::Up,
        slider_motion(key) == Some(SliderMotion::Down) <==> key == Key::Left || key == Key::Down,
        slider_motion(key) == Some(SliderMotion::PageUp) <==> key == Key::PageUp,
        slider_motion(key) == Some(SliderMotion::PageDown) <==> key == Key::PageDown,
        slider_motion(key) == Some(SliderMotion::Start) <==> key == Key::Home,
        slider_motion(key) == Some(SliderMotion::End) <==> key == Key::End,
        edit_action(key) == Some(EditAction::Backspace) <==> key == Key::Backspace,
        edit_action(key) == Some(EditAction::Delete) <==> key == Key::Delete,
        edit_action(key) == Some(EditAction::Left) <==> key == Key::Left,
        edit_action(key) == Some(EditAction::Right) <==> key == Key::Right,
        edit_action(key) == Some(EditAction::Home) <==> key == Key::Home,
        edit_action(key) == Some(EditAction::End) <==> key == Key::End,
{
}

/// A key goes to the list that is showing before it goes to a slider, and to a slider before
/// it goes to a field, with shift extending what is selected there. A list that is showing is
/// put away and taken from before anything else. With the command key or alt a key edits
/// nothing.
pub proof fn a_list_comes_before_a_slider_and_a_slider_before_a_field(
    key: Key,
    modifiers: Modifiers,
    list_open: bool,
)
    ensures
        ({
            let asks = edit_asks(key, modifiers, list_open);
            let held = modifiers.command || modifiers.alt;
            &&& held ==> asks.len() == 0
            &&& !held && key == Key::Escape && list_open ==> asks == seq![EditAsk::Close]
            &&& !held && key == Key::Enter && list_open ==> asks == seq![EditAsk::Accept]
            &&& !held && key == Key::Down ==> asks == seq![
                EditAsk::Step(true),
                EditAsk::Slide(SliderMotion::Down),
            ]
            &&& !held && key == Key::Up ==> asks == seq![
                EditAsk::Step(false),
                EditAsk::Slide(SliderMotion::Up),
            ]
            &&& !held && key == Key::Left ==> asks == seq![
                EditAsk::Slide(SliderMotion::Down),
                EditAsk::Edit(EditAction::Left, modifiers.shift),
            ]
            &&& !held && key == Key::Right ==> asks == seq![
                EditAsk::Slide(SliderMotion::Up),
                EditAsk::Edit(EditAction::Right, modifiers.shift),
            ]
            &&& !held && key == Key::Backspace ==> asks == seq![
                EditAsk::Edit(EditAction::Backspace, modifiers.shift),
            ]
            &&& !held && key == Key::Delete ==> asks == seq![
                EditAsk::Edit(EditAction::Delete, modifiers.shift),
            ]
        }),
{
    let asks = edit_asks(key, modifiers, list_open);
    if !modifiers.command && !modifiers.alt {
        if key == Key::Down {
            assert(asks =~= seq![EditAsk::Step(true), EditAsk::Slide(SliderMotion::Down)]);
        } else if key == Key::Up {
            assert(asks =~= seq![EditAsk::Step(false), EditAsk::Slide(SliderMotion::Up)]);
        } else if key == Key::Left {
            assert(asks =~= seq![
                EditAsk::Slide(SliderMotion::Down),
                EditAsk::Edit(EditAction::Left, modifiers.shift),
            ]);
        } else if key == Key::Right {
            assert(asks =~= seq![
                EditAsk::Slide(SliderMotion::Up),
                EditAsk::Edit(EditAction::Right, modifiers.shift),
            ]);
        } else if key == Key::Backspace {
            assert(asks =~= seq![EditAsk::Edit(EditAction::Backspace, modifiers.shift)]);
        } else if key == Key::Delete {
            assert(asks =~= seq![EditAsk::Edit(EditAction::Delete, modifiers.shift)]);
        }
    }
}

} // verus!
