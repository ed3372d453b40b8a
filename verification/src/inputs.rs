//! What the keys ask for: the table from a recognised input to the event
//! that is sent to the consumer of the state.

use crate::draw::DrawEvent;
use crate::layout::Direction;
use vstd::prelude::*;

verus! {

/// The number of lines of one page.
pub const PAGE: i32 = 10;

/// The number of lines that stands for "as far as it goes".
pub const ALL: i32 = 0x7fff_ffff;

/// A key binding.
#[derive(Clone, Copy, Debug, PartialEq, Eq, Structural)]
pub enum Key {
    Exit,
    SelectLeft,
    MoveLeft,
    ChangeLeft,
    SelectRight,
    MoveRight,
    ChangeRight,
    ScrollUp,
    Scroll10Up,
    ScrollAllUp,
    ScrollDown,
    Scroll10Down,
    ScrollAllDown,
}

/// One input from the terminal, as far as the viewer tells inputs apart.
#[derive(Clone, Copy, Debug, PartialEq, Eq, Structural)]
pub enum Input {
    /// A key that is bound.
    Key(Key),
    /// The terminal has a new size.
    Resize,
    /// Anything else.
    Other,
}

/// What the reader of inputs does with one of them.
#[derive(Debug, PartialEq, Eq)]
pub enum InputAction {
    /// Restore the terminal and leave.
    Exit,
    /// Send the event to the consumer of the state.
    Send(DrawEvent),
    /// Nothing.
    Ignore,
}

/// The event that a key binding stands for; the binding for leaving has
/// none.
pub open spec fn event_of(key: Key) -> Option<DrawEvent> {
    match key {
        Key::Exit => None,
        Key::SelectLeft => Some(DrawEvent::ChangeSelect(Direction::Left)),
        Key::MoveLeft => Some(DrawEvent::MoveSelect(Direction::Left)),
        Key::ChangeLeft => Some(DrawEvent::ChangeTab(Direction::Left)),
        Key::SelectRight => Some(DrawEvent::ChangeSelect(Direction::Right)),
        Key::MoveRight => Some(DrawEvent::MoveSelect(Direction::Right)),
        Key::ChangeRight => Some(DrawEvent::ChangeTab(Direction::Right)),
        Key::ScrollUp => Some(DrawEvent::Scroll(1)),
        Key::Scroll10Up => Some(DrawEvent::Scroll(PAGE)),
        Key::ScrollAllUp => Some(DrawEvent::Scroll(ALL)),
        Key::ScrollDown => Some(DrawEvent::Scroll((-1) as i32)),
        Key::Scroll10Down => Some(DrawEvent::Scroll((-PAGE) as i32)),
        Key::ScrollAllDown => Some(DrawEvent::Scroll((-ALL) as i32)),
    }
}

/// Decides what follows from one input: the bound keys send their event or
/// ask to leave, a new size asks for a repaint, and the rest is ignored.
pub fn on_input(input: Input) -> (action: InputAction)
    ensures
        action == match input {
            Input::Key(key) => match event_of(key) {
                Some(event) => InputAction::Send(event),
                None => InputAction::Exit,
            },
            Input::Resize => InputAction::Send(DrawEvent::Resize),
            Input::Other => InputAction::Ignore,
        },
{
    match input {
        Input::Key(key) => match key {
            Key::Exit => InputAction::Exit,
            Key::SelectLeft => InputAction::Send(DrawEvent::ChangeSelect(Direction::Left)),
            Key::MoveLeft => InputAction::Send(DrawEvent::MoveSelect(Direction::Left)),
            Key::ChangeLeft => InputAction::Send(DrawEvent::ChangeTab(Direction::Left)),
            Key::SelectRight => InputAction::Send(DrawEvent::ChangeSelect(Direction::Right)),
            Key::MoveRight => InputAction::Send(DrawEvent::MoveSelect(Direction::Right)),
            Key::ChangeRight => InputAction::Send(DrawEvent::ChangeTab(Direction::Right)),
            Key::ScrollUp => InputAction::Send(DrawEvent::Scroll(1)),
            Key::Scroll10Up => InputAction::Send(DrawEvent::Scroll(PAGE)),
            Key::ScrollAllUp => InputAction::Send(DrawEvent::Scroll(ALL)),
            Key::ScrollDown => InputAction::Send(DrawEvent::Scroll(-1)),
            Key::Scroll10Down => InputAction::Send(DrawEvent::Scroll(-PAGE)),
            Key::ScrollAllDown => InputAction::Send(DrawEvent::Scroll(-ALL)),
        },
        Input::Resize => InputAction::Send(DrawEvent::Resize),
        Input::Other => InputAction::Ignore,
    }
}

} // verus!
