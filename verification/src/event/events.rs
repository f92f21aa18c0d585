//! Events as widgets see them

use crate::geom::{Coord, Offset};
use vstd::prelude::*;

verus! {

/// A button of a pointing device
#[derive(Clone, Copy, Debug, PartialEq, Eq, Hash, Structural)]
pub enum MouseButton {
    Left,
    Right,
    Middle,
    Other(u8),
}

/// Source of a press: a mouse button or a finger
#[derive(Clone, Copy, Debug, PartialEq, Eq, Hash, Structural)]
pub enum PressSource {
    /// A mouse button
    Mouse(MouseButton),
    /// A touch with the given identifier
    Touch(u64),
}

impl PressSource {
    /// A press is primary when it comes from the left mouse button or from
    /// a touch.
    pub open spec fn primary(self) -> bool {
        match self {
            PressSource::Mouse(button) => button == MouseButton::Left,
            PressSource::Touch(_) => true,
        }
    }

    /// Whether the press comes from a mouse.
    pub open spec fn mouse(self) -> bool {
        self is Mouse
    }

    /// True if the press is from the left mouse button or a touch
    pub fn is_primary(self) -> (r: bool)
        ensures
            r == self.primary(),
    {
        match self {
            PressSource::Mouse(MouseButton::Left) => true,
            PressSource::Mouse(_) => false,
            PressSource::Touch(_) => true,
        }
    }

    /// True if the press is from a mouse
    pub fn is_mouse(self) -> (r: bool)
        ensures
            r == self.mouse(),
    {
        match self {
            PressSource::Mouse(_) => true,
            PressSource::Touch(_) => false,
        }
    }
}

/// What a pointer grab asks for
#[derive(Clone, Copy, Debug, PartialEq, Eq, Hash, Structural)]
pub enum GrabMode {
    /// Deliver movement and release of the press to the grabbing widget
    Grab,
    /// As `Grab`, for a widget that pans its content with the press
    Pan,
}

/// Shape of the pointer over a widget
#[derive(Clone, Copy, Debug, PartialEq, Eq, Hash, Structural)]
pub enum CursorIcon {
    Default,
    Hand,
    Grab,
    Grabbing,
    Text,
}

/// Token by which widgets subscribe to changes of shared data
#[derive(Clone, Copy, Debug, PartialEq, Eq, Hash, Structural)]
pub struct UpdateHandle(pub u64);

/// Keys that control navigation and scrolling
#[derive(Clone, Copy, Debug, PartialEq, Eq, Hash, Structural)]
pub enum ControlKey {
    Home,
    End,
    Left,
    Right,
    Up,
    Down,
    PageUp,
    PageDown,
}

/// Events addressed to a widget
#[derive(Clone, Copy, Debug, PartialEq, Eq, Structural)]
pub enum Event {
    /// The widget was activated, by a click or a key
    Activate,
    /// A control key was pressed while the widget had focus
    Control(ControlKey),
    /// A character was typed while the widget had character focus
    ReceivedCharacter(char),
    /// The widget lost character focus
    LostCharFocus,
    /// The widget was given keyboard navigation focus
    NavFocus,
    /// The wheel was turned or the touchpad swiped, by this many pixels
    Scroll(Offset),
    /// A button was pressed or a finger put down over the widget
    PressStart { source: PressSource, coord: Coord },
    /// A grabbed press moved
    PressMove { source: PressSource, coord: Coord, delta: Offset },
    /// A grabbed press ended
    PressEnd { source: PressSource, coord: Coord },
    /// A timer that the widget asked for has fired
    TimerUpdate,
    /// Data that the widget subscribed to has changed
    HandleUpdate { handle: UpdateHandle, payload: u64 },
}

impl Event {
    /// The event with its coordinate, if it has one, displaced by `by`.
    pub open spec fn moved(self, by: Offset) -> Event {
        match self {
            Event::PressStart { source, coord } => Event::PressStart {
                source,
                coord: coord.moved(by),
            },
            Event::PressMove { source, coord, delta } => Event::PressMove {
                source,
                coord: coord.moved(by),
                delta,
            },
            Event::PressEnd { source, coord } => Event::PressEnd { source, coord: coord.moved(by) },
            _ => self,
        }
    }

    /// Displace the coordinate of a press event; other events are returned
    /// as they are
    pub fn displaced(self, by: Offset) -> (r: Event)
        ensures
            r == self.moved(by),
    {
        match self {
            Event::PressStart { source, coord } => Event::PressStart {
                source,
                coord: coord.offset_by(by),
            },
            Event::PressMove { source, coord, delta } => Event::PressMove {
                source,
                coord: coord.offset_by(by),
                delta,
            },
            Event::PressEnd { source, coord } => Event::PressEnd {
                source,
                coord: coord.offset_by(by),
            },
            e => e,
        }
    }
}

} // verus!
