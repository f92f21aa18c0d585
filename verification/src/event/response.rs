//! What a widget answers to an event

use crate::event::events::Event;
use crate::geom::Rect;
use vstd::prelude::*;

verus! {

/// A message type without values worth telling apart, for widgets that
/// never send a message
#[derive(Clone, Copy, Debug, PartialEq, Eq, Structural)]
pub struct VoidMsg;

/// Response of a widget to an event
#[derive(Debug)]
pub enum Response<M> {
    /// The event was used, and there is nothing to tell
    Used,
    /// The event was not used; the parent may use it
    Unhandled(Event),
    /// The given region, in the coordinates of the parent, should be made
    /// visible
    Focus(Rect),
    /// A message for the application
    Msg(M),
}

impl<M> Response<M> {
    /// True if the event was used and nothing is to be told
    pub fn is_none(&self) -> (r: bool)
        ensures
            r == (self is Used),
    {
        match self {
            Response::Used => true,
            _ => false,
        }
    }

    /// True if the event was not used
    pub fn is_unhandled(&self) -> (r: bool)
        ensures
            r == (self is Unhandled),
    {
        match self {
            Response::Unhandled(_) => true,
            _ => false,
        }
    }

    /// True if the response carries a message
    pub fn is_msg(&self) -> (r: bool)
        ensures
            r == (self is Msg),
    {
        match self {
            Response::Msg(_) => true,
            _ => false,
        }
    }
}

impl Response<VoidMsg> {
    /// The same response for a widget with another message type
    ///
    /// A message without content is dropped: the event counts as used.
    pub fn void_into<M>(self) -> (r: Response<M>)
        ensures
            match self {
                Response::Used => r is Used,
                Response::Unhandled(e) => r == Response::<M>::Unhandled(e),
                Response::Focus(rect) => r == Response::<M>::Focus(rect),
                Response::Msg(_) => r is Used,
            },
    {
        match self {
            Response::Used => Response::Used,
            Response::Unhandled(e) => Response::Unhandled(e),
            Response::Focus(rect) => Response::Focus(rect),
            Response::Msg(_) => Response::Used,
        }
    }
}

} // verus!
