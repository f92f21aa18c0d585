//! Data common to all widgets

use crate::geom::Rect;
use vstd::prelude::*;

verus! {

/// Widget identifier
///
/// Identifiers are assigned when a widget tree is configured. They are
/// consecutive, and their order is the order in which a depth-first walk
/// that visits a widget before its children meets the widgets.
#[derive(Clone, Copy, Debug, Default, PartialEq, Eq, PartialOrd, Ord, Hash, Structural)]
pub struct WidgetId(pub u64);

impl WidgetId {
    /// The identifier as a number
    pub fn index(self) -> (r: u64)
        ensures
            r == self.0,
    {
        self.0
    }
}

/// Identifier of a window or of a pop-up within a window
#[derive(Clone, Copy, Debug, Default, PartialEq, Eq, PartialOrd, Ord, Hash, Structural)]
pub struct WindowId(pub u32);

/// Common widget data
///
/// All widgets store this: their identifier, the region assigned to them
/// and whether they are disabled.
#[derive(Clone, Copy, Debug, Default, PartialEq, Eq, Structural)]
pub struct CoreData {
    pub id: WidgetId,
    pub rect: Rect,
    pub disabled: bool,
}

} // verus!
