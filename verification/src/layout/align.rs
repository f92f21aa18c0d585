//! Directions, axes and alignment

use vstd::prelude::*;

verus! {

/// Direction of flow of a sequence of widgets
#[derive(Clone, Copy, Debug, PartialEq, Eq, Hash, Structural)]
pub enum Direction {
    /// Left to right
    Right,
    /// Top to bottom
    Down,
    /// Right to left
    Left,
    /// Bottom to top
    Up,
}

impl Direction {
    /// Whether the flow is along the vertical axis.
    pub open spec fn vertical(self) -> bool {
        self == Direction::Down || self == Direction::Up
    }

    /// Whether the flow runs against the axis.
    pub open spec fn reversed(self) -> bool {
        self == Direction::Left || self == Direction::Up
    }

    /// True if the flow is along the vertical axis
    pub fn is_vertical(self) -> (r: bool)
        ensures
            r == self.vertical(),
    {
        match self {
            Direction::Down | Direction::Up => true,
            _ => false,
        }
    }

    /// True if the flow is along the horizontal axis
    pub fn is_horizontal(self) -> (r: bool)
        ensures
            r == !self.vertical(),
    {
        match self {
            Direction::Right | Direction::Left => true,
            _ => false,
        }
    }

    /// True if the flow runs from the far end of the axis to its origin
    pub fn is_reversed(self) -> (r: bool)
        ensures
            r == self.reversed(),
    {
        match self {
            Direction::Left | Direction::Up => true,
            _ => false,
        }
    }
}

/// Alignment of a widget within the space it is given
#[derive(Clone, Copy, Debug, PartialEq, Eq, Hash, Structural)]
pub enum Align {
    /// Align to the top or left
    Begin,
    /// Align to the centre
    Centre,
    /// Align to the bottom or right
    End,
    /// Fill the space
    Stretch,
}

/// Alignment that a parent suggests to a child, per axis
///
/// `has_horiz` and `has_vert` tell whether a suggestion is made at all.
#[derive(Clone, Copy, Debug, PartialEq, Eq, Structural)]
pub struct AlignHints {
    pub has_horiz: bool,
    pub horiz: Align,
    pub has_vert: bool,
    pub vert: Align,
}

impl AlignHints {
    /// No suggestion on either axis.
    pub open spec fn no_hints() -> AlignHints {
        AlignHints {
            has_horiz: false,
            horiz: Align::Begin,
            has_vert: false,
            vert: Align::Begin,
        }
    }

    /// No suggestion on either axis
    pub fn none() -> (r: AlignHints)
        ensures
            r == AlignHints::no_hints(),
    {
        AlignHints { has_horiz: false, horiz: Align::Begin, has_vert: false, vert: Align::Begin }
    }

    /// Construct from an optional suggestion per axis
    pub fn new(horiz: Option<Align>, vert: Option<Align>) -> (r: AlignHints)
        ensures
            r.has_horiz == horiz.is_some(),
            r.has_vert == vert.is_some(),
            horiz matches Some(a) ==> r.horiz == a,
            vert matches Some(a) ==> r.vert == a,
            horiz.is_none() ==> r.horiz == Align::Begin,
            vert.is_none() ==> r.vert == Align::Begin,
    {
        let (has_horiz, h) = match horiz {
            Some(a) => (true, a),
            None => (false, Align::Begin),
        };
        let (has_vert, v) = match vert {
            Some(a) => (true, a),
            None => (false, Align::Begin),
        };
        AlignHints { has_horiz, horiz: h, has_vert, vert: v }
    }

    /// The same hints without the one for the given axis.
    pub open spec fn without(self, vertical: bool) -> AlignHints {
        if vertical {
            AlignHints { has_vert: false, vert: Align::Begin, ..self }
        } else {
            AlignHints { has_horiz: false, horiz: Align::Begin, ..self }
        }
    }

    /// Drop the hint for one axis
    pub fn unset(self, vertical: bool) -> (r: AlignHints)
        ensures
            r == self.without(vertical),
    {
        if vertical {
            AlignHints { has_vert: false, vert: Align::Begin, ..self }
        } else {
            AlignHints { has_horiz: false, horiz: Align::Begin, ..self }
        }
    }
}

/// The axis for which size rules are asked, and what is known of the other
#[derive(Clone, Copy, Debug, PartialEq, Eq, Structural)]
pub struct AxisInfo {
    pub vertical: bool,
    pub has_fixed: bool,
    pub other_axis: u32,
}

impl AxisInfo {
    /// Construct for one axis; `fixed` is the size on the other axis, where
    /// that has been decided
    pub fn new(vertical: bool, fixed: Option<u32>) -> (r: AxisInfo)
        ensures
            r.vertical == vertical,
            r.has_fixed == fixed.is_some(),
            fixed matches Some(v) ==> r.other_axis == v,
            fixed.is_none() ==> r.other_axis == 0,
    {
        match fixed {
            Some(v) => AxisInfo { vertical, has_fixed: true, other_axis: v },
            None => AxisInfo { vertical, has_fixed: false, other_axis: 0 },
        }
    }

    /// True if the axis is the vertical one
    pub fn is_vertical(self) -> (r: bool)
        ensures
            r == self.vertical,
    {
        self.vertical
    }

    /// True if the axis is the horizontal one
    pub fn is_horizontal(self) -> (r: bool)
        ensures
            r == !self.vertical,
    {
        !self.vertical
    }

    /// Size on the other axis, where that has been decided
    pub fn other(self) -> (r: Option<u32>)
        ensures
            r == if self.has_fixed { Some(self.other_axis) } else { None },
    {
        if self.has_fixed {
            Some(self.other_axis)
        } else {
            None
        }
    }
}

} // verus!
