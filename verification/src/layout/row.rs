//! Rows and columns: the rules of a sequence of widgets, and the regions
//! of the widgets within the region of the sequence

use crate::geom::{clamp_i32, clamp_u32, to_i32, to_u32, Coord, Rect, Size};
use crate::layout::align::AxisInfo;
use crate::layout::size_rules::SizeRules;
use crate::layout::solver::{share, solve_seq};
use vstd::prelude::*;

verus! {

/// A size solver
///
/// A solver is told the size rules of the children of a widget, one after
/// the other, and gives the size rules of the widget.
pub trait RulesSolver {
    /// The rules of the children seen so far, taken together.
    spec fn total(&self) -> SizeRules;

    /// Take note of the rules of the next child
    fn for_child(&mut self, child_rules: SizeRules)
        ensures
            final(self).total() == old(self).combine(child_rules),
    ;

    /// The rules of what was seen with those of one more child.
    spec fn combine(&self, child_rules: SizeRules) -> SizeRules;

    /// The rules of the widget
    fn finish(self) -> (r: SizeRules) where Self: Sized
        ensures
            r == self.total(),
    ;
}

/// A size setter
///
/// A setter gives each child of a widget its region within the region of
/// the widget.
pub trait RulesSetter {
    /// The region of the child `index`.
    spec fn region(&self, index: int) -> Rect;

    /// Number of children.
    spec fn children(&self) -> nat;

    /// Get the region of the child `index`
    fn child_rect(&self, index: usize) -> (r: Rect)
        requires
            index < self.children(),
        ensures
            r == self.region(index as int),
    ;
}

/// Trait to describe the type needed by the layout implementation.
pub trait LayoutData {
    type Data;

    type Solver: RulesSolver;

    type Setter: RulesSetter;
}

/// Solver for a row or a column
///
/// Along the sequence, the rules of the children add up; across it, the
/// greatest counts. A sequence without children asks for nothing.
pub struct RowSolver {
    pub along: bool,
    pub rules: SizeRules,
}

impl RowSolver {
    /// Construct, for a sequence along the vertical axis or not, asked for
    /// its rules along the given axis
    pub fn new(vertical: bool, axis: AxisInfo) -> (r: RowSolver)
        ensures
            r.along == (vertical == axis.vertical),
            r.rules == SizeRules::empty_rules(),
    {
        RowSolver { along: vertical == axis.is_vertical(), rules: SizeRules::empty() }
    }
}

impl RulesSolver for RowSolver {
    open spec fn total(&self) -> SizeRules {
        self.rules
    }

    open spec fn combine(&self, child_rules: SizeRules) -> SizeRules {
        if self.along {
            self.rules.summed(child_rules)
        } else {
            self.rules.stacked(child_rules)
        }
    }

    fn for_child(&mut self, child_rules: SizeRules)
        ensures
            final(self).along == old(self).along,
    {
        if self.along {
            self.rules = self.rules.sum(child_rules);
        } else {
            self.rules = self.rules.max(child_rules);
        }
    }

    fn finish(self) -> (r: SizeRules) {
        self.rules
    }
}

/// Sum of the first `n` of the sizes `sizes`.
pub open spec fn sum_sizes(sizes: Seq<i32>, n: nat) -> int
    decreases n,
{
    if n == 0 || n > sizes.len() {
        0
    } else {
        sum_sizes(sizes, (n - 1) as nat) + sizes[n - 1]
    }
}

/// The sizes that dividing `target` among children with the rules `rules`
/// gives.
pub open spec fn row_sizes(rules: Seq<SizeRules>, target: int) -> Seq<i32> {
    Seq::new(rules.len(), |i: int| clamp_i32(share(rules, target, i)))
}

/// The region of the child `index` in a row, or a column if `vertical` is
/// set, that has the region `rect`, when the children have the sizes
/// `sizes` along the row: after the children before it, and as large as
/// the row across it.
pub open spec fn region_of(rect: Rect, vertical: bool, sizes: Seq<i32>, index: int) -> Rect {
    let before = clamp_i32(sum_sizes(sizes, index as nat)) as int;
    let size = clamp_u32(sizes[index] as int);
    if vertical {
        Rect {
            pos: Coord(rect.pos.0, clamp_i32(rect.pos.1 + before)),
            size: Size(rect.size.0, size),
        }
    } else {
        Rect {
            pos: Coord(clamp_i32(rect.pos.0 + before), rect.pos.1),
            size: Size(size, rect.size.1),
        }
    }
}

/// The extent of `rect` along a row, or a column if `vertical` is set.
pub open spec fn row_extent(rect: Rect, vertical: bool) -> int {
    clamp_i32(
        if vertical {
            rect.size.1 as int
        } else {
            rect.size.0 as int
        },
    ) as int
}

/// The region of the child `index` of a row with the region `rect` whose
/// children have the rules `rules` along the row. A child without rules
/// gets no room.
pub open spec fn row_rect(rect: Rect, vertical: bool, rules: Seq<SizeRules>, index: int) -> Rect {
    if 0 <= index < rules.len() {
        region_of(rect, vertical, row_sizes(rules, row_extent(rect, vertical)), index)
    } else {
        Rect { pos: rect.pos, size: Size(0, 0) }
    }
}

/// Setter for a row or a column
///
/// The children lie one after the other, from the start of the region,
/// each with the size that dividing the extent of the region gave it.
pub struct RowSetter {
    pub vertical: bool,
    pub rect: Rect,
    pub sizes: Vec<i32>,
}

impl RowSetter {
    /// Construct: divide the extent of `rect` among children with the
    /// given rules
    pub fn new(rect: Rect, vertical: bool, rules: &Vec<SizeRules>) -> (r: RowSetter)
        ensures
            r.rect == rect,
            r.vertical == vertical,
            r.sizes@ == row_sizes(rules@, row_extent(rect, vertical)),
    {
        let extent = rect.size.extract(vertical);
        let target = to_i32(extent as i64);
        let sizes = solve_seq(rules, target);
        proof {
            assert(sizes@ =~= row_sizes(rules@, row_extent(rect, vertical)));
        }
        RowSetter { vertical, rect, sizes }
    }
}

impl RulesSetter for RowSetter {
    open spec fn region(&self, index: int) -> Rect {
        region_of(self.rect, self.vertical, self.sizes@, index)
    }

    open spec fn children(&self) -> nat {
        self.sizes@.len()
    }

    fn child_rect(&self, index: usize) -> (r: Rect) {
        let mut before: i128 = 0;
        let mut i: usize = 0;
        while i < index
            invariant
                i <= index < self.sizes@.len(),
                before == sum_sizes(self.sizes@, i as nat),
                -0x8000_0000 * i <= before <= 0x8000_0000 * i,
            decreases index - i,
        {
            before = before + self.sizes[i] as i128;
            i += 1;
        }
        let before: i64 = if before > i32::MAX as i128 {
            i32::MAX as i64
        } else if before < i32::MIN as i128 {
            i32::MIN as i64
        } else {
            before as i64
        };
        let size = to_u32(self.sizes[index] as i64);
        if self.vertical {
            Rect {
                pos: Coord(self.rect.pos.0, to_i32(self.rect.pos.1 as i64 + before)),
                size: Size(self.rect.size.0, size),
            }
        } else {
            Rect {
                pos: Coord(to_i32(self.rect.pos.0 as i64 + before), self.rect.pos.1),
                size: Size(size, self.rect.size.1),
            }
        }
    }
}

/// Layout of a row or a column
pub struct RowLayout;

impl LayoutData for RowLayout {
    type Data = Vec<SizeRules>;

    type Solver = RowSolver;

    type Setter = RowSetter;
}

} // verus!
