//! The part of a list view that is plain data, and the plan by which a
//! list view lays out its items

use crate::geom::{clamp_i32, clamp_u32, to_i32, to_u32, Coord, Offset, Rect, Size};
use crate::layout::{AlignHints, Direction};
use crate::model::size_with;
use crate::widget::scroll::{clamp_offset, scroll_range, ScrollComponent};
use vstd::prelude::*;

verus! {

/// What a list view knows besides its data and its widgets
///
/// `data_start` and `data_end` bound the range of data items that are
/// served by widgets at the moment. The `child_` fields are what the last
/// layout found out about the items: the least and the ideal extent of an
/// item along the list, the margin between two items, the distance from
/// one item to the next (`child_skip`) and the extent given to each item
/// (`child_size`).
#[derive(Clone, Copy, Debug, PartialEq, Eq, Structural)]
pub struct ListState {
    pub direction: Direction,
    pub data_start: usize,
    pub data_end: usize,
    pub align_hints: AlignHints,
    pub ideal_visible: i32,
    pub child_size_min: i32,
    pub child_size_ideal: i32,
    pub child_inter_margin: i32,
    pub child_skip: i32,
    pub child_size: i32,
    pub scroll: ScrollComponent,
}

/// The lesser of two numbers.
pub open spec fn least(a: int, b: int) -> int {
    if a <= b {
        a
    } else {
        b
    }
}

/// The number of widgets that a list keeps when it has `old` widgets and
/// could use `wanted`: it makes widgets when it has too few, and lets go
/// of widgets only when it has sixty-four or more too many.
pub open spec fn resized_len(old: nat, wanted: nat) -> nat {
    if wanted > old || wanted + 64 <= old {
        wanted
    } else {
        old
    }
}

impl ListState {
    /// Number of data items that are served by widgets.
    pub open spec fn served(self) -> nat {
        if self.data_end >= self.data_start {
            (self.data_end - self.data_start) as nat
        } else {
            0
        }
    }

    /// The state of a list view that has not been laid out.
    pub open spec fn initial(direction: Direction) -> ListState {
        ListState {
            direction,
            data_start: 0,
            data_end: 0,
            align_hints: AlignHints::no_hints(),
            ideal_visible: 5,
            child_size_min: 0,
            child_size_ideal: 0,
            child_inter_margin: 0,
            child_skip: 0,
            child_size: 0,
            scroll: ScrollComponent { max_offset: Offset(0, 0), offset: Offset(0, 0), scroll_rate: 30 },
        }
    }

    /// Whether the list runs along the vertical axis.
    pub open spec fn along(self) -> bool {
        self.direction.vertical()
    }

    /// The extent given to each item along the list, in a region of the
    /// size `size`: the ideal extent where the preferred number of items of
    /// that extent fits, the least extent where it does not.
    pub open spec fn item_extent(self, size: Size) -> i32 {
        let room = if self.along() {
            size.1
        } else {
            size.0
        };
        if room >= self.ideal_visible * self.child_size_ideal {
            self.child_size_ideal
        } else {
            self.child_size_min
        }
    }

    /// The distance from one item to the next, for items of the extent
    /// `item`: the extent plus the margin between items, and one at the
    /// least.
    pub open spec fn skip_for(self, item: i32) -> i32 {
        let skip = clamp_i32(item + self.child_inter_margin);
        if skip >= 1 {
            skip
        } else {
            1
        }
    }

    /// The state after the list was given a region of the size `size`.
    pub open spec fn laid_out(self, size: Size, align: AlignHints) -> ListState {
        let item = self.item_extent(size);
        ListState {
            child_size: item,
            child_skip: self.skip_for(item),
            align_hints: align.without(self.along()),
            ..self
        }
    }

    /// The number of items of which some part can lie within a region of
    /// the size `size`: those that fit, rounded up, and one more.
    pub open spec fn slots(self, size: Size) -> int
        recommends
            self.child_skip >= 1,
    {
        let room = if self.along() {
            size.1
        } else {
            size.0
        };
        (room + self.child_skip - 1) / (self.child_skip as int) + 1
    }

    /// The size of the content: `len` items in sequence along the list, and
    /// as much as the region across it.
    pub open spec fn content_size(self, size: Size, len: nat) -> Size {
        let full = self.child_skip * len - self.child_inter_margin;
        size_with(size, self.along(), clamp_u32(full))
    }

    /// The size of the region given to each item.
    pub open spec fn item_size(self, size: Size) -> Size {
        size_with(size, self.along(), clamp_u32(self.child_size as int))
    }

    /// The first data item that is served, with `widgets` widgets for `len`
    /// items: the item at the offset, but not so late that widgets would
    /// serve nothing while items at the end could be served.
    pub open spec fn first_data(self, widgets: nat, len: nat) -> nat {
        let offset = if self.along() {
            self.scroll.offset.1
        } else {
            self.scroll.offset.0
        };
        let at_offset = if offset >= 0 && self.child_skip >= 1 {
            offset / self.child_skip
        } else {
            0
        };
        let end = least(at_offset + widgets, len as int);
        if end >= widgets {
            (end - widgets) as nat
        } else {
            0
        }
    }

    /// The end of the range of data items that are served.
    pub open spec fn last_data(self, widgets: nat, len: nat) -> nat {
        least((self.first_data(widgets, len) + widgets) as int, len as int) as nat
    }

    /// The step from the place of one item to the place of the next.
    pub open spec fn step(self) -> Offset {
        let along = if self.direction.reversed() {
            clamp_i32(-self.child_skip)
        } else {
            self.child_skip
        };
        if self.along() {
            Offset(0, along)
        } else {
            Offset(along, 0)
        }
    }

    /// The place of the first data item, in a region at `pos` with
    /// `widgets` widgets.
    pub open spec fn origin(self, pos: Coord, widgets: nat) -> Coord {
        if self.direction.reversed() {
            let forward = if self.along() {
                Offset(0, self.child_skip)
            } else {
                Offset(self.child_skip, 0)
            };
            pos.moved(forward.times(clamp_i32(widgets - 1) as int))
        } else {
            pos
        }
    }

    /// The region of the data item `d`, when the list has the region `area`
    /// and `widgets` widgets.
    ///
    /// Places are counted in `i32` and saturate: every item from number
    /// `i32::MAX` on lies where that item lies, and coordinates stop at the
    /// ends of `i32`.
    pub open spec fn item_rect(self, area: Rect, widgets: nat, d: nat) -> Rect {
        Rect {
            pos: self.origin(area.pos, widgets).moved(self.step().times(clamp_i32(d as int) as int)),
            size: self.item_size(area.size),
        }
    }

    /// Whether the widget that serves the data item `d` is given that item
    /// anew: where the item was not served before.
    pub open spec fn rebinds(self, d: nat) -> bool {
        d < self.data_start || d >= self.data_end
    }
}

/// Saturating conversion of a length to `i32`.
pub fn len_to_i32(n: usize) -> (r: i32)
    ensures
        r == clamp_i32(n as int),
{
    if n > 0x7FFF_FFFF {
        i32::MAX
    } else {
        n as i32
    }
}

impl ListState {
    /// Take note of the size of the region: decide the extent of an item
    /// and the distance between items, and drop the alignment hint along
    /// the list
    pub fn lay_out(&mut self, size: Size, align: AlignHints)
        ensures
            *final(self) == old(self).laid_out(size, align),
            final(self).child_skip >= 1,
    {
        let vertical = self.direction.is_vertical();
        let room = size.extract(vertical) as i64;
        assert(-0x8000_0000 * 0x8000_0000 <= self.ideal_visible * self.child_size_ideal
            <= 0x8000_0000 * 0x8000_0000) by (nonlinear_arith)
            requires
                -0x8000_0000 <= self.ideal_visible <= 0x8000_0000,
                -0x8000_0000 <= self.child_size_ideal <= 0x8000_0000,
        ;
        let item = if room >= self.ideal_visible as i64 * self.child_size_ideal as i64 {
            self.child_size_ideal
        } else {
            self.child_size_min
        };
        let skip = to_i32(item as i64 + self.child_inter_margin as i64);
        self.child_size = item;
        self.child_skip = if skip >= 1 {
            skip
        } else {
            1
        };
        self.align_hints = align.unset(vertical);
    }

    /// Number of widgets that the list could use for `len` items in a
    /// region of the size `size`
    pub fn wanted(&self, size: Size, len: usize) -> (r: usize)
        requires
            self.child_skip >= 1,
        ensures
            r == least(self.slots(size), len as int),
    {
        let room = size.extract(self.direction.is_vertical()) as u64;
        let skip = self.child_skip as u64;
        let slots = (room + skip - 1) / skip + 1;
        if slots < len as u64 {
            slots as usize
        } else {
            len
        }
    }

    /// Size of the content of a list of `len` items in a region of the
    /// size `size`
    pub fn content(&self, size: Size, len: usize) -> (r: Size)
        ensures
            r == self.content_size(size, len as nat),
    {
        let vertical = self.direction.is_vertical();
        let skip = self.child_skip as i128;
        assert(-0x8000_0000 * 0x1_0000_0000_0000_0000 <= skip * len <= 0x8000_0000
            * 0x1_0000_0000_0000_0000) by (nonlinear_arith)
            requires
                -0x8000_0000 <= skip <= 0x8000_0000,
                0 <= len <= 0x1_0000_0000_0000_0000,
        ;
        let full = skip * len as i128 - self.child_inter_margin as i128;
        let along = if full < 0 {
            0
        } else if full > u32::MAX as i128 {
            u32::MAX
        } else {
            full as u32
        };
        if vertical {
            Size(size.0, along)
        } else {
            Size(along, size.1)
        }
    }

    /// Size of the region of one item in a region of the size `size`
    pub fn item_region(&self, size: Size) -> (r: Size)
        ensures
            r == self.item_size(size),
    {
        let along = to_u32(self.child_size as i64);
        if self.direction.is_vertical() {
            Size(size.0, along)
        } else {
            Size(along, size.1)
        }
    }

    /// The range of data items to serve with `widgets` widgets for `len`
    /// items
    pub fn data_range(&self, widgets: usize, len: usize) -> (r: (usize, usize))
        ensures
            r.0 == self.first_data(widgets as nat, len as nat),
            r.1 == self.last_data(widgets as nat, len as nat),
            r.0 <= r.1 <= len,
            r.1 - r.0 <= widgets,
            len >= widgets ==> r.1 - r.0 == widgets,
            len < widgets ==> r.0 == 0 && r.1 == len,
    {
        let offset = self.scroll.offset().extract(self.direction.is_vertical());
        let at_offset: u64 = if offset >= 0 && self.child_skip >= 1 {
            (offset / self.child_skip) as u64
        } else {
            0
        };
        let end: u64 = if at_offset as u128 + widgets as u128 <= len as u128 {
            at_offset + widgets as u64
        } else {
            len as u64
        };
        let first: usize = if end >= widgets as u64 {
            (end - widgets as u64) as usize
        } else {
            0
        };
        let last: usize = if first as u128 + widgets as u128 <= len as u128 {
            first + widgets
        } else {
            len
        };
        (first, last)
    }

    /// The place of the first data item and the step from one item to the
    /// next, in a region at `pos` with `widgets` widgets
    pub fn placing(&self, pos: Coord, widgets: usize) -> (r: (Coord, Offset))
        ensures
            r.0 == self.origin(pos, widgets as nat),
            r.1 == self.step(),
    {
        let forward = if self.direction.is_vertical() {
            Offset(0, self.child_skip)
        } else {
            Offset(self.child_skip, 0)
        };
        if self.direction.is_reversed() {
            let back = to_i32(-(self.child_skip as i64));
            let step = if self.direction.is_vertical() {
                Offset(0, back)
            } else {
                Offset(back, 0)
            };
            let count = if widgets == 0 {
                -1
            } else {
                len_to_i32(widgets - 1)
            };
            (pos.offset_by(forward.scaled(count)), step)
        } else {
            (pos, forward)
        }
    }
}

} // verus!
