//! Driving the size rules of a widget along both axes

use crate::draw::SizeHandle;
use crate::layout::align::AxisInfo;
use crate::model::WidgetModel;
use crate::traits::Layout;
use vstd::prelude::*;

verus! {

/// The axis information with which `solve_size_rules` asks for the rules
/// along the horizontal axis.
pub open spec fn width_query(y_size: Option<u32>) -> AxisInfo {
    match y_size {
        Some(v) => AxisInfo { vertical: false, has_fixed: true, other_axis: v },
        None => AxisInfo { vertical: false, has_fixed: false, other_axis: 0 },
    }
}

/// The axis information with which `solve_size_rules` asks for the rules
/// along the vertical axis.
pub open spec fn height_query(x_size: Option<u32>) -> AxisInfo {
    match x_size {
        Some(v) => AxisInfo { vertical: true, has_fixed: true, other_axis: v },
        None => AxisInfo { vertical: true, has_fixed: false, other_axis: 0 },
    }
}

/// The widget after its size rules were solved for both axes.
pub open spec fn solved(w: WidgetModel, sh: SizeHandle, x_size: Option<u32>, y_size: Option<u32>) -> WidgetModel {
    w.measured(sh, width_query(y_size)).measured(sh, height_query(x_size))
}

/// Solve size rules for a widget
///
/// It is required that a widget's size rules are solved before
/// `set_rect` is called on it. This asks for the rules along the
/// horizontal axis first and along the vertical axis second, so that the
/// height may depend on the width.
///
/// Parameters `x_size` and `y_size` should be passed where this dimension is
/// fixed and are used e.g. for text wrapping.
pub fn solve_size_rules<W: Layout>(
    widget: &mut W,
    size_handle: &SizeHandle,
    x_size: Option<u32>,
    y_size: Option<u32>,
)
    ensures
        final(widget)@ == solved(old(widget)@, *size_handle, x_size, y_size),
        old(widget)@.shaped() ==> final(widget)@.shaped(),
        old(widget)@.wf() ==> final(widget)@.wf(),
{
    widget.size_rules(size_handle, AxisInfo::new(false, y_size));
    widget.size_rules(size_handle, AxisInfo::new(true, x_size));
}

} // verus!
