//! The model of drawing: the instructions that a widget tree gives to the
//! renderer

use crate::draw::DrawCmd;
use crate::event::ManagerState;
use crate::model::{Kind, WidgetModel};
use crate::traits::input_state_of;
use vstd::prelude::*;

verus! {

impl WidgetModel {
    /// The instructions for the first `n` children.
    pub open spec fn drawing_below(self, n: nat, mgr: &ManagerState, disabled: bool) -> Seq<DrawCmd>
        decreases self, 0nat, n,
        when n <= self.children.len()
    {
        if n == 0 {
            Seq::empty()
        } else {
            self.drawing_below((n - 1) as nat, mgr, disabled) + self.children[n - 1].drawing(
                mgr,
                disabled,
            )
        }
    }

    /// The instructions that draw the widget and what lies below it;
    /// `disabled` tells whether a widget above is disabled.
    ///
    /// A label has its text drawn. A frame has itself drawn, then its
    /// content. A stack has its active child drawn, if it has one, and a
    /// row all its children. A list
    /// has the widgets that serve data drawn, scrolled by its offset and
    /// clipped to its region.
    pub open spec fn drawing(self, mgr: &ManagerState, disabled: bool) -> Seq<DrawCmd>
        decreases self, 1nat, 0nat,
    {
        let below = disabled || self.core.disabled;
        match self.kind {
            Kind::Label { .. } => seq![
                DrawCmd::Text {
                    id: self.core.id,
                    rect: self.core.rect,
                    state: input_state_of(self.core, mgr, disabled),
                },
            ],
            Kind::Frame { .. } => seq![DrawCmd::MenuFrame { rect: self.core.rect }]
                + self.drawing_below(self.children.len(), mgr, below),
            Kind::Stack { active } => if active < self.children.len() {
                self.children[active as int].drawing(mgr, below)
            } else {
                Seq::empty()
            },
            Kind::Row { .. } => self.drawing_below(self.children.len(), mgr, below),
            Kind::List { state, .. } => seq![
                DrawCmd::ClipBegin { rect: self.core.rect, offset: state.scroll.offset },
            ] + self.drawing_below(self.hit_limit(), mgr, below) + seq![DrawCmd::ClipEnd],
        }
    }
}

} // verus!
