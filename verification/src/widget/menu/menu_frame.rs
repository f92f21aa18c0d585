//! A frame around content, plus background

use crate::data::{CoreData, WidgetId};
use crate::draw::{DrawCmd, DrawHandle, SizeHandle};
use crate::geom::{to_u32, Coord, Offset, Rect, Size};
use crate::event::{Event, Manager, ManagerState, Response, VoidMsg};
use crate::layout::{AlignHints, AxisInfo, SizeRules};
use crate::model::{Kind, WidgetModel};
use crate::toolkit::TkAction;
use crate::traits::{EventHandler, Layout, WidgetCore};
use crate::widget::any::AnyWidget;
use vstd::prelude::*;

verus! {

/// A frame around content, plus background
pub struct MenuFrame {
    pub core: CoreData,
    pub inner: Box<AnyWidget>,
    pub offset: Offset,
    pub size: Size,
}

impl MenuFrame {
    /// Model of the frame.
    pub open spec fn view(&self) -> WidgetModel {
        AnyWidget::Frame(*self)@
    }

    /// Construct a frame
    #[inline]
    pub fn new(inner: AnyWidget) -> (r: MenuFrame)
        ensures
            r@ == (WidgetModel {
                core: CoreData {
                    id: WidgetId(0),
                    rect: Rect { pos: Coord(0, 0), size: Size(0, 0) },
                    disabled: false,
                },
                kind: Kind::Frame { offset: Offset(0, 0), size: Size(0, 0) },
                children: seq![inner@],
            }),
    {
        MenuFrame {
            core: CoreData {
                id: WidgetId(0),
                rect: Rect { pos: Coord(0, 0), size: Size(0, 0) },
                disabled: false,
            },
            inner: Box::new(inner),
            offset: Offset(0, 0),
            size: Size(0, 0),
        }
    }

    /// The content of the frame
    pub fn inner(&self) -> (r: &AnyWidget)
        ensures
            *r == *self.inner,
    {
        &*self.inner
    }

    /// The content of the frame, for change
    pub fn inner_mut(&mut self) -> (r: &mut AnyWidget)
        ensures
            *r == *old(self).inner,
            *final(self).inner == *final(r),
            final(self).core == old(self).core,
            final(self).offset == old(self).offset,
            final(self).size == old(self).size,
    {
        &mut *self.inner
    }

    /// Get the text of the content, if the content is a label
    pub fn get_str(&self) -> (r: Option<&str>)
        ensures
            match r {
                Some(text) => self@.children[0].kind is Label && text@
                    == self@.children[0].kind->Label_text,
                None => !(self@.children[0].kind is Label),
            },
    {
        proof {
            reveal_with_fuel(AnyWidget::view, 2);
        }
        match &*self.inner {
            AnyWidget::Label(label) => Some(label.get_str()),
            _ => None,
        }
    }

    /// Set the text of the content, if the content is a label
    ///
    /// Other content is left as it is, and nothing is asked of the
    /// toolkit.
    pub fn set_string(&mut self, text: String) -> (action: TkAction)
        ensures
            final(self)@ == (WidgetModel {
                children: seq![old(self)@.children[0].relabelled(text@)],
                ..old(self)@
            }),
            action == if old(self)@.children[0].kind is Label {
                TkAction::Redraw
            } else {
                TkAction::Empty
            },
    {
        proof {
            reveal_with_fuel(AnyWidget::view, 2);
        }
        let is_label = match &*self.inner {
            AnyWidget::Label(_) => true,
            _ => false,
        };
        let action = if is_label {
            match &mut *self.inner {
                AnyWidget::Label(label) => label.set_string(text),
                _ => TkAction::Empty,
            }
        } else {
            TkAction::Empty
        };
        proof {
            assert(self@.children[0] == (*self.inner)@);
            assert(old(self)@.children[0] == (*old(self).inner)@);
            if *old(self).inner is Label {
                assert(*self.inner is Label);
                assert((*self.inner)@ == (*self.inner)->Label_0@);
                assert((*old(self).inner)@ == (*old(self).inner)->Label_0@);
            } else {
                assert(*self.inner == *old(self).inner);
            }
            assert(self@.children[0] == old(self)@.children[0].relabelled(text@));
            assert(self@.children =~= seq![old(self)@.children[0].relabelled(text@)]);
        }
        action
    }

    /// Get size rules for the given axis: those of the content within a
    /// frame of the theme's thickness
    ///
    /// The frame keeps where the content is to lie within it.
    pub fn size_rules(&mut self, size_handle: &SizeHandle, axis: AxisInfo) -> (r: SizeRules)
        ensures
            r == old(self)@.rules(*size_handle, axis),
            final(self)@ == old(self)@.measured(*size_handle, axis),
        decreases *old(self),
    {
        let frame_rules = size_handle.frame(axis.is_vertical());
        let child_rules = self.inner.size_rules(size_handle, axis);
        let (rules, offset, size) = frame_rules.surround(child_rules);
        if axis.is_vertical() {
            self.offset.1 = offset;
            self.size.1 = to_u32(size as i64);
        } else {
            self.offset.0 = offset;
            self.size.0 = to_u32(size as i64);
        }
        proof {
            let m = old(self)@.measured(*size_handle, axis);
            crate::model::lemma_measured_all(old(self)@.children, *size_handle, axis);
            assert(m.children.len() == 1);
            assert(self@.children.len() == 1);
            assert(self@.children[0] == (*self.inner)@);
            assert(old(self)@.children[0] == (*old(self).inner)@);
            assert(m.children[0] == old(self)@.children[0].measured(*size_handle, axis));
            assert(self@.children =~= m.children);
        }
        rules
    }

    /// Take the given region, and give the content the region within the
    /// frame
    pub fn set_rect(&mut self, mgr: &mut Manager, rect: Rect, align: AlignHints)
        requires
            old(self)@.shaped(),
        ensures
            old(self)@.placed(final(self)@, rect, align),
            final(self)@.wf(),
            final(mgr).action == old(mgr).action.join(old(self)@.placing_action(rect, align)),
            final(mgr).same_but_action(old(mgr)),
        decreases *old(self),
    {
        self.core.rect = rect;
        let inner_rect = Rect { pos: rect.pos.offset_by(self.offset), size: rect.size - self.size };
        self.inner.set_rect(mgr, inner_rect, align);
    }

    /// Draw the frame, then its content
    pub fn draw(&self, draw_handle: &mut DrawHandle, mgr: &ManagerState, disabled: bool)
        ensures
            final(draw_handle).cmds@ == old(draw_handle).cmds@ + self@.drawing(mgr, disabled),
        decreases self,
    {
        draw_handle.push(DrawCmd::MenuFrame { rect: self.core.rect });
        let below = disabled || self.core.disabled;
        self.inner.draw(draw_handle, mgr, below);
        proof {
            assert(self@.drawing_below(0, mgr, below) =~= Seq::empty());
            assert(self@.drawing_below(1, mgr, below) =~= self@.children[0].drawing(mgr, below));
            assert(draw_handle.cmds@ =~= old(draw_handle).cmds@ + self@.drawing(mgr, disabled));
        }
    }

    /// Send an event to a widget of the tree: the frame passes on what is
    /// not addressed to itself, and uses nothing
    pub fn event(&mut self, mgr: &mut Manager, id: WidgetId, event: Event) -> (r: Response<VoidMsg>)
        requires
            old(self)@.wf(),
            old(mgr).wf(),
        ensures
            r == old(self)@.reply(id, event).response,
            old(self)@.delivered(final(self)@, id, event),
            old(mgr).received(final(mgr), old(self)@.reply(id, event)),
            final(self)@.wf(),
            final(mgr).wf(),
        decreases *old(self),
    {
        if self.core.disabled || id.0 == self.core.id.0 {
            return Response::Unhandled(event);
        }
        self.inner.event(mgr, id, event)
    }

    /// Find the widget at the given coordinate: what the content names, or
    /// the frame itself
    #[inline]
    pub fn find_id(&self, coord: Coord) -> (r: Option<WidgetId>)
        ensures
            r == self@.hit(coord),
        decreases self,
    {
        if self.core.disabled || !self.core.rect.contains(coord) {
            return None;
        }
        proof {
            assert(self@.first_hit(0, coord).is_none());
            assert(self@.first_hit(1, coord) == self@.children[0].hit(coord));
        }
        match self.inner.find_id(coord) {
            Some(id) => Some(id),
            None => Some(self.core.id),
        }
    }
}

} // verus!
