//! A line of text

use crate::data::{CoreData, WidgetId};
use crate::draw::{DrawCmd, DrawHandle, InputState, SizeHandle};
use crate::geom::{Coord, Rect, Size};
use crate::event::{Event, Manager, ManagerState, Response, VoidMsg};
use crate::layout::{AlignHints, AxisInfo, SizeRules};
use crate::model::{label_model, Kind, WidgetModel};
use crate::toolkit::TkAction;
use vstd::prelude::*;

verus! {

/// A label: one line of text
///
/// A label can be made to take keyboard navigation focus, as a label that
/// can be selected does.
pub struct Label {
    pub core: CoreData,
    pub text: String,
    pub key_nav: bool,
}

impl Label {
    /// Model of the label.
    pub open spec fn view(&self) -> WidgetModel {
        WidgetModel {
            core: self.core,
            kind: Kind::Label { text: self.text@, key_nav: self.key_nav },
            children: Seq::empty(),
        }
    }

    /// Construct a label with the given text
    pub fn new(text: String) -> (r: Label)
        ensures
            r@ == label_model(text@),
    {
        Label {
            core: CoreData {
                id: WidgetId(0),
                rect: Rect { pos: Coord(0, 0), size: Size(0, 0) },
                disabled: false,
            },
            text,
            key_nav: false,
        }
    }

    /// Set whether the label takes keyboard navigation focus
    pub fn with_key_nav(self, key_nav: bool) -> (r: Label)
        ensures
            r@ == (WidgetModel { kind: Kind::Label { text: self@.kind->Label_text, key_nav }, ..self@ }),
    {
        Label { core: self.core, text: self.text, key_nav }
    }

    /// Get the text
    pub fn get_str(&self) -> (r: &str)
        ensures
            r@ == self@.kind->Label_text,
    {
        self.text.as_str()
    }

    /// Set the text
    ///
    /// The label wants to be drawn again.
    pub fn set_string(&mut self, text: String) -> (action: TkAction)
        ensures
            final(self)@ == (WidgetModel {
                kind: Kind::Label { text: text@, key_nav: old(self).key_nav },
                ..old(self)@
            }),
            action == TkAction::Redraw,
    {
        self.text = text;
        TkAction::Redraw
    }

    /// Get size rules for the given axis
    pub fn size_rules(&mut self, size_handle: &SizeHandle, axis: AxisInfo) -> (r: SizeRules)
        ensures
            r == old(self)@.rules(*size_handle, axis),
            final(self)@ == old(self)@.measured(*size_handle, axis),
    {
        size_handle.text_bound(self.text.as_str().unicode_len(), axis.is_vertical())
    }

    /// Take the given region
    pub fn set_rect(&mut self, mgr: &mut Manager, rect: Rect, align: AlignHints)
        ensures
            old(self)@.placed(final(self)@, rect, align),
            final(self)@.wf(),
            *final(mgr) == *old(mgr),
    {
        self.core.rect = rect;
    }

    /// Draw the label
    pub fn draw(&self, draw_handle: &mut DrawHandle, mgr: &ManagerState, disabled: bool)
        ensures
            final(draw_handle).cmds@ == old(draw_handle).cmds@ + self@.drawing(mgr, disabled),
    {
        let state = InputState {
            disabled: self.core.disabled || disabled,
            error: false,
            hover: mgr.is_hovered(self.core.id),
            depress: mgr.is_depressed(self.core.id),
            nav_focus: mgr.nav_focus(self.core.id),
            char_focus: mgr.char_focus(self.core.id),
        };
        draw_handle.push(DrawCmd::Text { id: self.core.id, rect: self.core.rect, state });
        proof {
            assert(draw_handle.cmds@ =~= old(draw_handle).cmds@ + self@.drawing(mgr, disabled));
        }
    }

    /// Handle an event
    ///
    /// A label that takes navigation focus and is given it asks for its
    /// region to be shown, so that a list that holds it can scroll it into
    /// view. A label uses no other event, and a disabled label none.
    pub fn event(&mut self, mgr: &mut Manager, id: WidgetId, event: Event) -> (r: Response<VoidMsg>)
        ensures
            r == old(self)@.reply(id, event).response,
            *final(self) == *old(self),
            *final(mgr) == *old(mgr),
    {
        if self.core.disabled {
            return Response::Unhandled(event);
        }
        match event {
            Event::NavFocus => if self.key_nav {
                Response::Focus(self.core.rect)
            } else {
                Response::Unhandled(event)
            },
            event => Response::Unhandled(event),
        }
    }

    /// Find the widget at the given coordinate: the label itself, if it is
    /// not disabled and the coordinate lies within it
    pub fn find_id(&self, coord: Coord) -> (r: Option<WidgetId>)
        ensures
            r == self@.hit(coord),
    {
        if self.core.disabled || !self.core.rect.contains(coord) {
            return None;
        }
        Some(self.core.id)
    }
}

} // verus!
