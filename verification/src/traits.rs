//! Widget traits

use crate::data::{CoreData, WidgetId, WindowId};
use crate::draw::{DrawHandle, InputState, SizeHandle};
use crate::event::{CursorIcon, Event, Manager, ManagerState, Response, VoidMsg};
use crate::geom::{Coord, Rect};
use crate::layout::{AlignHints, AxisInfo, Direction, SizeRules};
use crate::model::{Kind, Registrations, WidgetModel};
use crate::toolkit::TkAction;
use crate::widget::any::AnyWidget;
use vstd::prelude::*;

verus! {

/// The model of a widget found, if one was found.
pub open spec fn model_of(r: Option<&AnyWidget>) -> Option<WidgetModel> {
    match r {
        Some(w) => Some(w@),
        None => None,
    }
}

/// The name of the struct of a widget of the given kind.
pub open spec fn kind_name(kind: Kind) -> Seq<char> {
    match kind {
        Kind::Label { .. } => "Label"@,
        Kind::Frame { .. } => "MenuFrame"@,
        Kind::Stack { .. } => "Stack"@,
        Kind::Row { .. } => "Row"@,
        Kind::List { .. } => "ListView"@,
    }
}

/// The input state of a widget with the given common data, which lies
/// below a disabled widget if `disabled` is set.
pub open spec fn input_state_of(core: CoreData, mgr: &ManagerState, disabled: bool) -> InputState {
    InputState {
        disabled: core.disabled || disabled,
        error: false,
        hover: mgr.hover == Some(core.id),
        depress: mgr.depressed(core.id),
        nav_focus: mgr.nav_focus == Some(core.id),
        char_focus: mgr.char_focus == Some(core.id),
    }
}

/// Base widget functionality
pub trait WidgetCore: Sized {
    /// Model of the widget and of the tree below it.
    spec fn view(&self) -> WidgetModel;

    /// Get direct access to the [`CoreData`] providing property storage.
    fn core_data(&self) -> (r: &CoreData)
        ensures
            *r == self@.core,
    ;

    /// Get mutable access to the [`CoreData`] providing property storage.
    ///
    /// This should not normally be needed by user code.
    fn core_data_mut(&mut self) -> (r: &mut CoreData)
        ensures
            *r == old(self)@.core,
            final(self)@ == (WidgetModel { core: *final(r), ..old(self)@ }),
    ;

    /// Get the widget's numeric identifier
    #[inline]
    fn id(&self) -> (r: WidgetId)
        ensures
            r == self@.core.id,
    {
        self.core_data().id
    }

    /// Get whether the widget is disabled
    #[inline]
    fn is_disabled(&self) -> (r: bool)
        ensures
            r == self@.core.disabled,
    {
        self.core_data().disabled
    }

    /// Set the disabled state of a widget
    ///
    /// If disabled, a widget should not respond to input and should appear
    /// greyed out.
    ///
    /// The disabled status is inherited by children: events should not be
    /// passed to them, and they should also be drawn greyed out.
    ///
    /// Disabling changes what a search by coordinate finds, so the result
    /// is `TkAction::RegionMoved`.
    #[inline]
    fn set_disabled(&mut self, disabled: bool) -> (action: TkAction)
        ensures
            final(self)@ == (WidgetModel {
                core: CoreData { disabled, ..old(self)@.core },
                ..old(self)@
            }),
            action == TkAction::RegionMoved,
    {
        let core = self.core_data_mut();
        core.disabled = disabled;
        TkAction::RegionMoved
    }

    /// Get the widget's region, relative to its parent.
    #[inline]
    fn rect(&self) -> (r: Rect)
        ensures
            r == self@.core.rect,
    {
        self.core_data().rect
    }

    /// Get the name of the widget struct
    fn widget_name(&self) -> (r: &'static str)
        ensures
            r@ == kind_name(self@.kind),
    ;

    /// Construct [`InputState`]
    ///
    /// The `disabled` flag is inherited from parents. [`InputState::disabled`]
    /// will be true if either `disabled` or `self.is_disabled()` are true.
    ///
    /// The error state defaults to `false` since most widgets don't support
    /// this.
    fn input_state(&self, mgr: &ManagerState, disabled: bool) -> (r: InputState)
        ensures
            r == input_state_of(self@.core, mgr, disabled),
    {
        let id = self.core_data().id;
        InputState {
            disabled: self.core_data().disabled || disabled,
            error: false,
            hover: mgr.is_hovered(id),
            depress: mgr.is_depressed(id),
            nav_focus: mgr.nav_focus(id),
            char_focus: mgr.char_focus(id),
        }
    }
}

/// Listing of a widget's children
///
/// Note that if the results of these methods ever change, one must send
/// [`TkAction::Reconfigure`].
pub trait WidgetChildren: WidgetCore {
    /// Get the number of child widgets
    fn len(&self) -> (n: usize)
        ensures
            n == self@.children.len(),
    ;

    /// Get a reference to a child widget by index, or `None` if the index is
    /// out of bounds.
    fn get(&self, index: usize) -> (r: Option<&AnyWidget>)
        ensures
            index < self@.children.len() ==> r.is_some() && r.unwrap()@
                == self@.children[index as int],
            index >= self@.children.len() ==> r.is_none(),
            r matches Some(w) ==> decreases_to!(self => w),
    ;

    /// Mutable variant of get
    ///
    /// Warning: directly adjusting a widget without requiring reconfigure or
    /// redraw may break the UI. If a widget is replaced, a reconfigure **must**
    /// be requested.
    fn get_mut(&mut self, index: usize) -> (r: Option<&mut AnyWidget>)
        ensures
            index >= old(self)@.children.len() ==> r.is_none() && final(self)@ == old(self)@,
            index < old(self)@.children.len() ==> {
                &&& r.is_some()
                &&& r.unwrap()@ == old(self)@.children[index as int]
                &&& final(self)@.core == old(self)@.core
                &&& final(self)@.kind == old(self)@.kind
                &&& final(self)@.children =~= old(self)@.children.update(
                    index as int,
                    final(r.unwrap())@,
                )
            },
            r matches Some(w) ==> decreases_to!(*old(self) => *w),
    ;

    /// Find a widget by identifier, among those that input can reach
    ///
    /// This requires that the widget tree has been configured.
    ///
    /// A disabled widget is not found, nor is any widget below it.
    fn find(&self, id: WidgetId) -> (r: Option<&AnyWidget>)
        requires
            self@.configured(),
        ensures
            self@.finds_shown(id, model_of(r)),
    ;

    /// Walk through all widgets, taking note of the identifier of each
    ///
    /// This walk is iterative (nonconcurrent), depth-first, and always
    /// comes to a widget *after* walking through all its children. The
    /// identifiers are appended to `seen`.
    fn walk(&self, seen: &mut Vec<WidgetId>)
        ensures
            final(seen)@ == old(seen)@ + self@.walk_order(),
    ;

    /// Find a widget by identifier, for change
    ///
    /// This requires that the widget tree has been configured.
    ///
    /// Disabled widgets are found like others.
    fn find_mut(&mut self, id: WidgetId) -> (r: Option<&mut AnyWidget>)
        requires
            old(self)@.configured(),
        ensures
            match r {
                Some(w) => {
                    &&& old(self)@.finds(id, Some(w@))
                    &&& final(self)@ == old(self)@.replaced(id, final(w)@)
                },
                None => {
                    &&& old(self)@.finds(id, None)
                    &&& final(self)@ == old(self)@
                },
            },
    ;
}

/// Positioning and drawing routines for widgets
///
/// This trait contains methods concerned with positioning of contents
/// as well as low-level event handling.
///
/// For a description of the widget size model, see [`SizeRules`].
pub trait Layout: WidgetChildren {
    /// Get size rules for the given axis.
    ///
    /// This method takes `&mut self` to allow local caching of child widget
    /// configuration for future `size_rules` and `set_rect` calls.
    ///
    /// If operating on one axis and the other is fixed, then the `other`
    /// parameter is used for the fixed dimension.
    ///
    /// The method may be called any number of times: what it returns does
    /// not depend on how often it was called before.
    fn size_rules(&mut self, size_handle: &SizeHandle, axis: AxisInfo) -> (r: SizeRules)
        ensures
            r == old(self)@.rules(*size_handle, axis),
            final(self)@ == old(self)@.measured(*size_handle, axis),
            old(self)@.shaped() ==> final(self)@.shaped(),
            old(self)@.wf() ==> final(self)@.wf(),
    ;

    /// Adjust to the given size.
    ///
    /// One may assume that `size_rules` has been called for each axis with the
    /// current widget configuration. After this call, every widget of the
    /// tree has a region, and the tree is well formed: a list whose data
    /// was changed serves its data again.
    ///
    /// What a widget asks of the toolkit in the course of this, it sends
    /// to the manager.
    fn set_rect(&mut self, mgr: &mut Manager, rect: Rect, align: AlignHints)
        requires
            old(self)@.shaped(),
        ensures
            old(self)@.placed(final(self)@, rect, align),
            final(self)@.wf(),
            final(mgr).action == old(mgr).action.join(old(self)@.placing_action(rect, align)),
            final(mgr).same_but_action(old(mgr)),
    ;

    /// Draw a widget
    ///
    /// The widget appends the instructions that draw it, and what lies
    /// below it, to those that `draw_handle` has collected.
    fn draw(&self, draw_handle: &mut DrawHandle, mgr: &ManagerState, disabled: bool)
        ensures
            final(draw_handle).cmds@ == old(draw_handle).cmds@ + self@.drawing(mgr, disabled),
    ;

    /// Find a child widget by coordinate
    ///
    /// This is used by the event manager to target the correct widget given an
    /// event from a coordinate source (mouse pointer, touch event).
    ///
    /// This must not be called before [`Layout::set_rect`].
    ///
    /// Where no child claims the coordinate, the widget itself is returned.
    /// `None` is returned when `coord` is outside the widget's region, and
    /// by a disabled widget, which does not ask its children.
    fn find_id(&self, coord: Coord) -> (r: Option<WidgetId>)
        ensures
            r == self@.hit(coord),
    ;
}

/// Widget configuration
///
/// This trait allows some configuration of widget behaviour.
pub trait WidgetConfig: Layout {
    /// Configure widget
    ///
    /// Widgets are *configured* on window creation and when
    /// [`TkAction::Reconfigure`] is sent.
    ///
    /// Configure is called before resizing (but after calculation of the
    /// initial window size). This method is called after
    /// a [`WidgetId`] has been assigned to self, and after `configure` has
    /// been called on each child.
    ///
    /// Here a widget registers with the event manager what it wants to be
    /// told. The widget itself stays as it is.
    fn configure(&mut self, mgr: &mut Manager)
        ensures
            final(self)@ == old(self)@,
            registrations(final(mgr)) == old(self)@.registered(registrations(old(mgr))),
            final(mgr).same_but_registrations(old(mgr)),
    ;

    /// Is this widget navigable via Tab key?
    fn key_nav(&self) -> (r: bool)
        ensures
            r == self@.navigable(),
    ;

    /// Which cursor icon should be used on hover?
    ///
    /// Defaults to [`CursorIcon::Default`].
    fn cursor_icon(&self) -> (r: CursorIcon)
        default_ensures
            r == CursorIcon::Default,
    {
        CursorIcon::Default
    }
}

/// What the widgets have registered with the manager.
pub open spec fn registrations(mgr: &ManagerState) -> Registrations {
    Registrations { nav_fallback: mgr.nav_fallback, handles: mgr.handles@ }
}

/// Event handling
pub trait EventHandler: WidgetConfig {
    /// Send an event to the widget `id` of this tree
    ///
    /// The event goes down the tree to the widget it is addressed to. What
    /// that widget does not use comes back to its parents, which may use
    /// it in turn. What the tree asks of the toolkit or of the event
    /// manager in the course of this is handed to `mgr`.
    fn event(&mut self, mgr: &mut Manager, id: WidgetId, event: Event) -> (r: Response<VoidMsg>)
        requires
            old(self)@.wf(),
            old(mgr).wf(),
        ensures
            r == old(self)@.reply(id, event).response,
            old(self)@.delivered(final(self)@, id, event),
            old(mgr).received(final(mgr), old(self)@.reply(id, event)),
            final(self)@.wf(),
            final(mgr).wf(),
    ;
}

/// Widget trait
///
/// This is one of a family of widget traits, all of which must be implemented
/// for a functional widget.
pub trait Widget: EventHandler {
}

/// Functionality required by a window
pub trait Window: Widget {
    /// Get the window title
    fn title(&self) -> &str;

    /// Whether to limit the maximum size of a window
    ///
    /// All widgets' size rules allow calculation of two sizes: the minimum
    /// size and the ideal size. Windows are initially sized to the ideal size.
    /// This option controls whether the window size is restricted by the
    /// calculated minimum size and by the ideal size.
    ///
    /// Return value is `(restrict_min, restrict_max)`. Suggested is to use
    /// `(true, true)` for simple dialog boxes and `(true, false)` for complex
    /// windows.
    fn restrict_dimensions(&self) -> (bool, bool);

    /// Add a pop-up as a layer in the current window
    ///
    /// Each [`Popup`] is assigned a [`WindowId`]; both are passed.
    fn add_popup(&mut self, size_handle: &SizeHandle, mgr: &mut Manager, id: WindowId, popup: Popup);

    /// Resize popups
    ///
    /// This is called immediately after [`Layout::set_rect`] to resize
    /// existing pop-ups.
    fn resize_popups(&mut self, size_handle: &SizeHandle);

    /// Trigger closure of a pop-up
    ///
    /// If the given `id` refers to a pop-up, it should be closed.
    fn remove_popup(&mut self, mgr: &mut Manager, id: WindowId);

    /// Handle closure of self
    ///
    /// This allows for actions on destruction, but doesn't need to do anything.
    fn handle_closure(&mut self, mgr: &mut Manager) {
    }
}

/// A pop-up is an overlay with parent & position information
pub struct Popup {
    pub parent: WidgetId,
    pub direction: Direction,
    pub overlay: AnyWidget,
}

/// Return value of theme-adjusting functions
///
/// This type is used to notify the toolkit of required updates. The
/// variants are ordered by the amount of work they imply.
#[derive(Debug, Clone, Copy, Eq, PartialEq, Ord, PartialOrd, Structural)]
pub enum ThemeAction {
    /// No action needed
    Empty,
    /// All windows require redrawing
    RedrawAll,
    /// Theme sizes have changed
    ///
    /// This implies that per-window theme data must be updated and all
    /// widgets resized.
    ThemeResize,
}

impl ThemeAction {
    /// Position of the action in the order of actions.
    pub open spec fn rank(self) -> nat {
        match self {
            ThemeAction::Empty => 0,
            ThemeAction::RedrawAll => 1,
            ThemeAction::ThemeResize => 2,
        }
    }

    /// What the action asks of a window: nothing, a redraw, or to lay out
    /// its widgets anew.
    pub open spec fn for_window(self) -> TkAction {
        match self {
            ThemeAction::Empty => TkAction::Empty,
            ThemeAction::RedrawAll => TkAction::Redraw,
            ThemeAction::ThemeResize => TkAction::Resize,
        }
    }

    /// What the action asks of each window
    pub fn window_action(self) -> (r: TkAction)
        ensures
            r == self.for_window(),
            r.rank() <= TkAction::Resize.rank(),
            self.rank() > 0 ==> r.rank() > 0,
    {
        match self {
            ThemeAction::Empty => TkAction::Empty,
            ThemeAction::RedrawAll => TkAction::Redraw,
            ThemeAction::ThemeResize => TkAction::Resize,
        }
    }
}

} // verus!
