//! Event manager state: hover, focus, grabs, timers and subscriptions

use crate::data::WidgetId;
use crate::draw::SizeHandle;
use crate::event::events::{CursorIcon, GrabMode, PressSource, UpdateHandle};
use crate::geom::Coord;
use crate::toolkit::TkAction;
use vstd::prelude::*;

verus! {

/// A press that a widget has grabbed
///
/// Movement and release of the press are delivered to the widget `id`,
/// wherever the pointer is, until the press ends or the grab is cancelled.
#[derive(Clone, Copy, Debug, PartialEq, Eq, Structural)]
pub struct Grab {
    pub source: PressSource,
    pub id: WidgetId,
    pub mode: GrabMode,
    /// Where the press was last seen
    pub coord: Coord,
}

/// A wake-up that a widget has asked for
///
/// `at` is an instant on the clock of the event loop. `every` is the
/// interval of a repeating timer, and zero for a timer that fires once.
#[derive(Clone, Copy, Debug, PartialEq, Eq, Structural)]
pub struct Timer {
    pub at: u64,
    pub id: WidgetId,
    pub every: u64,
}

/// A widget's subscription to an update handle
#[derive(Clone, Copy, Debug, PartialEq, Eq, Structural)]
pub struct Subscription {
    pub handle: UpdateHandle,
    pub id: WidgetId,
}

/// Two sources cannot be grabbed at the same time if both are mouse
/// buttons, or if they are the same touch.
pub open spec fn conflicting(a: PressSource, b: PressSource) -> bool {
    match (a, b) {
        (PressSource::Mouse(_), PressSource::Mouse(_)) => true,
        (PressSource::Touch(x), PressSource::Touch(y)) => x == y,
        _ => false,
    }
}

/// Position of the grab that stands in the way of `source`, if any: the
/// first in `grabs` whose source conflicts with it.
pub open spec fn grab_index(grabs: Seq<Grab>, source: PressSource) -> Option<int>
    decreases grabs.len(),
{
    if grabs.len() == 0 {
        None
    } else if conflicting(grabs[0].source, source) {
        Some(0int)
    } else {
        match grab_index(grabs.subrange(1, grabs.len() as int), source) {
            Some(i) => Some(i + 1),
            None => None,
        }
    }
}

/// `grab_index` finds a conflicting grab if there is one, and the first.
pub proof fn lemma_grab_index(grabs: Seq<Grab>, source: PressSource)
    ensures
        match grab_index(grabs, source) {
            Some(i) => {
                &&& 0 <= i < grabs.len()
                &&& conflicting(grabs[i].source, source)
                &&& forall|j: int| 0 <= j < i ==> !conflicting(#[trigger] grabs[j].source, source)
            },
            None => forall|j: int|
                0 <= j < grabs.len() ==> !conflicting(#[trigger] grabs[j].source, source),
        },
    decreases grabs.len(),
{
    if grabs.len() > 0 && !conflicting(grabs[0].source, source) {
        let rest = grabs.subrange(1, grabs.len() as int);
        lemma_grab_index(rest, source);
        match grab_index(rest, source) {
            Some(i) => {
                assert forall|j: int| 0 <= j < i + 1 implies !conflicting(
                    #[trigger] grabs[j].source,
                    source,
                ) by {
                    if j > 0 {
                        assert(grabs[j] == rest[j - 1]);
                    }
                }
            },
            None => {
                assert forall|j: int| 0 <= j < grabs.len() implies !conflicting(
                    #[trigger] grabs[j].source,
                    source,
                ) by {
                    if j > 0 {
                        assert(grabs[j] == rest[j - 1]);
                    }
                }
            },
        }
    }
}

/// Timers are kept in the order in which they fire.
pub open spec fn timers_sorted(timers: Seq<Timer>) -> bool {
    forall|i: int, j: int| 0 <= i <= j < timers.len() ==> timers[i].at <= timers[j].at
}

/// Number of timers that fire before `at` or at `at`.
pub open spec fn due_count(timers: Seq<Timer>, at: u64) -> nat
    decreases timers.len(),
{
    if timers.len() == 0 {
        0
    } else {
        due_count(timers.drop_last(), at) + if timers.last().at <= at {
            1nat
        } else {
            0nat
        }
    }
}

/// The widgets that subscribed to `handle`, in the order in which they
/// subscribed.
pub open spec fn subscribed(handles: Seq<Subscription>, handle: UpdateHandle) -> Seq<WidgetId> {
    handles.filter(|s: Subscription| s.handle == handle).map_values(|s: Subscription| s.id)
}

/// Subscribing adds the subscriber at the end, for its handle, and leaves
/// the subscribers to other handles as they are.
pub proof fn lemma_subscribed_push(handles: Seq<Subscription>, s: Subscription, handle: UpdateHandle)
    ensures
        subscribed(handles.push(s), handle) == if s.handle == handle {
            subscribed(handles, handle).push(s.id)
        } else {
            subscribed(handles, handle)
        },
        subscribed(Seq::empty(), handle) == Seq::<WidgetId>::empty(),
{
    reveal(Seq::filter);
    let pick = |s: Subscription| s.handle == handle;
    let ident = |s: Subscription| s.id;
    assert(handles.push(s).drop_last() =~= handles);
    if s.handle == handle {
        assert(handles.push(s).filter(pick) == handles.filter(pick).push(s));
        assert(handles.push(s).filter(pick).map_values(ident) =~= handles.filter(pick).map_values(
            ident,
        ).push(s.id));
    }
    assert(Seq::<Subscription>::empty().filter(pick) =~= Seq::<Subscription>::empty());
    assert(Seq::<Subscription>::empty().filter(pick).map_values(ident) =~= Seq::<WidgetId>::empty());
}

/// State of the event manager of one window
pub struct ManagerState {
    /// Sizes of the theme, for widgets that lay out children of their own
    pub sizes: SizeHandle,
    /// Widget under the pointer
    pub hover: Option<WidgetId>,
    /// Icon of the pointer
    pub hover_icon: CursorIcon,
    /// Widget with keyboard navigation focus
    pub nav_focus: Option<WidgetId>,
    /// Widget that gets keys when no widget has navigation focus
    pub nav_fallback: Option<WidgetId>,
    /// Widget that receives characters typed
    pub char_focus: Option<WidgetId>,
    /// Where the pointer was last seen
    pub pointer: Coord,
    /// Presses that widgets have grabbed
    pub grabs: Vec<Grab>,
    /// Wake-ups that widgets have asked for, soonest first
    pub timers: Vec<Timer>,
    /// Subscriptions of widgets to update handles
    pub handles: Vec<Subscription>,
    /// The greatest action asked for since it was last taken
    pub action: TkAction,
}

/// The event manager as widgets see it
pub type Manager = ManagerState;

impl ManagerState {
    /// No two grabs conflict, and timers are in order.
    pub open spec fn wf(&self) -> bool {
        &&& forall|i: int, j: int|
            0 <= i < j < self.grabs@.len() ==> !conflicting(
                #[trigger] self.grabs@[i].source,
                #[trigger] self.grabs@[j].source,
            )
        &&& timers_sorted(self.timers@)
    }

    /// The grab that holds `source`, if any.
    pub open spec fn grab_of(&self, source: PressSource) -> Option<Grab> {
        match grab_index(self.grabs@, source) {
            Some(i) => Some(self.grabs@[i]),
            None => None,
        }
    }

    /// Whether some grab is held by the widget `id`.
    pub open spec fn depressed(&self, id: WidgetId) -> bool {
        exists|i: int| 0 <= i < self.grabs@.len() && (#[trigger] self.grabs@[i]).id == id
    }

    /// Construct
    pub fn new(sizes: SizeHandle) -> (r: ManagerState)
        ensures
            r.sizes == sizes,
            r.hover.is_none(),
            r.hover_icon == CursorIcon::Default,
            r.nav_focus.is_none(),
            r.nav_fallback.is_none(),
            r.char_focus.is_none(),
            r.pointer == Coord(0, 0),
            r.grabs@.len() == 0,
            r.timers@.len() == 0,
            r.handles@.len() == 0,
            r.action == TkAction::Empty,
            r.wf(),
    {
        ManagerState {
            sizes,
            hover: None,
            hover_icon: CursorIcon::Default,
            nav_focus: None,
            nav_fallback: None,
            char_focus: None,
            pointer: Coord(0, 0),
            grabs: Vec::new(),
            timers: Vec::new(),
            handles: Vec::new(),
            action: TkAction::Empty,
        }
    }

    /// Get whether this widget is under the pointer
    #[inline]
    pub fn is_hovered(&self, w_id: WidgetId) -> (r: bool)
        ensures
            r == (self.hover == Some(w_id)),
    {
        match self.hover {
            Some(id) => id.0 == w_id.0,
            None => false,
        }
    }

    /// Get whether this widget holds a grabbed press
    pub fn is_depressed(&self, w_id: WidgetId) -> (r: bool)
        ensures
            r == self.depressed(w_id),
    {
        let mut i: usize = 0;
        while i < self.grabs.len()
            invariant
                i <= self.grabs@.len(),
                forall|j: int| 0 <= j < i ==> (#[trigger] self.grabs@[j]).id != w_id,
            decreases self.grabs@.len() - i,
        {
            if self.grabs[i].id.0 == w_id.0 {
                return true;
            }
            i += 1;
        }
        false
    }

    /// Get whether this widget has keyboard navigation focus
    #[inline]
    pub fn nav_focus(&self, w_id: WidgetId) -> (r: bool)
        ensures
            r == (self.nav_focus == Some(w_id)),
    {
        match self.nav_focus {
            Some(id) => id.0 == w_id.0,
            None => false,
        }
    }

    /// Get whether this widget receives characters typed
    #[inline]
    pub fn char_focus(&self, w_id: WidgetId) -> (r: bool)
        ensures
            r == (self.char_focus == Some(w_id)),
    {
        match self.char_focus {
            Some(id) => id.0 == w_id.0,
            None => false,
        }
    }

    /// Ask the toolkit for an action
    ///
    /// The manager keeps the greatest action asked for.
    #[inline]
    pub fn send_action(&mut self, action: TkAction)
        ensures
            final(self).action == old(self).action.join(action),
            final(self).same_but_action(old(self)),
    {
        self.action = self.action.max(action);
    }

    /// Everything but the pending action is as in `other`.
    pub open spec fn same_but_action(&self, other: &ManagerState) -> bool {
        &&& self.sizes == other.sizes
        &&& self.hover == other.hover
        &&& self.hover_icon == other.hover_icon
        &&& self.nav_focus == other.nav_focus
        &&& self.nav_fallback == other.nav_fallback
        &&& self.char_focus == other.char_focus
        &&& self.pointer == other.pointer
        &&& self.grabs@ == other.grabs@
        &&& self.timers@ == other.timers@
        &&& self.handles@ == other.handles@
    }

    /// Everything but what widgets register when configured is as in
    /// `other`.
    pub open spec fn same_but_registrations(&self, other: &ManagerState) -> bool {
        &&& self.sizes == other.sizes
        &&& self.hover == other.hover
        &&& self.hover_icon == other.hover_icon
        &&& self.nav_focus == other.nav_focus
        &&& self.char_focus == other.char_focus
        &&& self.pointer == other.pointer
        &&& self.grabs@ == other.grabs@
        &&& self.timers@ == other.timers@
        &&& self.action == other.action
    }

    /// Ask for the widget `id` to be drawn again
    ///
    /// The whole window is drawn again.
    #[inline]
    pub fn redraw(&mut self, id: WidgetId)
        ensures
            final(self).action == old(self).action.join(TkAction::Redraw),
            final(self).same_but_action(old(self)),
    {
        self.send_action(TkAction::Redraw);
    }

    /// Give the navigation focus to the widget `id`, or to none
    pub fn set_nav_focus(&mut self, id: Option<WidgetId>)
        ensures
            final(self).nav_focus == id,
            final(self).action == if id == old(self).nav_focus {
                old(self).action
            } else {
                old(self).action.join(TkAction::Redraw)
            },
            final(self).sizes == old(self).sizes,
            final(self).hover == old(self).hover,
            final(self).hover_icon == old(self).hover_icon,
            final(self).nav_fallback == old(self).nav_fallback,
            final(self).char_focus == old(self).char_focus,
            final(self).pointer == old(self).pointer,
            final(self).grabs@ == old(self).grabs@,
            final(self).timers@ == old(self).timers@,
            final(self).handles@ == old(self).handles@,
    {
        let changed = match (id, self.nav_focus) {
            (Some(a), Some(b)) => a.0 != b.0,
            (None, None) => false,
            _ => true,
        };
        self.nav_focus = id;
        if changed {
            self.send_action(TkAction::Redraw);
        }
    }

    /// Give the character focus to the widget `id`, or to none
    pub fn set_char_focus(&mut self, id: Option<WidgetId>)
        ensures
            final(self).char_focus == id,
            final(self).action == if id == old(self).char_focus {
                old(self).action
            } else {
                old(self).action.join(TkAction::Redraw)
            },
            final(self).sizes == old(self).sizes,
            final(self).hover == old(self).hover,
            final(self).hover_icon == old(self).hover_icon,
            final(self).nav_fallback == old(self).nav_fallback,
            final(self).nav_focus == old(self).nav_focus,
            final(self).pointer == old(self).pointer,
            final(self).grabs@ == old(self).grabs@,
            final(self).timers@ == old(self).timers@,
            final(self).handles@ == old(self).handles@,
    {
        let changed = match (id, self.char_focus) {
            (Some(a), Some(b)) => a.0 != b.0,
            (None, None) => false,
            _ => true,
        };
        self.char_focus = id;
        if changed {
            self.send_action(TkAction::Redraw);
        }
    }

    /// Take the pending action, leaving none
    pub fn take_action(&mut self) -> (action: TkAction)
        ensures
            action == old(self).action,
            final(self).action == TkAction::Empty,
            final(self).same_but_action(old(self)),
    {
        let action = self.action;
        self.action = TkAction::Empty;
        action
    }

    /// Position of the grab that stands in the way of `source`
    pub fn find_grab(&self, source: PressSource) -> (r: Option<usize>)
        ensures
            match r {
                Some(i) => grab_index(self.grabs@, source) == Some(i as int),
                None => grab_index(self.grabs@, source).is_none(),
            },
    {
        let mut i: usize = 0;
        while i < self.grabs.len()
            invariant
                i <= self.grabs@.len(),
                forall|j: int| 0 <= j < i ==> !conflicting(#[trigger] self.grabs@[j].source, source),
            decreases self.grabs@.len() - i,
        {
            let held = self.grabs[i].source;
            let clash = match (held, source) {
                (PressSource::Mouse(_), PressSource::Mouse(_)) => true,
                (PressSource::Touch(x), PressSource::Touch(y)) => x == y,
                _ => false,
            };
            if clash {
                proof {
                    lemma_grab_index(self.grabs@, source);
                }
                return Some(i);
            }
            i += 1;
        }
        proof {
            lemma_grab_index(self.grabs@, source);
        }
        None
    }

    /// Request a grab on the given press
    ///
    /// A grab is refused while another grab conflicts with it: only one
    /// mouse button can be grabbed at a time, and each touch once. Where
    /// the grab is granted, movement and release of the press are delivered
    /// to the widget `id` until the press ends, the pointer takes the icon
    /// given, if one is given, and a redraw is asked for.
    ///
    /// Returns whether the grab was granted.
    pub fn request_grab(
        &mut self,
        id: WidgetId,
        source: PressSource,
        coord: Coord,
        mode: GrabMode,
        cursor: Option<CursorIcon>,
    ) -> (granted: bool)
        requires
            old(self).wf(),
        ensures
            final(self).wf(),
            granted == old(self).grab_of(source).is_none(),
            granted ==> {
                &&& final(self).grabs@ == old(self).grabs@.push(Grab { source, id, mode, coord })
                &&& final(self).grab_of(source) == Some(Grab { source, id, mode, coord })
                &&& final(self).action == old(self).action.join(TkAction::Redraw)
                &&& final(self).hover_icon == match cursor {
                    Some(icon) => icon,
                    None => old(self).hover_icon,
                }
            },
            !granted ==> {
                &&& final(self).grabs@ == old(self).grabs@
                &&& final(self).action == old(self).action
                &&& final(self).hover_icon == old(self).hover_icon
            },
            final(self).sizes == old(self).sizes,
            final(self).hover == old(self).hover,
            final(self).nav_focus == old(self).nav_focus,
            final(self).nav_fallback == old(self).nav_fallback,
            final(self).char_focus == old(self).char_focus,
            final(self).pointer == old(self).pointer,
            final(self).timers@ == old(self).timers@,
            final(self).handles@ == old(self).handles@,
    {
        proof {
            lemma_grab_index(self.grabs@, source);
        }
        if self.find_grab(source).is_some() {
            return false;
        }
        let grab = Grab { source, id, mode, coord };
        self.grabs.push(grab);
        if let Some(icon) = cursor {
            self.hover_icon = icon;
        }
        self.send_action(TkAction::Redraw);
        proof {
            lemma_grab_index(self.grabs@, source);
            let n = old(self).grabs@.len() as int;
            assert(self.grabs@[n] == grab);
            assert(conflicting(self.grabs@[n].source, source));
            assert forall|j: int| 0 <= j < n implies !conflicting(
                #[trigger] self.grabs@[j].source,
                source,
            ) by {
                assert(self.grabs@[j] == old(self).grabs@[j]);
            }
            assert forall|i: int, j: int| 0 <= i < j < self.grabs@.len() implies !conflicting(
                #[trigger] self.grabs@[i].source,
                #[trigger] self.grabs@[j].source,
            ) by {
                assert(self.grabs@[i] == old(self).grabs@[i]);
                if j < n {
                    assert(self.grabs@[j] == old(self).grabs@[j]);
                }
            }
        }
        true
    }

    /// End the grab that holds `source`, if there is one
    ///
    /// Returns the grab that was ended.
    pub fn end_grab(&mut self, source: PressSource) -> (r: Option<Grab>)
        requires
            old(self).wf(),
        ensures
            final(self).wf(),
            r == old(self).grab_of(source),
            match grab_index(old(self).grabs@, source) {
                Some(i) => final(self).grabs@ == old(self).grabs@.remove(i),
                None => final(self).grabs@ == old(self).grabs@,
            },
            final(self).grab_of(source).is_none(),
            final(self).action == old(self).action,
            final(self).same_but_grabs(old(self)),
    {
        proof {
            lemma_grab_index(self.grabs@, source);
        }
        match self.find_grab(source) {
            Some(i) => {
                let grab = self.grabs.remove(i);
                proof {
                    lemma_grab_index(self.grabs@, source);
                    lemma_conflicting_transitive_with(source);
                    assert forall|a: int, b: int|
                        0 <= a < b < self.grabs@.len() implies !conflicting(
                        #[trigger] self.grabs@[a].source,
                        #[trigger] self.grabs@[b].source,
                    ) by {
                        let a0 = if a < i { a } else { a + 1 };
                        let b0 = if b < i { b } else { b + 1 };
                        assert(self.grabs@[a] == old(self).grabs@[a0]);
                        assert(self.grabs@[b] == old(self).grabs@[b0]);
                    }
                    assert forall|j: int| 0 <= j < self.grabs@.len() implies !conflicting(
                        #[trigger] self.grabs@[j].source,
                        source,
                    ) by {
                        let j0 = if j < i { j } else { j + 1 };
                        assert(self.grabs@[j] == old(self).grabs@[j0]);
                        if conflicting(old(self).grabs@[j0].source, source) {
                            assert(conflicting(old(self).grabs@[i as int].source, source));
                            if j0 < i {
                                assert(conflicting(old(self).grabs@[j0].source, old(self).grabs@[i as int].source));
                            } else {
                                assert(conflicting(old(self).grabs@[i as int].source, old(self).grabs@[j0].source));
                            }
                        }
                    }
                }
                Some(grab)
            },
            None => None,
        }
    }

    /// Everything but the grabs and the pending action is as in `other`.
    pub open spec fn same_but_grabs(&self, other: &ManagerState) -> bool {
        &&& self.sizes == other.sizes
        &&& self.hover == other.hover
        &&& self.hover_icon == other.hover_icon
        &&& self.nav_focus == other.nav_focus
        &&& self.nav_fallback == other.nav_fallback
        &&& self.char_focus == other.char_focus
        &&& self.pointer == other.pointer
        &&& self.timers@ == other.timers@
        &&& self.handles@ == other.handles@
    }

    /// End all grabs, as when the window loses focus
    pub fn cancel_grabs(&mut self)
        requires
            old(self).wf(),
        ensures
            final(self).wf(),
            final(self).grabs@.len() == 0,
            final(self).action == if old(self).grabs@.len() == 0 {
                old(self).action
            } else {
                old(self).action.join(TkAction::Redraw)
            },
            final(self).same_but_grabs(old(self)),
    {
        if self.grabs.len() > 0 {
            self.grabs.clear();
            self.send_action(TkAction::Redraw);
        }
    }

    /// Name the widget that gets keys when no widget has navigation focus
    ///
    /// The first widget to register stays registered.
    pub fn register_nav_fallback(&mut self, id: WidgetId)
        ensures
            final(self).nav_fallback == match old(self).nav_fallback {
                Some(first) => Some(first),
                None => Some(id),
            },
            final(self).sizes == old(self).sizes,
            final(self).hover == old(self).hover,
            final(self).hover_icon == old(self).hover_icon,
            final(self).nav_focus == old(self).nav_focus,
            final(self).char_focus == old(self).char_focus,
            final(self).pointer == old(self).pointer,
            final(self).grabs@ == old(self).grabs@,
            final(self).timers@ == old(self).timers@,
            final(self).handles@ == old(self).handles@,
            final(self).action == old(self).action,
    {
        if self.nav_fallback.is_none() {
            self.nav_fallback = Some(id);
        }
    }

    /// Subscribe the widget `id` to the given update handle
    pub fn update_on_handle(&mut self, handle: UpdateHandle, id: WidgetId)
        ensures
            final(self).handles@ == old(self).handles@.push(Subscription { handle, id }),
            final(self).sizes == old(self).sizes,
            final(self).hover == old(self).hover,
            final(self).hover_icon == old(self).hover_icon,
            final(self).nav_focus == old(self).nav_focus,
            final(self).nav_fallback == old(self).nav_fallback,
            final(self).char_focus == old(self).char_focus,
            final(self).pointer == old(self).pointer,
            final(self).grabs@ == old(self).grabs@,
            final(self).timers@ == old(self).timers@,
            final(self).action == old(self).action,
    {
        self.handles.push(Subscription { handle, id });
    }

    /// The widgets subscribed to `handle`, in the order in which they
    /// subscribed
    pub fn subscribers(&self, handle: UpdateHandle) -> (r: Vec<WidgetId>)
        ensures
            r@ == subscribed(self.handles@, handle),
    {
        let mut out: Vec<WidgetId> = Vec::new();
        let mut i: usize = 0;
        proof {
            assert(self.handles@.subrange(0, 0) =~= Seq::<Subscription>::empty());
            lemma_subscribed_push(Seq::empty(), self.handles@[0], handle);
        }
        while i < self.handles.len()
            invariant
                i <= self.handles@.len(),
                out@ == subscribed(self.handles@.subrange(0, i as int), handle),
            decreases self.handles@.len() - i,
        {
            let s = self.handles[i];
            proof {
                let before = self.handles@.subrange(0, i as int);
                assert(self.handles@.subrange(0, i + 1) =~= before.push(s));
                lemma_subscribed_push(before, s, handle);
            }
            if s.handle.0 == handle.0 {
                out.push(s.id);
            }
            i += 1;
        }
        proof {
            assert(self.handles@.subrange(0, i as int) =~= self.handles@);
        }
        out
    }
}

/// If two sources both conflict with a third, they conflict with each other.
pub proof fn lemma_conflicting_transitive_with(c: PressSource)
    ensures
        forall|a: PressSource, b: PressSource|
            conflicting(a, c) && conflicting(b, c) ==> #[trigger] conflicting(a, b),
        forall|a: PressSource, b: PressSource| conflicting(a, b) == #[trigger] conflicting(b, a),
{
}

} // verus!
