//! Routing: from the input of the platform to events addressed to widgets

use crate::data::WidgetId;
use crate::delivery::Reply;
use crate::event::events::{
    ControlKey, CursorIcon, Event, MouseButton, PressSource, UpdateHandle,
};
use crate::event::manager::{
    grab_index, lemma_grab_index, subscribed, Grab, ManagerState, Subscription,
};
use crate::event::navigation::nav_target;
use crate::event::response::{Response, VoidMsg};
use crate::geom::{Coord, Offset};
use crate::model::{lemma_renumbered_count, Registrations, WidgetModel};
use crate::shape::{lemma_delivered_ids, lemma_ids_kept_configured};
use crate::toolkit::{lemma_join_is_least_upper_bound, TkAction};
use crate::traits::{registrations, EventHandler, Layout, WidgetCore};
use crate::widget::any::AnyWidget;
use vstd::prelude::*;

verus! {

/// Input of the platform, as the event loop hands it to the manager
#[derive(Clone, Copy, Debug, PartialEq, Eq, Structural)]
pub enum Input {
    /// The pointer moved to the given place
    CursorMoved(Coord),
    /// The pointer left the window
    CursorLeft,
    /// A mouse button was pressed or released
    MouseInput { button: MouseButton, pressed: bool },
    /// A finger was put down
    TouchStart { touch: u64, coord: Coord },
    /// A finger moved
    TouchMove { touch: u64, coord: Coord },
    /// A finger was lifted
    TouchEnd { touch: u64, coord: Coord },
    /// A touch was cancelled
    TouchCancel { touch: u64 },
    /// The tabulator key was pressed, with or without shift
    Tab { shift: bool },
    /// A control key was pressed
    Control(ControlKey),
    /// The widget with navigation focus was activated by a key
    Activate,
    /// A character was typed
    Character(char),
    /// The wheel was turned, by this many pixels
    Scroll(Offset),
    /// The window lost the focus
    FocusLost,
}

/// An event with its addressee
#[derive(Clone, Copy, Debug, PartialEq, Eq, Structural)]
pub struct Dispatch {
    pub id: WidgetId,
    pub event: Event,
}

/// What routing makes of the state of the manager, and the event to send
pub struct Routing {
    pub dispatch: Option<Dispatch>,
    pub hover: Option<WidgetId>,
    pub nav_focus: Option<WidgetId>,
    pub pointer: Coord,
    pub grabs: Seq<Grab>,
    pub action: TkAction,
}

/// Any mouse button: a grab of the mouse stands in the way of all.
pub open spec fn any_mouse() -> PressSource {
    PressSource::Mouse(MouseButton::Left)
}

/// `action` with a redraw added if `changed` is set.
pub open spec fn redraw_if(action: TkAction, changed: bool) -> TkAction {
    if changed {
        action.join(TkAction::Redraw)
    } else {
        action
    }
}

impl ManagerState {
    /// The routing that changes nothing and sends `dispatch`.
    pub open spec fn passing(&self, dispatch: Option<Dispatch>) -> Routing {
        Routing {
            dispatch,
            hover: self.hover,
            nav_focus: self.nav_focus,
            pointer: self.pointer,
            grabs: self.grabs@,
            action: self.action,
        }
    }

    /// The routing of the movement of a press from `source` to `coord`:
    /// where the press is grabbed, the movement goes to the widget that
    /// grabbed it, whatever lies at `coord`.
    pub open spec fn moving(&self, source: PressSource, coord: Coord) -> Routing {
        match grab_index(self.grabs@, source) {
            Some(i) => {
                let g = self.grabs@[i];
                Routing {
                    dispatch: Some(
                        Dispatch {
                            id: g.id,
                            event: Event::PressMove {
                                source: g.source,
                                coord,
                                delta: coord.relative_to(g.coord),
                            },
                        },
                    ),
                    grabs: self.grabs@.update(i, Grab { coord, ..g }),
                    ..self.passing(None)
                }
            },
            None => self.passing(None),
        }
    }

    /// The routing of the end of the press from `source` at `coord`: where
    /// the press is grabbed, the end goes to the widget that grabbed it,
    /// and the grab ends.
    pub open spec fn ending(&self, source: PressSource, coord: Coord) -> Routing {
        match grab_index(self.grabs@, source) {
            Some(i) => {
                let g = self.grabs@[i];
                if g.source == source {
                    Routing {
                        dispatch: Some(
                            Dispatch { id: g.id, event: Event::PressEnd { source, coord } },
                        ),
                        grabs: self.grabs@.remove(i),
                        action: self.action.join(TkAction::Redraw),
                        ..self.passing(None)
                    }
                } else {
                    self.passing(None)
                }
            },
            None => self.passing(None),
        }
    }

    /// What routing `input` makes of the state of the manager, and the
    /// event that it sends, for the widget tree `root`; `next` is where
    /// keyboard navigation leads.
    ///
    /// Movement of the pointer sets the widget under the pointer, unless a
    /// mouse button is grabbed: then the movement goes to the widget that
    /// holds the grab. A press goes to the widget under the pointer or
    /// under the finger. The end of a grabbed press goes to the widget
    /// that holds the grab. The tabulator moves the navigation focus; the
    /// widget that gains it is told, so that it can ask to be shown.
    /// Control keys go to the widget with navigation focus, or to the one
    /// that asked for keys nobody takes; characters go to the widget with
    /// character focus, the wheel to the widget under the pointer. Loss of
    /// focus ends all grabs.
    pub open spec fn routing(&self, root: WidgetModel, input: Input, next: Option<WidgetId>) -> Routing {
        match input {
            Input::CursorMoved(coord) => if grab_index(self.grabs@, any_mouse()).is_some() {
                Routing { pointer: coord, ..self.moving(any_mouse(), coord) }
            } else {
                Routing {
                    hover: root.hit(coord),
                    pointer: coord,
                    action: redraw_if(self.action, root.hit(coord) != self.hover),
                    ..self.passing(None)
                }
            },
            Input::CursorLeft => if grab_index(self.grabs@, any_mouse()).is_some() {
                self.passing(None)
            } else {
                Routing {
                    hover: None,
                    action: redraw_if(self.action, self.hover.is_some()),
                    ..self.passing(None)
                }
            },
            Input::MouseInput { button, pressed } => if pressed {
                match self.hover {
                    Some(id) => self.passing(
                        Some(
                            Dispatch {
                                id,
                                event: Event::PressStart {
                                    source: PressSource::Mouse(button),
                                    coord: self.pointer,
                                },
                            },
                        ),
                    ),
                    None => self.passing(None),
                }
            } else {
                self.ending(PressSource::Mouse(button), self.pointer)
            },
            Input::TouchStart { touch, coord } => match root.hit(coord) {
                Some(id) => self.passing(
                    Some(
                        Dispatch {
                            id,
                            event: Event::PressStart { source: PressSource::Touch(touch), coord },
                        },
                    ),
                ),
                None => self.passing(None),
            },
            Input::TouchMove { touch, coord } => self.moving(PressSource::Touch(touch), coord),
            Input::TouchEnd { touch, coord } => self.ending(PressSource::Touch(touch), coord),
            Input::TouchCancel { touch } => Routing {
                dispatch: None,
                ..self.ending(PressSource::Touch(touch), self.pointer)
            },
            Input::Tab { .. } => Routing {
                nav_focus: next,
                action: redraw_if(self.action, next != self.nav_focus),
                ..self.passing(
                    match next {
                        Some(id) => if next != self.nav_focus {
                            Some(Dispatch { id, event: Event::NavFocus })
                        } else {
                            None
                        },
                        None => None,
                    },
                )
            },
            Input::Control(key) => match self.nav_focus {
                Some(id) => self.passing(Some(Dispatch { id, event: Event::Control(key) })),
                None => match self.nav_fallback {
                    Some(id) => self.passing(Some(Dispatch { id, event: Event::Control(key) })),
                    None => self.passing(None),
                },
            },
            Input::Activate => match self.nav_focus {
                Some(id) => self.passing(Some(Dispatch { id, event: Event::Activate })),
                None => self.passing(None),
            },
            Input::Character(c) => match self.char_focus {
                Some(id) => self.passing(Some(Dispatch { id, event: Event::ReceivedCharacter(c) })),
                None => self.passing(None),
            },
            Input::Scroll(delta) => match self.hover {
                Some(id) => self.passing(Some(Dispatch { id, event: Event::Scroll(delta) })),
                None => self.passing(None),
            },
            Input::FocusLost => Routing {
                grabs: Seq::empty(),
                action: redraw_if(self.action, self.grabs@.len() > 0),
                ..self.passing(None)
            },
        }
    }

    /// Whether `post` is the manager after routing gave `routing`.
    pub open spec fn routed_to(&self, post: &ManagerState, routing: Routing) -> bool {
        &&& post.hover == routing.hover
        &&& post.nav_focus == routing.nav_focus
        &&& post.pointer == routing.pointer
        &&& post.grabs@ == routing.grabs
        &&& post.action == routing.action
        &&& post.sizes == self.sizes
        &&& post.hover_icon == self.hover_icon
        &&& post.nav_fallback == self.nav_fallback
        &&& post.char_focus == self.char_focus
        &&& post.timers@ == self.timers@
        &&& post.handles@ == self.handles@
    }

    /// Route the movement of a press
    fn route_move(&mut self, source: PressSource, coord: Coord) -> (r: Option<Dispatch>)
        requires
            old(self).wf(),
        ensures
            final(self).wf(),
            r == old(self).moving(source, coord).dispatch,
            old(self).routed_to(final(self), old(self).moving(source, coord)),
    {
        proof {
            lemma_grab_index(self.grabs@, source);
        }
        match self.find_grab(source) {
            Some(i) => {
                let g = self.grabs[i];
                let delta = coord.offset_from(g.coord);
                self.grabs[i].coord = coord;
                proof {
                    assert forall|a: int, b: int| 0 <= a < b < self.grabs@.len() implies !crate::event::manager::conflicting(
                        #[trigger] self.grabs@[a].source,
                        #[trigger] self.grabs@[b].source,
                    ) by {
                        assert(self.grabs@[a].source == old(self).grabs@[a].source);
                        assert(self.grabs@[b].source == old(self).grabs@[b].source);
                    }
                }
                Some(
                    Dispatch { id: g.id, event: Event::PressMove { source: g.source, coord, delta } },
                )
            },
            None => None,
        }
    }

    /// Route the end of a press
    fn route_end(&mut self, source: PressSource, coord: Coord) -> (r: Option<Dispatch>)
        requires
            old(self).wf(),
        ensures
            final(self).wf(),
            r == old(self).ending(source, coord).dispatch,
            old(self).routed_to(final(self), old(self).ending(source, coord)),
    {
        proof {
            lemma_grab_index(self.grabs@, source);
        }
        match self.find_grab(source) {
            Some(i) => {
                let g = self.grabs[i];
                let same = match (g.source, source) {
                    (PressSource::Mouse(a), PressSource::Mouse(b)) => same_button(a, b),
                    (PressSource::Touch(a), PressSource::Touch(b)) => a == b,
                    _ => false,
                };
                if same {
                    self.end_grab(source);
                    self.send_action(TkAction::Redraw);
                    Some(Dispatch { id: g.id, event: Event::PressEnd { source, coord } })
                } else {
                    None
                }
            },
            None => None,
        }
    }

    /// Route input of the platform
    ///
    /// Takes note of what the input changes in the state of the manager,
    /// and returns the event to send, with the widget to send it to, if
    /// the input calls for one.
    pub fn route(&mut self, root: &AnyWidget, input: Input) -> (r: Option<Dispatch>)
        requires
            old(self).wf(),
            root@.configured(),
            root@.core.id.0 + root@.count() <= u64::MAX,
        ensures
            final(self).wf(),
            exists|next: Option<WidgetId>|
                {
                    &&& (input is Tab ==> nav_target(
                        root@,
                        old(self).nav_focus,
                        input->shift,
                        next,
                    ))
                    &&& r == (#[trigger] old(self).routing(root@, input, next)).dispatch
                    &&& old(self).routed_to(final(self), old(self).routing(root@, input, next))
                },
    {
        proof {
            lemma_grab_index(self.grabs@, any_mouse());
        }
        let ghost pre = *self;
        match input {
            Input::CursorMoved(coord) => {
                if self.find_grab(PressSource::Mouse(MouseButton::Left)).is_some() {
                    let r = self.route_move(PressSource::Mouse(MouseButton::Left), coord);
                    self.pointer = coord;
                    assert(r == pre.routing(root@, input, None).dispatch);
                    r
                } else {
                    let hit = root.find_id(coord);
                    let changed = match (hit, self.hover) {
                        (Some(a), Some(b)) => a.0 != b.0,
                        (None, None) => false,
                        _ => true,
                    };
                    self.hover = hit;
                    self.pointer = coord;
                    if changed {
                        self.send_action(TkAction::Redraw);
                    }
                    assert(pre.routed_to(self, pre.routing(root@, input, None)));
                    None
                }
            },
            Input::CursorLeft => {
                if self.find_grab(PressSource::Mouse(MouseButton::Left)).is_none() {
                    if self.hover.is_some() {
                        self.hover = None;
                        self.send_action(TkAction::Redraw);
                    }
                }
                assert(pre.routed_to(self, pre.routing(root@, input, None)));
                None
            },
            Input::MouseInput { button, pressed } => {
                if pressed {
                    let r = match self.hover {
                        Some(id) => Some(
                            Dispatch {
                                id,
                                event: Event::PressStart {
                                    source: PressSource::Mouse(button),
                                    coord: self.pointer,
                                },
                            },
                        ),
                        None => None,
                    };
                    assert(r == pre.routing(root@, input, None).dispatch);
                    r
                } else {
                    let coord = self.pointer;
                    let r = self.route_end(PressSource::Mouse(button), coord);
                    assert(r == pre.routing(root@, input, None).dispatch);
                    r
                }
            },
            Input::TouchStart { touch, coord } => {
                let r = match root.find_id(coord) {
                    Some(id) => Some(
                        Dispatch {
                            id,
                            event: Event::PressStart { source: PressSource::Touch(touch), coord },
                        },
                    ),
                    None => None,
                };
                assert(r == pre.routing(root@, input, None).dispatch);
                r
            },
            Input::TouchMove { touch, coord } => {
                let r = self.route_move(PressSource::Touch(touch), coord);
                assert(r == pre.routing(root@, input, None).dispatch);
                r
            },
            Input::TouchEnd { touch, coord } => {
                let r = self.route_end(PressSource::Touch(touch), coord);
                assert(r == pre.routing(root@, input, None).dispatch);
                r
            },
            Input::TouchCancel { touch } => {
                let coord = self.pointer;
                self.route_end(PressSource::Touch(touch), coord);
                assert(pre.routed_to(self, pre.routing(root@, input, None)));
                None
            },
            Input::Tab { shift } => {
                let next = root.next_nav_focus(self.nav_focus, shift);
                let changed = match (next, self.nav_focus) {
                    (Some(a), Some(b)) => a.0 != b.0,
                    (None, None) => false,
                    _ => true,
                };
                self.nav_focus = next;
                if changed {
                    self.send_action(TkAction::Redraw);
                }
                let r = match next {
                    Some(id) => if changed {
                        Some(Dispatch { id, event: Event::NavFocus })
                    } else {
                        None
                    },
                    None => None,
                };
                assert(r == pre.routing(root@, input, next).dispatch);
                assert(pre.routed_to(self, pre.routing(root@, input, next)));
                r
            },
            Input::Control(key) => {
                let target = match self.nav_focus {
                    Some(id) => Some(id),
                    None => self.nav_fallback,
                };
                let r = match target {
                    Some(id) => Some(Dispatch { id, event: Event::Control(key) }),
                    None => None,
                };
                assert(r == pre.routing(root@, input, None).dispatch);
                r
            },
            Input::Activate => {
                let r = match self.nav_focus {
                    Some(id) => Some(Dispatch { id, event: Event::Activate }),
                    None => None,
                };
                assert(r == pre.routing(root@, input, None).dispatch);
                r
            },
            Input::Character(c) => {
                let r = match self.char_focus {
                    Some(id) => Some(Dispatch { id, event: Event::ReceivedCharacter(c) }),
                    None => None,
                };
                assert(r == pre.routing(root@, input, None).dispatch);
                r
            },
            Input::Scroll(delta) => {
                let r = match self.hover {
                    Some(id) => Some(Dispatch { id, event: Event::Scroll(delta) }),
                    None => None,
                };
                assert(r == pre.routing(root@, input, None).dispatch);
                r
            },
            Input::FocusLost => {
                self.cancel_grabs();
                assert(self.grabs@ =~= Seq::empty());
                assert(pre.routed_to(self, pre.routing(root@, input, None)));
                None
            },
        }
    }
}

impl ManagerState {
    /// Whether input led from this state of the manager, with the widget
    /// tree `pre`, to the state `post` and the tree `after`, by way of the
    /// state `mid` that routing left, with `r` as the response of the tree.
    ///
    /// Where routing calls for an event, the event is sent to the tree,
    /// and the manager takes what the tree asks for. Where it calls for
    /// none, the tree stays as it is.
    pub open spec fn handled(
        &self,
        mid: &ManagerState,
        post: &ManagerState,
        pre: WidgetModel,
        after: WidgetModel,
        input: Input,
        next: Option<WidgetId>,
        r: Option<Response<VoidMsg>>,
    ) -> bool {
        &&& (input is Tab ==> nav_target(pre, self.nav_focus, input->shift, next))
        &&& self.routed_to(mid, self.routing(pre, input, next))
        &&& match self.routing(pre, input, next).dispatch {
            Some(d) => {
                &&& pre.delivered(after, d.id, d.event)
                &&& mid.received(post, pre.reply(d.id, d.event))
                &&& r == Some(pre.reply(d.id, d.event).response)
            },
            None => after == pre && post == mid && r.is_none(),
        }
    }

    /// Configure a widget tree
    ///
    /// The widgets are numbered anew, from one, and register with the
    /// manager. Since identifiers may name other widgets than before, the
    /// manager forgets the widget under the pointer, the focus and all
    /// grabs, and what widgets had registered before.
    pub fn configure(&mut self, root: &mut AnyWidget)
        requires
            old(self).wf(),
            1 + old(root)@.count() <= u64::MAX,
        ensures
            final(self).wf(),
            final(root)@ == old(root)@.renumbered(1),
            final(root)@.configured(),
            final(root)@.core.id == WidgetId(1),
            final(root)@.count() == old(root)@.count(),
            registrations(final(self)) == final(root)@.registered_all(
                Registrations { nav_fallback: None, handles: Seq::empty() },
            ),
            final(self).hover.is_none(),
            final(self).nav_focus.is_none(),
            final(self).char_focus.is_none(),
            final(self).grabs@.len() == 0,
            final(self).sizes == old(self).sizes,
            final(self).hover_icon == old(self).hover_icon,
            final(self).pointer == old(self).pointer,
            final(self).timers@ == old(self).timers@,
            final(self).action == old(self).action,
    {
        self.hover = None;
        self.nav_focus = None;
        self.char_focus = None;
        self.nav_fallback = None;
        self.grabs.clear();
        self.handles.clear();
        proof {
            lemma_renumbered_count(root@, 1);
            assert(self.handles@ =~= Seq::empty());
        }
        root.assign_ids(1);
        root.configure_all(self);
    }

    /// Handle input of the platform
    ///
    /// The input is routed; where that calls for an event, the event is
    /// sent to the widget tree. Returns the response of the tree to the
    /// event, if one was sent.
    pub fn handle(&mut self, root: &mut AnyWidget, input: Input) -> (r: Option<Response<VoidMsg>>)
        requires
            old(self).wf(),
            old(root)@.wf(),
            old(root)@.configured(),
            old(root)@.core.id.0 + old(root)@.count() <= u64::MAX,
        ensures
            final(self).wf(),
            final(root)@.wf(),
            final(root)@.configured(),
            final(root)@.core.id == old(root)@.core.id,
            final(root)@.count() == old(root)@.count(),
            exists|next: Option<WidgetId>, mid: ManagerState| #[trigger]
                old(self).handled(&mid, final(self), old(root)@, final(root)@, input, next, r),
    {
        let ghost pre = *self;
        let dispatch = self.route(root, input);
        let ghost mid = *self;
        let ghost next = choose|next: Option<WidgetId>|
            {
                &&& (input is Tab ==> nav_target(root@, pre.nav_focus, input->shift, next))
                &&& dispatch == (#[trigger] pre.routing(root@, input, next)).dispatch
                &&& pre.routed_to(&mid, pre.routing(root@, input, next))
            };
        match dispatch {
            Some(d) => {
                let r = root.event(self, d.id, d.event);
                proof {
                    lemma_delivered_ids(old(root)@, root@, d.id, d.event);
                    lemma_ids_kept_configured(old(root)@, root@);
                    assert(pre.handled(&mid, self, old(root)@, root@, input, next, Some(r)));
                }
                Some(r)
            },
            None => {
                proof {
                    assert(pre.handled(&mid, self, old(root)@, root@, input, next, None));
                }
                None
            },
        }
    }
}

/// Whether `trees` and `mgrs` are the widget trees and the states of the
/// manager in the course of sending `event` to the widgets `ids`, one
/// after the other: each tree and state with the next are what sending
/// the event to one widget makes of them.
pub open spec fn told_by(
    trees: Seq<WidgetModel>,
    mgrs: Seq<ManagerState>,
    ids: Seq<WidgetId>,
    event: Event,
) -> bool {
    &&& trees.len() == ids.len() + 1
    &&& mgrs.len() == ids.len() + 1
    &&& forall|k: int|
        0 <= k < ids.len() ==> (#[trigger] trees[k]).delivered(trees[k + 1], ids[k], event)
            && mgrs[k].received(&mgrs[k + 1], trees[k].reply(ids[k], event))
}

/// Whether sending `event` to the widgets `ids`, one after the other, led
/// from the widget tree `pre` and the manager `before` to the tree `post`
/// and the manager `after`.
pub open spec fn told(
    pre: WidgetModel,
    post: WidgetModel,
    before: &ManagerState,
    after: &ManagerState,
    ids: Seq<WidgetId>,
    event: Event,
) -> bool {
    exists|trees: Seq<WidgetModel>, mgrs: Seq<ManagerState>|
        {
            &&& #[trigger] told_by(trees, mgrs, ids, event)
            &&& trees[0] == pre
            &&& trees.last() == post
            &&& mgrs[0] == *before
            &&& mgrs.last() == *after
        }
}

impl ManagerState {
    /// Tell the widgets that subscribed to `handle` that the data behind it
    /// changed
    ///
    /// Each of them is sent the event, in the order in which they
    /// subscribed.
    pub fn trigger_update(&mut self, root: &mut AnyWidget, handle: UpdateHandle, payload: u64)
        requires
            old(self).wf(),
            old(root)@.wf(),
        ensures
            final(self).wf(),
            final(root)@.wf(),
            old(root)@.ids_kept(final(root)@),
            told(
                old(root)@,
                final(root)@,
                old(self),
                final(self),
                subscribed(old(self).handles@, handle),
                Event::HandleUpdate { handle, payload },
            ),
    {
        let ids = self.subscribers(handle);
        let event = Event::HandleUpdate { handle, payload };
        let mut i: usize = 0;
        let ghost mut trees: Seq<WidgetModel> = seq![root@];
        let ghost mut mgrs: Seq<ManagerState> = seq![*self];
        proof {
            crate::shape::lemma_ids_kept_reflexive(root@);
        }
        while i < ids.len()
            invariant
                i <= ids@.len(),
                self.wf(),
                root@.wf(),
                event == (Event::HandleUpdate { handle, payload }),
                old(root)@.ids_kept(root@),
                told_by(trees, mgrs, ids@.subrange(0, i as int), event),
                trees[0] == old(root)@,
                trees.last() == root@,
                mgrs[0] == *old(self),
                mgrs.last() == *self,
            decreases ids@.len() - i,
        {
            let ghost mid = root@;
            let ghost seen = ids@.subrange(0, i as int);
            let ghost trees_before = trees;
            let ghost mgrs_before = mgrs;
            root.event(self, ids[i], event);
            proof {
                let upto = ids@.subrange(0, i + 1);
                lemma_delivered_ids(mid, root@, ids@[i as int], event);
                crate::shape::lemma_ids_kept_transitive(old(root)@, mid, root@);
                trees = trees.push(root@);
                mgrs = mgrs.push(*self);
                assert forall|k: int| 0 <= k < upto.len() implies (#[trigger] trees[k]).delivered(
                    trees[k + 1],
                    upto[k],
                    event,
                ) && mgrs[k].received(&mgrs[k + 1], trees[k].reply(upto[k], event)) by {
                    if k < i {
                        assert(trees[k] == trees_before[k]);
                        assert(trees[k + 1] == trees_before[k + 1]);
                        assert(mgrs[k] == mgrs_before[k]);
                        assert(mgrs[k + 1] == mgrs_before[k + 1]);
                        assert(upto[k] == seen[k]);
                        assert(trees_before[k].delivered(trees_before[k + 1], seen[k], event));
                    }
                }
            }
            i += 1;
        }
        proof {
            assert(ids@.subrange(0, i as int) =~= ids@);
        }
    }
}

/// Whether two mouse buttons are the same
pub fn same_button(a: MouseButton, b: MouseButton) -> (r: bool)
    ensures
        r == (a == b),
{
    match (a, b) {
        (MouseButton::Left, MouseButton::Left) => true,
        (MouseButton::Right, MouseButton::Right) => true,
        (MouseButton::Middle, MouseButton::Middle) => true,
        (MouseButton::Other(x), MouseButton::Other(y)) => x == y,
        _ => false,
    }
}

/// Whether `dispatch` is the event `kind` of the grab `g` sent to its
/// holder.
pub open spec fn goes_to_holder(dispatch: Option<Dispatch>, g: Grab, moving: bool) -> bool {
    match dispatch {
        Some(d) => d.id == g.id && if moving {
            d.event is PressMove
        } else {
            d.event is PressEnd
        },
        None => false,
    }
}

/// While a press is grabbed, its movement and its end go to the widget
/// that holds the grab, wherever the pointer is and whatever lies there:
/// the routing does not depend on the widget tree, and the widget under
/// the pointer stays the one it was.
pub proof fn lemma_grab_holds(
    mgr: &ManagerState,
    root: WidgetModel,
    other: WidgetModel,
    coord: Coord,
    button: MouseButton,
    next: Option<WidgetId>,
)
    requires
        mgr.wf(),
        mgr.grab_of(any_mouse()).is_some(),
        mgr.grab_of(any_mouse()).unwrap().source == PressSource::Mouse(button),
    ensures
        goes_to_holder(
            mgr.routing(root, Input::CursorMoved(coord), next).dispatch,
            mgr.grab_of(any_mouse()).unwrap(),
            true,
        ),
        mgr.routing(root, Input::CursorMoved(coord), next).dispatch == mgr.routing(
            other,
            Input::CursorMoved(coord),
            next,
        ).dispatch,
        mgr.routing(root, Input::CursorMoved(coord), next).hover == mgr.hover,
        goes_to_holder(
            mgr.routing(root, Input::MouseInput { button, pressed: false }, next).dispatch,
            mgr.grab_of(any_mouse()).unwrap(),
            false,
        ),
        mgr.routing(root, Input::MouseInput { button, pressed: false }, next).grabs.len()
            == mgr.grabs@.len() - 1,
{
    lemma_grab_index(mgr.grabs@, any_mouse());
    lemma_grab_index(mgr.grabs@, PressSource::Mouse(button));
}

} // verus!
