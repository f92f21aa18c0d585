//! The model of event delivery: what sending an event to a widget of a
//! tree makes of the tree, and what the tree answers

use crate::data::WidgetId;
use crate::event::events::{CursorIcon, Event, GrabMode, PressSource};
use crate::event::manager::{Grab, ManagerState};
use crate::event::response::{Response, VoidMsg};
use crate::geom::{Coord, Rect};
use crate::model::{Kind, WidgetModel};
use crate::placement::{refresh_action, refreshed, refreshed_state};
use crate::toolkit::TkAction;
use crate::widget::view::state::ListState;
use vstd::prelude::*;

verus! {

/// A widget's request to grab a press
pub struct GrabRequest {
    pub id: WidgetId,
    pub source: PressSource,
    pub coord: Coord,
}

/// What a widget tree answers to an event: the response, the action it
/// asks of the toolkit, and the grab it asks of the event manager
pub struct Reply {
    pub response: Response<VoidMsg>,
    pub action: TkAction,
    pub grab: Option<GrabRequest>,
}

/// The answer of a widget that does not use the event.
pub open spec fn unused(event: Event) -> Reply {
    Reply { response: Response::Unhandled(event), action: TkAction::Empty, grab: None }
}

/// Number of widgets at the start of `ws` whose identifiers are not
/// greater than `id`.
pub open spec fn leading(ws: Seq<WidgetModel>, id: WidgetId) -> nat
    decreases ws.len(),
{
    if ws.len() == 0 || ws[0].core.id.0 > id.0 {
        0
    } else {
        1 + leading(ws.drop_first(), id)
    }
}

/// Index of the child to which an event for `id` goes: the last of the
/// leading children whose identifiers are not greater than `id`.
pub open spec fn routed(ws: Seq<WidgetModel>, id: WidgetId) -> Option<int> {
    if leading(ws, id) == 0 {
        None
    } else {
        Some(leading(ws, id) - 1)
    }
}

/// `leading` counts the children up to the first with a greater identifier.
pub proof fn lemma_leading(ws: Seq<WidgetModel>, id: WidgetId, n: int)
    requires
        0 <= n <= ws.len(),
        forall|j: int| 0 <= j < n ==> (#[trigger] ws[j]).core.id.0 <= id.0,
        n == ws.len() || ws[n].core.id.0 > id.0,
    ensures
        leading(ws, id) == n,
    decreases ws.len(),
{
    if n > 0 {
        let rest = ws.drop_first();
        assert forall|j: int| 0 <= j < n - 1 implies (#[trigger] rest[j]).core.id.0 <= id.0 by {
            assert(rest[j] == ws[j + 1]);
        }
        assert(ws[0].core.id.0 <= id.0);
        if n < ws.len() {
            assert(rest[n - 1] == ws[n]);
        }
        lemma_leading(rest, id, n - 1);
    }
}

impl ManagerState {
    /// Whether `post` is the manager after a widget tree gave `reply`.
    ///
    /// A grab is granted unless another grab stands in its way; once
    /// granted, the press belongs to the widget that asked, the pointer
    /// shows a grabbing hand and a redraw is due. The action of the reply
    /// is added to what is pending.
    pub open spec fn received(&self, post: &ManagerState, reply: Reply) -> bool {
        let granted = reply.grab.is_some() && self.grab_of(reply.grab.unwrap().source).is_none();
        &&& post.grabs@ == if granted {
            self.grabs@.push(
                Grab {
                    source: reply.grab.unwrap().source,
                    id: reply.grab.unwrap().id,
                    mode: GrabMode::Grab,
                    coord: reply.grab.unwrap().coord,
                },
            )
        } else {
            self.grabs@
        }
        &&& post.hover_icon == if granted {
            CursorIcon::Grabbing
        } else {
            self.hover_icon
        }
        &&& post.action == self.action.join(
            if granted {
                TkAction::Redraw
            } else {
                TkAction::Empty
            },
        ).join(reply.action)
        &&& post.sizes == self.sizes
        &&& post.hover == self.hover
        &&& post.nav_focus == self.nav_focus
        &&& post.nav_fallback == self.nav_fallback
        &&& post.char_focus == self.char_focus
        &&& post.pointer == self.pointer
        &&& post.timers@ == self.timers@
        &&& post.handles@ == self.handles@
    }
}

impl WidgetModel {
    /// Index of the first of the first `n` children that has the identifier
    /// `id`, if there is one.
    pub open spec fn serving_index(self, n: nat, id: WidgetId) -> Option<int>
        decreases n,
    {
        if n == 0 || n > self.children.len() {
            None
        } else {
            match self.serving_index((n - 1) as nat, id) {
                Some(i) => Some(i),
                None => if self.children[n - 1].core.id == id {
                    Some(n - 1)
                } else {
                    None
                },
            }
        }
    }

    /// The widget of a list, among those that serve data, to which an
    /// event for `id` goes: the first that has that identifier.
    pub open spec fn serving(self, id: WidgetId) -> Option<int> {
        self.serving_index(self.hit_limit(), id)
    }

    /// What a label answers to an event: asked to take the navigation
    /// focus, a label that takes it asks for its region to be shown; a
    /// label uses no other event.
    pub open spec fn label_reply(self, event: Event) -> Reply {
        if event is NavFocus && self.navigable() {
            Reply { response: Response::Focus(self.core.rect), action: TkAction::Empty, grab: None }
        } else {
            unused(event)
        }
    }

    /// What a list answers when one of its widgets asked for the region
    /// `rect` of the content to be shown: the list scrolls as little as it
    /// takes to bring the region into view, and asks in turn for the
    /// region to be shown, where it is seen after scrolling.
    pub open spec fn focus_reply(self, rect: Rect) -> Reply
        recommends
            self.kind is List,
    {
        let state = self.kind->List_state;
        let scroll = state.scroll.focused(rect, self.core.rect);
        Reply {
            response: Response::Focus(scroll.seen_at(rect)),
            action: state.scroll.move_action(scroll).join(
                refresh_action(
                    ListState { scroll, ..state },
                    self.children.len(),
                    self.kind->List_data.len(),
                ),
            ),
            grab: None,
        }
    }

    /// Whether `post` is the list after one of its widgets asked for the
    /// region `rect` of the content to be shown: scrolled, with its widgets
    /// refreshed.
    pub open spec fn focus_scrolled(self, post: WidgetModel, rect: Rect) -> bool
        recommends
            self.kind is List,
    {
        let state = self.kind->List_state;
        let data = self.kind->List_data;
        let moved = ListState { scroll: state.scroll.focused(rect, self.core.rect), ..state };
        &&& post.core == self.core
        &&& post.kind == Kind::List {
            state: refreshed_state(moved, self.children.len(), data.len()),
            data,
            handle: self.kind->List_handle,
        }
        &&& refreshed(moved, self.core.rect, data, self.children, post.children)
    }

    /// What a list answers to an event for one of its widgets, given the
    /// answer of the widget: what the widget did not use, the list may use
    /// to scroll; a region that the widget asks to be shown is brought into
    /// view; any other answer of the widget is the answer of the list.
    pub open spec fn answered(self, response: Response<VoidMsg>) -> Reply
        recommends
            self.kind is List,
    {
        match response {
            Response::Unhandled(event) => self.scroll_reply(event),
            Response::Focus(rect) => self.focus_reply(rect),
            _ => Reply { response, action: TkAction::Empty, grab: None },
        }
    }

    /// Whether `post` is the list after one of its widgets gave the answer
    /// `response` to an event.
    pub open spec fn took(self, post: WidgetModel, response: Response<VoidMsg>) -> bool
        recommends
            self.kind is List,
    {
        match response {
            Response::Unhandled(event) => self.scrolled(post, event),
            Response::Focus(rect) => self.focus_scrolled(post, rect),
            _ => post == self,
        }
    }

    /// The state of a list with no data item counting as served.
    pub open spec fn unserved(state: ListState) -> ListState {
        ListState { data_end: state.data_start, ..state }
    }

    /// What a list answers to an event that it may use to scroll.
    ///
    /// An event that asks for an offset is used: where the offset changes,
    /// the list asks for its region to be shown and for what its refreshed
    /// widgets need. The start of a primary press is answered by a request
    /// to grab the press, and the end of a press is used. Other events
    /// are not used.
    pub open spec fn scroll_reply(self, event: Event) -> Reply
        recommends
            self.kind is List,
    {
        let state = self.kind->List_state;
        let len = self.kind->List_data.len();
        match state.scroll.requested(event, self.core.rect.size) {
            Some(offset) => {
                let scrolled = state.scroll.scrolled_to(offset);
                if scrolled.offset == state.scroll.offset {
                    Reply { response: Response::Used, action: TkAction::Empty, grab: None }
                } else {
                    Reply {
                        response: Response::Focus(self.core.rect),
                        action: TkAction::RegionMoved.join(
                            refresh_action(
                                ListState { scroll: scrolled, ..state },
                                self.children.len(),
                                len,
                            ),
                        ),
                        grab: None,
                    }
                }
            },
            None => match event {
                Event::PressStart { source, coord } => Reply {
                    response: Response::Used,
                    action: TkAction::Empty,
                    grab: if source.primary() {
                        Some(GrabRequest { id: self.core.id, source, coord })
                    } else {
                        None
                    },
                },
                Event::PressEnd { .. } => Reply {
                    response: Response::Used,
                    action: TkAction::Empty,
                    grab: None,
                },
                _ => unused(event),
            },
        }
    }

    /// Whether `post` is the list after an event that it may use to scroll.
    pub open spec fn scrolled(self, post: WidgetModel, event: Event) -> bool
        recommends
            self.kind is List,
    {
        let state = self.kind->List_state;
        let data = self.kind->List_data;
        match state.scroll.requested(event, self.core.rect.size) {
            Some(offset) => {
                let scrolled = state.scroll.scrolled_to(offset);
                if scrolled.offset == state.scroll.offset {
                    post == self
                } else {
                    let moved = ListState { scroll: scrolled, ..state };
                    &&& post.core == self.core
                    &&& post.kind == Kind::List {
                        state: refreshed_state(moved, self.children.len(), data.len()),
                        data,
                        handle: self.kind->List_handle,
                    }
                    &&& refreshed(moved, self.core.rect, data, self.children, post.children)
                }
            },
            None => post == self,
        }
    }

    /// What the tree answers when `event` is sent to the widget `id`.
    ///
    /// A disabled widget does not use events, nor does it pass them on. A
    /// label that is given the navigation focus asks for its region to be
    /// shown, and uses nothing else. A frame passes to its child what is
    /// not addressed to itself; a stack or a row passes it to the child
    /// whose tree can hold the addressee. A list hands what is addressed to
    /// one of the widgets that serve its data to that widget, at the place
    /// within its content; it brings into view what the widget asks to be
    /// shown, and may use to scroll what the widget does not use, as it may
    /// use what is addressed to itself; told that its data changed, it
    /// refreshes all its widgets and asks for its size to be set anew.
    pub open spec fn reply(self, id: WidgetId, event: Event) -> Reply
        decreases self,
    {
        if self.core.disabled {
            unused(event)
        } else {
            match self.kind {
                Kind::Label { .. } => self.label_reply(event),
                Kind::Frame { .. } => if id != self.core.id && self.children.len() == 1 {
                    self.children[0].reply(id, event)
                } else {
                    unused(event)
                },
                Kind::Stack { .. } | Kind::Row { .. } => match routed(self.children, id) {
                    Some(p) => if id != self.core.id && 0 <= p < self.children.len() {
                        self.children[p].reply(id, event)
                    } else {
                        unused(event)
                    },
                    None => unused(event),
                },
                Kind::List { state, data, .. } => if id != self.core.id {
                    match self.serving(id) {
                        Some(i) => if 0 <= i < self.children.len() {
                            self.answered(
                                self.children[i].reply(
                                    id,
                                    event.moved(state.scroll.offset),
                                ).response,
                            )
                        } else {
                            unused(event)
                        },
                        None => unused(event),
                    }
                } else if event is HandleUpdate {
                    Reply {
                        response: Response::Used,
                        action: refresh_action(
                            Self::unserved(state),
                            self.children.len(),
                            data.len(),
                        ).join(TkAction::SetSize),
                        grab: None,
                    }
                } else {
                    self.scroll_reply(event)
                },
            }
        }
    }

    /// Whether `post` is the tree after `event` was sent to the widget `id`.
    pub open spec fn delivered(self, post: WidgetModel, id: WidgetId, event: Event) -> bool
        decreases self,
    {
        if self.core.disabled {
            post == self
        } else {
            match self.kind {
                Kind::Label { .. } => post == self,
                Kind::Frame { .. } => if id != self.core.id && self.children.len() == 1 {
                    &&& post.core == self.core
                    &&& post.kind == self.kind
                    &&& post.children.len() == 1
                    &&& self.children[0].delivered(post.children[0], id, event)
                } else {
                    post == self
                },
                Kind::Stack { .. } | Kind::Row { .. } => match routed(self.children, id) {
                    Some(p) => if id != self.core.id && 0 <= p < self.children.len() {
                        &&& post.core == self.core
                        &&& post.kind == self.kind
                        &&& post.children.len() == self.children.len()
                        &&& self.children[p].delivered(post.children[p], id, event)
                        &&& forall|j: int|
                            0 <= j < self.children.len() && j != p ==> #[trigger] post.children[j]
                                == self.children[j]
                    } else {
                        post == self
                    },
                    None => post == self,
                },
                Kind::List { state, data, handle } => if id != self.core.id {
                    match self.serving(id) {
                        Some(i) => if 0 <= i < self.children.len() {
                            self.took(
                                post,
                                self.children[i].reply(
                                    id,
                                    event.moved(state.scroll.offset),
                                ).response,
                            )
                        } else {
                            post == self
                        },
                        None => post == self,
                    }
                } else if event is HandleUpdate {
                    &&& post.core == self.core
                    &&& post.kind == Kind::List {
                        state: refreshed_state(
                            Self::unserved(state),
                            self.children.len(),
                            data.len(),
                        ),
                        data,
                        handle,
                    }
                    &&& refreshed(
                        Self::unserved(state),
                        self.core.rect,
                        data,
                        self.children,
                        post.children,
                    )
                } else {
                    self.scrolled(post, event)
                },
            }
        }
    }
}

/// What `serving_index` finds is the first of the first `n` children with
/// the identifier, and it finds one if there is one.
pub proof fn lemma_serving_index(w: WidgetModel, n: nat, id: WidgetId)
    requires
        n <= w.children.len(),
    ensures
        match w.serving_index(n, id) {
            Some(i) => {
                &&& 0 <= i < n
                &&& w.children[i].core.id == id
                &&& forall|j: int| 0 <= j < i ==> (#[trigger] w.children[j]).core.id != id
            },
            None => forall|j: int| 0 <= j < n ==> (#[trigger] w.children[j]).core.id != id,
        },
    decreases n,
{
    if n > 0 {
        lemma_serving_index(w, (n - 1) as nat, id);
    }
}

/// Once one of the first `n` children has the identifier, looking at
/// further children finds the same child.
pub proof fn lemma_serving_index_stable(w: WidgetModel, n: nat, m: nat, id: WidgetId)
    requires
        n <= m <= w.children.len(),
        w.serving_index(n, id).is_some(),
    ensures
        w.serving_index(m, id) == w.serving_index(n, id),
    decreases m,
{
    if n < m {
        lemma_serving_index_stable(w, n, (m - 1) as nat, id);
    }
}

/// What a list that is not disabled does with an event for another
/// widget: the widget that serves the identifier gets it, and the list
/// takes the answer; where no widget serves it, nothing happens.
pub proof fn lemma_list_hands_on(w: WidgetModel, id: WidgetId, event: Event)
    requires
        w.kind is List,
        !w.core.disabled,
        id != w.core.id,
    ensures
        match w.serving(id) {
            Some(i) => {
                let response = w.children[i].reply(
                    id,
                    event.moved(w.kind->List_state.scroll.offset),
                ).response;
                &&& 0 <= i < w.children.len()
                &&& w.children[i].core.id == id
                &&& w.reply(id, event) == w.answered(response)
                &&& forall|post: WidgetModel| w.delivered(post, id, event) == w.took(post, response)
            },
            None => {
                &&& w.reply(id, event) == unused(event)
                &&& forall|post: WidgetModel| w.delivered(post, id, event) == (post == w)
            },
        },
{
    lemma_serving_index(w, w.hit_limit(), id);
}

/// A disabled widget passes no event on: whatever is sent, to itself or to
/// a widget below it, the tree stays as it is and the event comes back
/// unused.
pub proof fn lemma_disabled_ignores_events(w: WidgetModel, post: WidgetModel, id: WidgetId, event: Event)
    requires
        w.core.disabled,
        w.delivered(post, id, event),
    ensures
        post == w,
        w.reply(id, event) == unused(event),
{
}

} // verus!
