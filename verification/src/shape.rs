//! What leaves the shape and the numbering of a widget tree as they are

use crate::data::WidgetId;
use crate::event::events::Event;
use crate::event::response::Response;
use crate::layout::AlignHints;
use crate::geom::{Coord, Rect, Size};
use crate::model::{lemma_child_nodes, lemma_node_origin, Kind, WidgetModel};
use crate::placement::{list_kept, list_len, list_prepared, refreshed};
use crate::toolkit::TkAction;
use crate::widget::view::state::ListState;
use vstd::prelude::*;

verus! {

impl WidgetModel {
    /// Whether `post` has the shape of this tree and the same identifiers
    /// at the same places.
    pub open spec fn ids_kept(self, post: WidgetModel) -> bool
        decreases self,
    {
        &&& post.core.id == self.core.id
        &&& post.children.len() == self.children.len()
        &&& forall|i: int|
            0 <= i < self.children.len() ==> (#[trigger] self.children[i]).ids_kept(post.children[i])
    }
}

/// A tree is of its own shape.
pub proof fn lemma_ids_kept_reflexive(w: WidgetModel)
    ensures
        w.ids_kept(w),
    decreases w,
{
    assert forall|i: int| 0 <= i < w.children.len() implies (#[trigger] w.children[i]).ids_kept(
        w.children[i],
    ) by {
        lemma_ids_kept_reflexive(w.children[i]);
    }
}

/// A tree that has the shape of a tree that has the shape of a third has
/// the shape of the third.
pub proof fn lemma_ids_kept_transitive(a: WidgetModel, b: WidgetModel, c: WidgetModel)
    requires
        a.ids_kept(b),
        b.ids_kept(c),
    ensures
        a.ids_kept(c),
    decreases a,
{
    assert forall|i: int| 0 <= i < a.children.len() implies (#[trigger] a.children[i]).ids_kept(
        c.children[i],
    ) by {
        lemma_ids_kept_transitive(a.children[i], b.children[i], c.children[i]);
    }
}

impl WidgetModel {
    /// Whether `post` is this tree after it was laid out in a window of
    /// the size `size` and then numbered anew, if `numbered` is set.
    pub open spec fn placed_then_numbered(self, post: WidgetModel, size: Size, numbered: bool) -> bool {
        exists|laid: WidgetModel|
            {
                &&& #[trigger] self.placed(
                    laid,
                    Rect { pos: Coord(0, 0), size },
                    AlignHints::no_hints(),
                )
                &&& numbered == (1 + laid.count() <= u64::MAX)
                &&& post == if numbered {
                    laid.renumbered(1)
                } else {
                    laid
                }
            }
    }

    /// Whether `post` is this tree after it was laid out in a window of
    /// the size `size`, and numbered anew where that was called for: where
    /// widgets were made or dropped, or the tree was not configured.
    pub open spec fn placed_then_renumbered(
        self,
        post: WidgetModel,
        size: Size,
        was_configured: bool,
        configured: bool,
    ) -> bool {
        let area = Rect { pos: Coord(0, 0), size };
        if !was_configured || self.placing_action(area, AlignHints::no_hints()).rank()
            >= TkAction::Reconfigure.rank() {
            self.placed_then_numbered(post, size, configured)
        } else {
            configured && self.placed(post, area, AlignHints::no_hints())
        }
    }
}

/// Trees of the same shape have as many widgets below their first `n`
/// children.
pub proof fn lemma_ids_kept_below(pre: WidgetModel, post: WidgetModel, n: nat)
    requires
        pre.ids_kept(post),
        n <= pre.children.len(),
    ensures
        post.nodes_below(n).len() == pre.nodes_below(n).len(),
    decreases pre, n,
{
    if n > 0 {
        lemma_ids_kept_below(pre, post, (n - 1) as nat);
        lemma_ids_kept_count(pre.children[n - 1], post.children[n - 1]);
    }
}

/// Trees of the same shape have as many widgets.
pub proof fn lemma_ids_kept_count(pre: WidgetModel, post: WidgetModel)
    requires
        pre.ids_kept(post),
    ensures
        post.count() == pre.count(),
    decreases pre, pre.children.len() + 1,
{
    lemma_ids_kept_below(pre, post, pre.children.len());
}

/// In trees of the same shape and numbering, the widgets at the same
/// places have the same identifiers.
pub proof fn lemma_ids_kept_nodes(pre: WidgetModel, post: WidgetModel, k: int)
    requires
        pre.ids_kept(post),
        0 <= k < post.nodes().len(),
    ensures
        post.nodes().len() == pre.nodes().len(),
        post.nodes()[k].core.id == pre.nodes()[k].core.id,
    decreases pre,
{
    lemma_ids_kept_count(pre, post);
    if k == 0 {
        assert(post.nodes()[0] == post);
        assert(pre.nodes()[0] == pre);
    } else {
        let (c, j) = lemma_node_origin(post, k);
        lemma_ids_kept_below(pre, post, c);
        lemma_ids_kept_count(pre.children[c as int], post.children[c as int]);
        lemma_child_nodes(pre, c, j);
        lemma_ids_kept_nodes(pre.children[c as int], post.children[c as int], j);
    }
}

/// A tree of the shape and numbering of a configured tree is configured.
pub proof fn lemma_ids_kept_configured(pre: WidgetModel, post: WidgetModel)
    requires
        pre.ids_kept(post),
        pre.configured(),
    ensures
        post.configured(),
        post.count() == pre.count(),
        post.core.id == pre.core.id,
{
    lemma_ids_kept_count(pre, post);
    assert forall|k: int| 0 <= k < post.nodes().len() implies (#[trigger] post.nodes()[k]).core.id.0
        == post.core.id.0 + k by {
        lemma_ids_kept_nodes(pre, post, k);
        assert(pre.nodes()[k].core.id.0 == pre.core.id.0 + k);
    }
}

/// Refreshing the widgets of a list changes neither their number nor
/// their identifiers, if the widgets are labels.
pub proof fn lemma_refreshed_ids(
    state: ListState,
    area: Rect,
    data: Seq<Seq<char>>,
    pre: Seq<WidgetModel>,
    post: Seq<WidgetModel>,
)
    requires
        refreshed(state, area, data, pre, post),
        forall|i: int| 0 <= i < pre.len() ==> (#[trigger] pre[i]).is_label(),
    ensures
        post.len() == pre.len(),
        forall|i: int| 0 <= i < pre.len() ==> (#[trigger] pre[i]).ids_kept(post[i]),
{
    let n = pre.len() as int;
    let first = state.first_data(pre.len(), data.len()) as int;
    let last = state.last_data(pre.len(), data.len()) as int;
    assert forall|i: int| 0 <= i < pre.len() implies (#[trigger] pre[i]).ids_kept(post[i]) by {
        assert(pre[i].is_label());
        lemma_ids_kept_reflexive(pre[i]);
        if exists|d: int| first <= d < last && #[trigger] (d % n) == i {
            let d = choose|d: int| first <= d < last && #[trigger] (d % n) == i;
            assert(post[d % n] == post[i]);
        }
    }
}

/// Sending an event to a widget of a well formed tree changes neither
/// the shape of the tree nor the identifiers of its widgets.
pub proof fn lemma_delivered_ids(pre: WidgetModel, post: WidgetModel, id: WidgetId, event: Event)
    requires
        pre.wf(),
        pre.delivered(post, id, event),
    ensures
        pre.ids_kept(post),
    decreases pre,
{
    lemma_ids_kept_reflexive(pre);
    if !pre.core.disabled {
        match pre.kind {
            Kind::Label { .. } => {},
            Kind::Frame { .. } => {
                if id != pre.core.id && pre.children.len() == 1 {
                    lemma_delivered_ids(pre.children[0], post.children[0], id, event);
                }
            },
            Kind::Stack { .. } | Kind::Row { .. } => {
                match crate::delivery::routed(pre.children, id) {
                    Some(p) => {
                        if id != pre.core.id && 0 <= p < pre.children.len() {
                            lemma_delivered_ids(pre.children[p], post.children[p], id, event);
                            assert forall|i: int| 0 <= i < pre.children.len() implies (
                            #[trigger] pre.children[i]).ids_kept(post.children[i]) by {
                                lemma_ids_kept_reflexive(pre.children[i]);
                            }
                        }
                    },
                    None => {},
                }
            },
            Kind::List { state, data, .. } => {
                if id != pre.core.id {
                    match pre.serving(id) {
                        Some(i) => {
                            if 0 <= i < pre.children.len() {
                                match pre.children[i].reply(
                                    id,
                                    event.moved(state.scroll.offset),
                                ).response {
                                    Response::Unhandled(e) => {
                                        lemma_scrolled_ids(pre, post, e);
                                    },
                                    Response::Focus(rect) => {
                                        lemma_refreshed_ids(
                                            ListState {
                                                scroll: state.scroll.focused(rect, pre.core.rect),
                                                ..state
                                            },
                                            pre.core.rect,
                                            data,
                                            pre.children,
                                            post.children,
                                        );
                                    },
                                    _ => {},
                                }
                            }
                        },
                        None => {},
                    }
                } else if event is HandleUpdate {
                    lemma_refreshed_ids(
                        WidgetModel::unserved(state),
                        pre.core.rect,
                        data,
                        pre.children,
                        post.children,
                    );
                } else {
                    lemma_scrolled_ids(pre, post, event);
                }
            },
        }
    }
}

/// A list that uses an event to scroll keeps its shape and the identifiers
/// of its widgets.
pub proof fn lemma_scrolled_ids(pre: WidgetModel, post: WidgetModel, event: Event)
    requires
        pre.wf(),
        pre.kind is List,
        pre.scrolled(post, event),
    ensures
        pre.ids_kept(post),
{
    lemma_ids_kept_reflexive(pre);
    let state = pre.kind->List_state;
    let data = pre.kind->List_data;
    match state.scroll.requested(event, pre.core.rect.size) {
        Some(offset) => {
            let scrolled = state.scroll.scrolled_to(offset);
            if scrolled.offset != state.scroll.offset {
                lemma_refreshed_ids(
                    ListState { scroll: scrolled, ..state },
                    pre.core.rect,
                    data,
                    pre.children,
                    post.children,
                );
            }
        },
        None => {},
    }
}

/// Numbering a tree anew leaves it in shape, and well formed if it was.
pub proof fn lemma_renumbered_wf(w: WidgetModel, start: int)
    ensures
        w.shaped() ==> w.renumbered(start).shaped(),
        w.wf() ==> w.renumbered(start).wf(),
        w.is_label() ==> w.renumbered(start).is_label(),
        w.renumbered(start).kind == w.kind,
    decreases w,
{
    let r = w.renumbered(start);
    assert forall|i: int| 0 <= i < r.children.len() implies (w.shaped() ==> (
    #[trigger] r.children[i]).shaped()) && (w.wf() ==> r.children[i].wf()) && (
    w.children[i].is_label() ==> r.children[i].is_label()) && r.children[i].kind
        == w.children[i].kind by {
        lemma_renumbered_wf(w.children[i], start + w.child_start(i as nat));
    }
    match w.kind {
        Kind::List { state, data, .. } => {
            if w.shaped() || w.wf() {
                assert forall|i: int| 0 <= i < r.children.len() implies (#[trigger] r.children[i]).is_label() by {
                    assert(w.children[i].is_label());
                }
            }
            if w.wf() {
                let n = w.children.len() as int;
                assert forall|d: int| state.data_start <= d < state.data_end implies (
                #[trigger] r.children[d % n]).kind == (Kind::Label {
                    text: data[d],
                    key_nav: r.children[d % n].kind->Label_key_nav,
                }) by {
                    vstd::arithmetic::div_mod::lemma_mod_bound(d, n);
                    assert(r.children[d % n].kind == w.children[d % n].kind);
                }
            }
        },
        _ => {},
    }
}

/// What one of the first `n` children asks for when laid out, the
/// children taken together ask for.
pub proof fn lemma_placing_action_below(w: WidgetModel, n: nat, i: int, rect: Rect, align: AlignHints)
    requires
        0 <= i < n <= w.children.len(),
    ensures
        w.children[i].placing_action(rect, align).rank() <= w.placing_action_below(
            n,
            rect,
            align,
        ).rank(),
    decreases n,
{
    if i < n - 1 {
        lemma_placing_action_below(w, (n - 1) as nat, i, rect, align);
    }
}

/// What one of the first `n` children of a row asks for when laid out in
/// its region, the children taken together ask for.
pub proof fn lemma_placing_action_along(w: WidgetModel, n: nat, i: int, rect: Rect, align: AlignHints)
    requires
        0 <= i < n <= w.children.len(),
    ensures
        w.children[i].placing_action(w.child_rect(rect, i), align).rank()
            <= w.placing_action_along(n, rect, align).rank(),
    decreases n,
{
    if i < n - 1 {
        lemma_placing_action_along(w, (n - 1) as nat, i, rect, align);
    }
}

/// Laying out a tree changes neither its shape nor the identifiers of
/// its widgets, unless it asks for a reconfiguration.
pub proof fn lemma_placed_ids(pre: WidgetModel, post: WidgetModel, rect: Rect, align: AlignHints)
    requires
        pre.shaped(),
        pre.placed(post, rect, align),
        pre.placing_action(rect, align).rank() < TkAction::Reconfigure.rank(),
    ensures
        pre.ids_kept(post),
    decreases pre,
{
    match pre.kind {
        Kind::Label { .. } => {
            lemma_ids_kept_reflexive(pre);
        },
        Kind::Frame { offset, size } => {
            assert forall|i: int| 0 <= i < pre.children.len() implies (#[trigger] pre.children[i]).ids_kept(
                post.children[i],
            ) by {
                lemma_placed_ids(
                    pre.children[i],
                    post.children[i],
                    crate::placement::frame_content(rect, offset, size),
                    align,
                );
            }
        },
        Kind::Stack { .. } => {
            assert forall|i: int| 0 <= i < pre.children.len() implies (#[trigger] pre.children[i]).ids_kept(
                post.children[i],
            ) by {
                lemma_placing_action_below(pre, pre.children.len(), i, rect, align);
                lemma_placed_ids(pre.children[i], post.children[i], rect, align);
            }
        },
        Kind::Row { vertical, rules } => {
            assert forall|i: int| 0 <= i < pre.children.len() implies (#[trigger] pre.children[i]).ids_kept(
                post.children[i],
            ) by {
                lemma_placing_action_along(pre, pre.children.len(), i, rect, align);
                lemma_placed_ids(
                    pre.children[i],
                    post.children[i],
                    pre.child_rect(rect, i),
                    align,
                );
            }
        },
        Kind::List { state, data, .. } => {
            let n0 = pre.children.len();
            let n = list_len(state, rect.size, n0, data.len());
            let prepared = list_prepared(state, rect.size, align, data.len());
            assert(n == n0);
            assert(list_kept(pre.children, n, data) =~= pre.children);
            lemma_refreshed_ids(prepared, rect, data, pre.children, post.children);
        },
    }
}

/// No widget uses the firing of a timer: sent to any widget of a well
/// formed tree, it leaves the tree as it is and comes back unused.
pub proof fn lemma_timer_update_unused(pre: WidgetModel, post: WidgetModel, id: WidgetId)
    requires
        pre.wf(),
        pre.delivered(post, id, Event::TimerUpdate),
    ensures
        post == pre,
        pre.reply(id, Event::TimerUpdate) == crate::delivery::unused(Event::TimerUpdate),
    decreases pre,
{
    if !pre.core.disabled {
        match pre.kind {
            Kind::Label { .. } => {},
            Kind::Frame { .. } => {
                if id != pre.core.id && pre.children.len() == 1 {
                    lemma_timer_update_unused(pre.children[0], post.children[0], id);
                    assert(post.children =~= pre.children);
                }
            },
            Kind::Stack { .. } | Kind::Row { .. } => {
                match crate::delivery::routed(pre.children, id) {
                    Some(p) => {
                        if id != pre.core.id && 0 <= p < pre.children.len() {
                            lemma_timer_update_unused(pre.children[p], post.children[p], id);
                            assert(post.children =~= pre.children);
                        }
                    },
                    None => {},
                }
            },
            Kind::List { state, .. } => {
                if id != pre.core.id {
                    match pre.serving(id) {
                        Some(i) => {
                            if 0 <= i < pre.children.len() {
                                assert(pre.children[i].is_label());
                            }
                        },
                        None => {},
                    }
                }
            },
        }
    }
}

} // verus!
