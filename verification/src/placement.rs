//! The model of laying out: what `set_rect` makes of a widget tree

use crate::data::CoreData;
use crate::draw::SizeHandle;
use crate::geom::{clamp_i32, clamp_u32, Coord, Offset, Rect, Size};
use crate::layout::row::row_rect;
use crate::layout::{AlignHints, AxisInfo};
use crate::model::{label_model, measured_all, Kind, WidgetModel};
use crate::toolkit::TkAction;
use crate::widget::scroll::{clamp_offset, scroll_range, ScrollComponent};
use crate::widget::view::state::{least, resized_len, ListState};
use vstd::prelude::*;

verus! {

/// The widget `c` with the region `rect`, showing `text` if it is a label.
pub open spec fn shown_at(c: WidgetModel, text: Seq<char>, rect: Rect) -> WidgetModel {
    WidgetModel { core: CoreData { rect, ..c.core }, ..c.relabelled(text) }
}

/// The scroll component after the sizes of viewport and content were set.
pub open spec fn sized(scroll: ScrollComponent, viewport: Size, content: Size) -> ScrollComponent {
    let max_offset = scroll_range(viewport, content);
    ScrollComponent { max_offset, offset: clamp_offset(scroll.offset, max_offset), ..scroll }
}

/// The region of the content of a frame that has the region `rect`: moved
/// by `offset` and smaller by `size`.
pub open spec fn frame_content(rect: Rect, offset: Offset, size: Size) -> Rect {
    Rect {
        pos: rect.pos.moved(offset),
        size: Size(clamp_u32(rect.size.0 - size.0), clamp_u32(rect.size.1 - size.1)),
    }
}

/// The range of data items that a list serves after it was refreshed.
pub open spec fn refreshed_state(state: ListState, widgets: nat, len: nat) -> ListState {
    ListState {
        data_start: state.first_data(widgets, len) as usize,
        data_end: state.last_data(widgets, len) as usize,
        ..state
    }
}

/// Whether `post` is what refreshing makes of the widgets `pre` of a list
/// with the given state, region and data.
///
/// Each data item in the range to serve has the widget whose index is the
/// number of the item modulo the number of widgets. That widget is given
/// the item and its region, unless it served the item before. Widgets
/// without an item to serve are left as they are.
pub open spec fn refreshed(
    state: ListState,
    area: Rect,
    data: Seq<Seq<char>>,
    pre: Seq<WidgetModel>,
    post: Seq<WidgetModel>,
) -> bool {
    let n = pre.len();
    let first = state.first_data(n, data.len());
    let last = state.last_data(n, data.len());
    &&& post.len() == n
    &&& forall|d: int|
        first <= d < last ==> (#[trigger] post[d % (n as int)]) == if state.rebinds(d as nat) {
            shown_at(pre[d % (n as int)], data[d], state.item_rect(area, n, d as nat))
        } else {
            pre[d % (n as int)]
        }
    &&& forall|i: int|
        0 <= i < n && !(exists|d: int| first <= d < last && #[trigger] (d % (n as int)) == i)
            ==> #[trigger] post[i] == pre[i]
}

/// The action that refreshing asks for: a redraw if some widget is given
/// an item.
pub open spec fn refresh_action(state: ListState, widgets: nat, len: nat) -> TkAction {
    if exists|d: int|
        state.first_data(widgets, len) <= d < state.last_data(widgets, len) && #[trigger] state.rebinds(d as nat) {
        TkAction::Redraw
    } else {
        TkAction::Empty
    }
}

/// The number of widgets that a list has after it was given the region
/// `rect`.
pub open spec fn list_len(state: ListState, size: Size, old: nat, len: nat) -> nat {
    resized_len(old, least(state.laid_out(size, AlignHints::no_hints()).slots(size), len as int) as nat)
}

/// The state of a list before it is refreshed within `set_rect`: laid
/// out, with the sizes of viewport and content set. No data item counts as
/// served, so that every widget that serves an item is given its region.
pub open spec fn list_prepared(state: ListState, size: Size, align: AlignHints, len: nat) -> ListState {
    let geo = state.laid_out(size, align);
    ListState {
        scroll: sized(geo.scroll, size, geo.content_size(size, len)),
        data_start: 0,
        data_end: 0,
        ..geo
    }
}

/// The widgets of a list before they are refreshed within `set_rect`: as
/// many of the old ones as are kept, and a new label for each data item
/// for which a widget is added.
pub open spec fn list_kept(pre: Seq<WidgetModel>, n: nat, data: Seq<Seq<char>>) -> Seq<WidgetModel> {
    Seq::new(
        n,
        |i: int|
            if i < pre.len() {
                pre[i]
            } else {
                label_model(data[i])
            },
    )
}

impl WidgetModel {
    /// The widget showing `text`, if it is a label; other widgets do not
    /// show data and are left as they are.
    pub open spec fn relabelled(self, text: Seq<char>) -> WidgetModel {
        match self.kind {
            Kind::Label { key_nav, .. } => WidgetModel { kind: Kind::Label { text, key_nav }, ..self },
            _ => self,
        }
    }

    /// Whether the widget is a label without children.
    pub open spec fn is_label(self) -> bool {
        self.kind is Label && self.children.len() == 0
    }

    /// Whether the tree has the shape that all operations on widgets ask
    /// for: a label has no children, a frame has one child, the widgets of
    /// a list are labels, and a list is scrolled to a place within the
    /// range that it can scroll.
    pub open spec fn shaped(self) -> bool
        decreases self,
    {
        &&& match self.kind {
            Kind::Label { .. } => self.children.len() == 0,
            Kind::Frame { .. } => self.children.len() == 1,
            Kind::Stack { .. } => true,
            Kind::Row { .. } => true,
            Kind::List { state, .. } => {
                &&& forall|i: int| 0 <= i < self.children.len() ==> (#[trigger] self.children[i]).is_label()
                &&& state.scroll.wf()
            },
        }
        &&& forall|i: int| 0 <= i < self.children.len() ==> (#[trigger] self.children[i]).shaped()
    }

    /// Well-formedness of a widget tree: the tree has its shape, and every
    /// list in it serves a range of its data, by widgets it has, each of
    /// which shows the item that it serves.
    ///
    /// A list is well formed once it was laid out or its view was updated,
    /// and stays so until its data is changed behind its back.
    pub open spec fn wf(self) -> bool
        decreases self,
    {
        &&& match self.kind {
            Kind::Label { .. } => self.children.len() == 0,
            Kind::Frame { .. } => self.children.len() == 1,
            Kind::Stack { .. } => true,
            Kind::Row { .. } => true,
            Kind::List { state, data, .. } => {
                &&& forall|i: int| 0 <= i < self.children.len() ==> (#[trigger] self.children[i]).is_label()
                &&& state.scroll.wf()
                &&& state.data_start <= state.data_end <= data.len()
                &&& state.served() <= self.children.len()
                &&& self.synced()
            },
        }
        &&& forall|i: int| 0 <= i < self.children.len() ==> (#[trigger] self.children[i]).wf()
    }

    /// Whether each data item that a list serves is shown by the widget
    /// that serves it. Widgets other than lists serve no data.
    pub open spec fn synced(self) -> bool {
        match self.kind {
            Kind::List { state, data, .. } => forall|d: int|
                state.data_start <= d < state.data_end ==> (#[trigger] self.children[d % (
                self.children.len() as int)]).kind == (Kind::Label {
                    text: data[d],
                    key_nav: self.children[d % (self.children.len() as int)].kind->Label_key_nav,
                }),
            _ => true,
        }
    }

    /// The action that laying out the widget asks of the toolkit.
    ///
    /// Only lists ask for one: for a reconfiguration where they make or
    /// drop widgets, for the region to count as moved where the offset had
    /// to change, and for a redraw where widgets are given data. What
    /// the children ask for, the parent asks for.
    pub open spec fn placing_action(self, rect: Rect, align: AlignHints) -> TkAction
        decreases self, 1nat, 0nat,
    {
        match self.kind {
            Kind::Label { .. } => TkAction::Empty,
            Kind::Frame { offset, size } => if self.children.len() > 0 {
                self.children[0].placing_action(frame_content(rect, offset, size), align)
            } else {
                TkAction::Empty
            },
            Kind::Stack { .. } => self.placing_action_below(self.children.len(), rect, align),
            Kind::Row { vertical, rules } => self.placing_action_along(
                self.children.len(),
                rect,
                align,
            ),
            Kind::List { state, data, .. } => {
                let n0 = self.children.len();
                let n = list_len(state, rect.size, n0, data.len());
                let prepared = list_prepared(state, rect.size, align, data.len());
                let count = if n != n0 {
                    TkAction::Reconfigure
                } else {
                    TkAction::Empty
                };
                count.join(state.scroll.move_action(prepared.scroll)).join(
                    refresh_action(prepared, n, data.len()),
                )
            },
        }
    }

    /// The greatest action that laying out one of the first `n` children
    /// in `rect` asks for.
    pub open spec fn placing_action_below(self, n: nat, rect: Rect, align: AlignHints) -> TkAction
        decreases self, 0nat, n,
        when n <= self.children.len()
    {
        if n == 0 {
            TkAction::Empty
        } else {
            self.placing_action_below((n - 1) as nat, rect, align).join(
                self.children[n - 1].placing_action(rect, align),
            )
        }
    }

    /// The region that a row, or another widget, gives to its child `i`
    /// when it has the region `rect` itself.
    pub open spec fn child_rect(self, rect: Rect, i: int) -> Rect {
        match self.kind {
            Kind::Row { vertical, rules } => row_rect(rect, vertical, rules, i),
            Kind::Frame { offset, size } => frame_content(rect, offset, size),
            _ => rect,
        }
    }

    /// The greatest action that laying out one of the first `n` children
    /// of a row, each in its own region, asks for.
    pub open spec fn placing_action_along(self, n: nat, rect: Rect, align: AlignHints) -> TkAction
        decreases self, 0nat, n,
        when n <= self.children.len()
    {
        if n == 0 {
            TkAction::Empty
        } else {
            self.placing_action_along((n - 1) as nat, rect, align).join(
                self.children[n - 1].placing_action(self.child_rect(rect, n - 1), align),
            )
        }
    }

    /// Whether `post` is the widget after it was given the region `rect`.
    ///
    /// Every widget keeps its region. A frame gives its child the region
    /// within the frame. A stack gives each child its own region. A row
    /// divides its region among its children, by the rules that it kept
    /// of them. A list
    /// decides the size of its items, makes or drops widgets, sets the
    /// range of its scroll component and refreshes its widgets.
    pub open spec fn placed(self, post: WidgetModel, rect: Rect, align: AlignHints) -> bool
        decreases self,
    {
        &&& post.core == CoreData { rect, ..self.core }
        &&& match self.kind {
            Kind::Label { .. } => post.kind == self.kind && post.children == self.children,
            Kind::Frame { offset, size } => {
                &&& post.kind == self.kind
                &&& post.children.len() == self.children.len()
                &&& forall|i: int|
                    0 <= i < self.children.len() ==> (#[trigger] self.children[i]).placed(
                        post.children[i],
                        frame_content(rect, offset, size),
                        align,
                    )
            },
            Kind::Stack { .. } => {
                &&& post.kind == self.kind
                &&& post.children.len() == self.children.len()
                &&& forall|i: int|
                    0 <= i < self.children.len() ==> (#[trigger] self.children[i]).placed(
                        post.children[i],
                        rect,
                        align,
                    )
            },
            Kind::Row { vertical, rules } => {
                &&& post.kind == self.kind
                &&& post.children.len() == self.children.len()
                &&& forall|i: int|
                    0 <= i < self.children.len() ==> (#[trigger] self.children[i]).placed(
                        post.children[i],
                        row_rect(rect, vertical, rules, i),
                        align,
                    )
            },
            Kind::List { state, data, handle } => {
                let n0 = self.children.len();
                let n = list_len(state, rect.size, n0, data.len());
                let prepared = list_prepared(state, rect.size, align, data.len());
                &&& post.kind == Kind::List {
                    state: refreshed_state(prepared, n, data.len()),
                    data,
                    handle,
                }
                &&& refreshed(prepared, rect, data, list_kept(self.children, n, data), post.children)
            },
        }
    }
}

/// Asking a tree for its size rules leaves it in shape, and well formed if
/// it was.
pub proof fn lemma_measured_wf(w: WidgetModel, sh: SizeHandle, axis: AxisInfo)
    ensures
        w.shaped() ==> w.measured(sh, axis).shaped(),
        w.wf() ==> w.measured(sh, axis).wf(),
    decreases w,
{
    let m = w.measured(sh, axis);
    crate::model::lemma_measured_all(w.children, sh, axis);
    match w.kind {
        Kind::Label { .. } => {},
        Kind::Frame { .. } | Kind::Stack { .. } | Kind::Row { .. } => {
            assert forall|i: int| 0 <= i < m.children.len() implies (w.shaped() ==> (
            #[trigger] m.children[i]).shaped()) && (w.wf() ==> m.children[i].wf()) by {
                lemma_measured_wf(w.children[i], sh, axis);
            }
        },
        Kind::List { state, data, .. } => {
            if w.shaped() || w.wf() {
                if w.children.len() > 0 {
                    assert(w.children[0].is_label());
                    assert(w.children[0].measured(sh, axis) == w.children[0]);
                    assert(m.children =~= w.children);
                }
            }
        },
    }
}

/// A well formed tree has its shape.
pub proof fn lemma_wf_shaped(w: WidgetModel)
    requires
        w.wf(),
    ensures
        w.shaped(),
    decreases w,
{
    assert forall|i: int| 0 <= i < w.children.len() implies (#[trigger] w.children[i]).shaped() by {
        lemma_wf_shaped(w.children[i]);
    }
}

/// The range of data items that a list serves after it was refreshed lies
/// within the data and holds no more items than the list has widgets;
/// where there are at least as many items as widgets, every widget serves
/// one: the range holds as many items as the list has widgets.
pub proof fn lemma_refreshed_range(state: ListState, widgets: nat, len: nat)
    requires
        len <= usize::MAX,
    ensures
        ({
            let after = refreshed_state(state, widgets, len);
            &&& after.data_start == state.first_data(widgets, len)
            &&& after.data_end == state.last_data(widgets, len)
            &&& after.data_start <= after.data_end <= len
            &&& after.served() <= widgets
            &&& widgets <= len ==> after.data_end == after.data_start + widgets
            &&& after.scroll == state.scroll
        }),
{
}

/// Two numbers less than `n` apart that leave the same remainder when
/// divided by `n` are the same number.
pub proof fn lemma_same_slot(a: int, b: int, n: int)
    requires
        n > 0,
        0 <= a <= b < a + n,
        a % n == b % n,
    ensures
        a == b,
{
    vstd::arithmetic::div_mod::lemma_fundamental_div_mod(a, n);
    vstd::arithmetic::div_mod::lemma_fundamental_div_mod(b, n);
    let qa = a / n;
    let qb = b / n;
    assert(b - a == n * (qb - qa)) by (nonlinear_arith)
        requires
            a == n * qa + a % n,
            b == n * qb + b % n,
            a % n == b % n,
    ;
    assert(qb - qa == 0) by (nonlinear_arith)
        requires
            n > 0,
            0 <= n * (qb - qa) < n,
    ;
}

/// The widgets of a list that was refreshed show the data items that they
/// serve, if the widgets showed what they served before, and all widgets
/// are labels; the list is well formed then, if it can be scrolled to
/// where it is scrolled.
pub proof fn lemma_refreshed_synced(pre: WidgetModel, post: WidgetModel, area: Rect)
    requires
        pre.kind is List,
        forall|i: int| 0 <= i < pre.children.len() ==> (#[trigger] pre.children[i]).is_label(),
        pre.synced(),
        pre.kind->List_data.len() <= usize::MAX,
        post.kind == (Kind::List {
            state: refreshed_state(
                pre.kind->List_state,
                pre.children.len(),
                pre.kind->List_data.len(),
            ),
            data: pre.kind->List_data,
            handle: pre.kind->List_handle,
        }),
        refreshed(pre.kind->List_state, area, pre.kind->List_data, pre.children, post.children),
    ensures
        post.synced(),
        forall|i: int| 0 <= i < post.children.len() ==> (#[trigger] post.children[i]).is_label(),
        pre.kind->List_state.scroll.wf() ==> post.wf(),
{
    let state = pre.kind->List_state;
    let data = pre.kind->List_data;
    let n = pre.children.len() as int;
    let first = state.first_data(n as nat, data.len()) as int;
    let last = state.last_data(n as nat, data.len()) as int;
    lemma_refreshed_range(state, n as nat, data.len());
    assert forall|i: int| 0 <= i < post.children.len() implies (#[trigger] post.children[i]).is_label()
        && post.children[i].wf() by {
        assert(pre.children[i].is_label());
        if exists|d: int| first <= d < last && #[trigger] (d % n) == i {
            let d = choose|d: int| first <= d < last && #[trigger] (d % n) == i;
            assert(post.children[d % n] == post.children[i]);
        }
    }
    assert forall|d: int| first <= d < last implies (#[trigger] post.children[d % n]).kind == (
    Kind::Label { text: data[d], key_nav: post.children[d % n].kind->Label_key_nav }) by {
        vstd::arithmetic::div_mod::lemma_mod_bound(d, n);
        assert(pre.children[d % n].is_label());
        if !state.rebinds(d as nat) {
            assert(state.data_start <= d < state.data_end);
        }
    }
}

/// Asking a tree for its size rules changes neither its shape nor its
/// identifiers.
pub proof fn lemma_measured_ids(w: WidgetModel, sh: SizeHandle, axis: AxisInfo)
    ensures
        w.ids_kept(w.measured(sh, axis)),
    decreases w,
{
    let m = w.measured(sh, axis);
    crate::model::lemma_measured_all(w.children, sh, axis);
    assert forall|i: int| 0 <= i < w.children.len() implies (#[trigger] w.children[i]).ids_kept(
        m.children[i],
    ) by {
        lemma_measured_ids(w.children[i], sh, axis);
        crate::shape::lemma_ids_kept_reflexive(w.children[i]);
    }
}

/// Solving the size rules of a tree leaves it in shape, and well formed
/// if it was, and changes neither its shape nor its identifiers.
pub proof fn lemma_solved(w: WidgetModel, sh: SizeHandle, x_size: Option<u32>, y_size: Option<u32>)
    ensures
        w.ids_kept(crate::layout::sizer::solved(w, sh, x_size, y_size)),
        w.shaped() ==> crate::layout::sizer::solved(w, sh, x_size, y_size).shaped(),
        w.wf() ==> crate::layout::sizer::solved(w, sh, x_size, y_size).wf(),
{
    let first = w.measured(sh, crate::layout::sizer::width_query(y_size));
    let second = first.measured(sh, crate::layout::sizer::height_query(x_size));
    lemma_measured_ids(w, sh, crate::layout::sizer::width_query(y_size));
    lemma_measured_ids(first, sh, crate::layout::sizer::height_query(x_size));
    crate::shape::lemma_ids_kept_transitive(w, first, second);
    lemma_measured_wf(w, sh, crate::layout::sizer::width_query(y_size));
    lemma_measured_wf(first, sh, crate::layout::sizer::height_query(x_size));
}

} // verus!
