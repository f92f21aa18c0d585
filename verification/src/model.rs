//! The mathematical model of a widget tree
//!
//! A widget is modelled by what all widgets have in common, by what is
//! particular to its kind, and by the models of its children. Contracts of
//! the operations on widgets are stated over this model.

use crate::data::{CoreData, WidgetId};
use crate::draw::SizeHandle;
use crate::event::events::UpdateHandle;
use crate::event::manager::Subscription;
use crate::geom::{clamp_u32, Coord, Offset, Rect, Size};
use crate::layout::{AxisInfo, SizeRules, StretchPolicy};
use crate::widget::view::ListState;
use vstd::prelude::*;

verus! {

/// What is particular to a kind of widget
pub enum Kind {
    /// A line of text
    Label { text: Seq<char>, key_nav: bool },
    /// A frame around one child, which lies `offset` within the frame and
    /// is smaller than it by `size`
    Frame { offset: Offset, size: Size },
    /// A stack of children of which one, if any, is shown
    Stack { active: usize },
    /// A row of children, or a column if `vertical` is set; `rules` are the
    /// size rules of the children along the row, as they were last asked
    /// for
    Row { vertical: bool, rules: Seq<SizeRules> },
    /// A list of data items, of which those near the viewport are served
    /// by child widgets; `handle` is the update handle of the data, if the
    /// data is shared
    List { state: ListState, data: Seq<Seq<char>>, handle: Option<UpdateHandle> },
}

/// Model of a widget and of the tree below it
pub struct WidgetModel {
    pub core: CoreData,
    pub kind: Kind,
    pub children: Seq<WidgetModel>,
}

impl WidgetModel {
    /// Identifier of the widget.
    pub open spec fn id(self) -> WidgetId {
        self.core.id
    }

    /// The widgets of the tree, each before its children, children in order.
    pub open spec fn nodes(self) -> Seq<WidgetModel>
        decreases self, 1nat, 0nat,
    {
        seq![self] + self.nodes_below(self.children.len())
    }

    /// The widgets of the trees below the first `n` children.
    pub open spec fn nodes_below(self, n: nat) -> Seq<WidgetModel>
        decreases self, 0nat, n,
        when n <= self.children.len()
    {
        if n == 0 {
            Seq::empty()
        } else {
            self.nodes_below((n - 1) as nat) + self.children[n - 1].nodes()
        }
    }

    /// Number of widgets in the tree.
    pub open spec fn count(self) -> nat {
        self.nodes().len()
    }

    /// Position, among the widgets of the tree, of the `i`-th child.
    pub open spec fn child_start(self, i: nat) -> nat {
        1 + self.nodes_below(i).len()
    }

    /// The widgets that input can reach: those of the tree that are not
    /// disabled and not below a disabled widget.
    pub open spec fn shown(self) -> Seq<WidgetModel>
        decreases self, 1nat, 0nat,
    {
        if self.core.disabled {
            Seq::empty()
        } else {
            seq![self] + self.shown_below(self.children.len())
        }
    }

    /// The widgets below the first `n` children that input can reach.
    pub open spec fn shown_below(self, n: nat) -> Seq<WidgetModel>
        decreases self, 0nat, n,
        when n <= self.children.len()
    {
        if n == 0 {
            Seq::empty()
        } else {
            self.shown_below((n - 1) as nat) + self.children[n - 1].shown()
        }
    }

    /// A tree is configured when its widgets are numbered consecutively in
    /// the order of `nodes`, starting from the root.
    pub open spec fn configured(self) -> bool {
        forall|k: int| 0 <= k < self.nodes().len() ==> (#[trigger] self.nodes()[k]).core.id.0 == self.core.id.0 + k
    }

    /// Whether some widget of the tree has the identifier `id`.
    pub open spec fn has_id(self, id: WidgetId) -> bool {
        exists|k: int| 0 <= k < self.nodes().len() && (#[trigger] self.nodes()[k]).core.id == id
    }

    /// Whether some widget that input can reach has the identifier `id`.
    pub open spec fn shows_id(self, id: WidgetId) -> bool {
        exists|k: int| 0 <= k < self.shown().len() && (#[trigger] self.shown()[k]).core.id == id
    }

    /// The tree with the widget `id`, and all below it, replaced by `sub`.
    pub open spec fn replaced(self, id: WidgetId, sub: WidgetModel) -> WidgetModel
        decreases self,
    {
        if self.core.id == id {
            sub
        } else {
            WidgetModel {
                children: Seq::new(
                    self.children.len(),
                    |i: int|
                        if 0 <= i < self.children.len() {
                            self.children[i].replaced(id, sub)
                        } else {
                            arbitrary()
                        },
                ),
                ..self
            }
        }
    }
}

/// The widgets below the first `n` children are the first of the widgets
/// below the first `m` children, for `n <= m`.
pub proof fn lemma_nodes_below_prefix(w: WidgetModel, n: nat, m: nat)
    requires
        n <= m <= w.children.len(),
    ensures
        w.nodes_below(n).len() <= w.nodes_below(m).len(),
        w.nodes_below(m).subrange(0, w.nodes_below(n).len() as int) == w.nodes_below(n),
    decreases m,
{
    if n == m {
        assert(w.nodes_below(m).subrange(0, w.nodes_below(n).len() as int) =~= w.nodes_below(n));
    } else {
        lemma_nodes_below_prefix(w, n, (m - 1) as nat);
        assert(w.nodes_below(m).subrange(0, w.nodes_below(n).len() as int) =~= w.nodes_below(n));
    }
}

/// The widgets of the `i`-th child appear among the widgets of the tree as
/// one run that starts at `child_start(i)`.
pub proof fn lemma_child_nodes(w: WidgetModel, i: nat, k: int)
    requires
        i < w.children.len(),
        0 <= k < w.children[i as int].nodes().len(),
    ensures
        w.child_start(i) + k < w.nodes().len(),
        w.nodes()[w.child_start(i) + k] == w.children[i as int].nodes()[k],
        w.child_start(i + 1) == w.child_start(i) + w.children[i as int].count(),
        w.child_start(i + 1) <= w.count(),
{
    lemma_nodes_below_prefix(w, i + 1, w.children.len());
    let all = w.nodes_below(w.children.len());
    let upto = w.nodes_below(i + 1);
    assert(upto == w.nodes_below(i) + w.children[i as int].nodes());
    assert(all.subrange(0, upto.len() as int)[w.nodes_below(i).len() + k] == upto[w.nodes_below(i).len() + k]);
}

/// Every widget of the tree is the root or a widget of one child.
pub proof fn lemma_node_origin(w: WidgetModel, k: int) -> (r: (nat, int))
    requires
        0 < k < w.nodes().len(),
    ensures
        r.0 < w.children.len(),
        0 <= r.1 < w.children[r.0 as int].nodes().len(),
        k == w.child_start(r.0) + r.1,
        w.nodes()[k] == w.children[r.0 as int].nodes()[r.1],
{
    let r = lemma_node_origin_below(w, w.children.len(), k - 1);
    lemma_child_nodes(w, r.0, r.1);
    r
}

/// Every widget below the first `n` children is a widget of one of them.
pub proof fn lemma_node_origin_below(w: WidgetModel, n: nat, k: int) -> (r: (nat, int))
    requires
        n <= w.children.len(),
        0 <= k < w.nodes_below(n).len(),
    ensures
        r.0 < n,
        0 <= r.1 < w.children[r.0 as int].nodes().len(),
        k == w.nodes_below(r.0).len() + r.1,
        w.nodes_below(n)[k] == w.children[r.0 as int].nodes()[r.1],
    decreases n,
{
    let before = w.nodes_below((n - 1) as nat);
    if k < before.len() {
        lemma_node_origin_below(w, (n - 1) as nat, k)
    } else {
        ((n - 1) as nat, k - before.len())
    }
}

/// In a configured tree each child is configured, and its identifier is
/// that of the parent plus the child's position among the widgets.
pub proof fn lemma_child_configured(w: WidgetModel, i: nat)
    requires
        w.configured(),
        i < w.children.len(),
    ensures
        w.children[i as int].configured(),
        w.children[i as int].core.id.0 == w.core.id.0 + w.child_start(i),
        w.child_start(i) >= 1,
        w.child_start(i + 1) == w.child_start(i) + w.children[i as int].count(),
        w.child_start(i + 1) <= w.count(),
        w.children[i as int].count() >= 1,
{
    let c = w.children[i as int];
    lemma_child_nodes(w, i, 0);
    assert(c.nodes()[0] == c);
    assert forall|k: int| 0 <= k < c.nodes().len() implies (#[trigger] c.nodes()[k]).core.id.0
        == c.core.id.0 + k by {
        lemma_child_nodes(w, i, k);
    }
}

/// The positions of the children among the widgets grow with the index.
pub proof fn lemma_child_start_monotonic(w: WidgetModel, i: nat, j: nat)
    requires
        i <= j <= w.children.len(),
    ensures
        w.child_start(i) <= w.child_start(j),
        i < j ==> w.child_start(i) + w.children[i as int].count() <= w.child_start(j),
{
    lemma_nodes_below_prefix(w, i, j);
    if i < j {
        lemma_nodes_below_prefix(w, i + 1, j);
    }
}

/// In a configured tree, the identifier of a widget is not less than that
/// of any widget above it: the widgets of the tree under `a`, where `a` is
/// a widget of the configured tree `root`, have identifiers from that of
/// `a` upwards, in the order of their positions.
pub proof fn lemma_ancestor_id_le_descendant(root: WidgetModel, i: int, j: int)
    requires
        root.configured(),
        0 <= i < root.nodes().len(),
        0 <= j < root.nodes()[i].nodes().len(),
    ensures
        root.nodes()[i].configured(),
        root.nodes()[i].core.id.0 <= root.nodes()[i].nodes()[j].core.id.0,
        root.nodes()[i].nodes()[j].core.id.0 == root.nodes()[i].core.id.0 + j,
        root.core.id.0 <= root.nodes()[i].core.id.0,
    decreases root,
{
    if i == 0 {
        assert(root.nodes()[0] == root);
    } else {
        let (c, k) = lemma_node_origin(root, i);
        lemma_child_configured(root, c);
        lemma_ancestor_id_le_descendant(root.children[c as int], k, j);
    }
}

/// In a configured tree no two widgets have the same identifier.
pub proof fn lemma_ids_distinct(root: WidgetModel, i: int, j: int)
    requires
        root.configured(),
        0 <= i < root.nodes().len(),
        0 <= j < root.nodes().len(),
        root.nodes()[i].core.id == root.nodes()[j].core.id,
    ensures
        i == j,
{
}

/// Every widget that input can reach is a widget of the tree.
pub proof fn lemma_shown_is_node(w: WidgetModel, k: int) -> (r: int)
    requires
        0 <= k < w.shown().len(),
    ensures
        0 <= r < w.nodes().len(),
        w.nodes()[r] == w.shown()[k],
    decreases w, 1nat, 0nat,
{
    if k == 0 {
        0
    } else {
        let (c, j) = lemma_shown_origin_below(w, w.children.len(), k - 1);
        let i = lemma_shown_is_node(w.children[c as int], j);
        lemma_child_nodes(w, c, i);
        (w.child_start(c) + i) as int
    }
}

/// Every widget below the first `n` children that input can reach is such
/// a widget of one of them.
pub proof fn lemma_shown_origin_below(w: WidgetModel, n: nat, k: int) -> (r: (nat, int))
    requires
        n <= w.children.len(),
        0 <= k < w.shown_below(n).len(),
    ensures
        r.0 < n,
        0 <= r.1 < w.children[r.0 as int].shown().len(),
        w.shown_below(n)[k] == w.children[r.0 as int].shown()[r.1],
    decreases w, 0nat, n,
{
    let before = w.shown_below((n - 1) as nat);
    if k < before.len() {
        lemma_shown_origin_below(w, (n - 1) as nat, k)
    } else {
        ((n - 1) as nat, k - before.len())
    }
}

/// A widget that input can reach in the `i`-th child can be reached in the
/// tree, unless the root is disabled.
pub proof fn lemma_child_shown(w: WidgetModel, i: nat, k: int) -> (r: int)
    requires
        !w.core.disabled,
        i < w.children.len(),
        0 <= k < w.children[i as int].shown().len(),
    ensures
        0 <= r < w.shown().len(),
        w.shown()[r] == w.children[i as int].shown()[k],
{
    lemma_shown_below_prefix(w, i + 1, w.children.len());
    let all = w.shown_below(w.children.len());
    let upto = w.shown_below(i + 1);
    assert(upto == w.shown_below(i) + w.children[i as int].shown());
    let at = w.shown_below(i).len() + k;
    assert(all.subrange(0, upto.len() as int)[at] == upto[at]);
    1 + at
}

/// What input can reach below the first `n` children comes first in what
/// it can reach below the first `m` children, for `n <= m`.
pub proof fn lemma_shown_below_prefix(w: WidgetModel, n: nat, m: nat)
    requires
        n <= m <= w.children.len(),
    ensures
        w.shown_below(n).len() <= w.shown_below(m).len(),
        w.shown_below(m).subrange(0, w.shown_below(n).len() as int) == w.shown_below(n),
    decreases m,
{
    if n == m {
        assert(w.shown_below(m).subrange(0, w.shown_below(n).len() as int) =~= w.shown_below(n));
    } else {
        lemma_shown_below_prefix(w, n, (m - 1) as nat);
        assert(w.shown_below(m).subrange(0, w.shown_below(n).len() as int) =~= w.shown_below(n));
    }
}

} // verus!

verus! {

/// `offset` with the component along one axis replaced.
pub open spec fn offset_with(offset: Offset, vertical: bool, v: i32) -> Offset {
    if vertical {
        Offset(offset.0, v)
    } else {
        Offset(v, offset.1)
    }
}

/// `size` with the component along one axis replaced.
pub open spec fn size_with(size: Size, vertical: bool, v: u32) -> Size {
    if vertical {
        Size(size.0, v)
    } else {
        Size(v, size.1)
    }
}

/// Rules of a list of items, given the rules of one item: along the list,
/// room for two items at the least and for `ideal_visible` items ideally,
/// and extra space is of use; across the list, the rules of the item.
pub open spec fn list_rules(state: ListState, item: SizeRules, axis: AxisInfo) -> SizeRules {
    if axis.vertical == state.direction.vertical() {
        let r = item.repeated(2, state.ideal_visible);
        SizeRules { stretch: r.stretch.join(StretchPolicy::HighUtility), ..r }
    } else {
        item
    }
}

/// What a list keeps of the rules of one item, where they are rules along
/// the list.
pub open spec fn list_measured(state: ListState, item: SizeRules, axis: AxisInfo) -> ListState {
    if axis.vertical == state.direction.vertical() {
        ListState {
            child_size_min: item.min,
            child_size_ideal: item.ideal,
            child_inter_margin: (item.margins.0 + item.margins.1) as i32,
            ..state
        }
    } else {
        state
    }
}

/// The widgets `ws`, each as it is after its size rules were asked for.
pub open spec fn measured_all(ws: Seq<WidgetModel>, sh: SizeHandle, axis: AxisInfo) -> Seq<
    WidgetModel,
>
    decreases ws, 0nat,
{
    Seq::new(
        ws.len(),
        |i: int|
            if 0 <= i < ws.len() {
                ws[i].measured(sh, axis)
            } else {
                arbitrary()
            },
    )
}

/// The size rules of the widgets `ws`.
pub open spec fn rules_of(ws: Seq<WidgetModel>, sh: SizeHandle, axis: AxisInfo) -> Seq<SizeRules> {
    Seq::new(ws.len(), |i: int| ws[i].rules(sh, axis))
}

/// Model of a label that shows `text` and has not been configured or laid
/// out.
pub open spec fn label_model(text: Seq<char>) -> WidgetModel {
    WidgetModel {
        core: CoreData { id: WidgetId(0), rect: Rect { pos: Coord(0, 0), size: Size(0, 0) }, disabled: false },
        kind: Kind::Label { text, key_nav: false },
        children: Seq::empty(),
    }
}

impl WidgetModel {
    /// The first widget that the first `n` children name at `coord`.
    pub open spec fn first_hit(self, n: nat, coord: Coord) -> Option<WidgetId>
        decreases self, 0nat, n,
        when n <= self.children.len()
    {
        if n == 0 {
            None
        } else {
            match self.first_hit((n - 1) as nat, coord) {
                Some(id) => Some(id),
                None => self.children[n - 1].hit(coord),
            }
        }
    }

    /// Number of children that take part in the search by coordinate.
    pub open spec fn hit_limit(self) -> nat {
        match self.kind {
            Kind::List { state, .. } => if state.served() <= self.children.len() {
                state.served()
            } else {
                self.children.len()
            },
            _ => self.children.len(),
        }
    }

    /// The widget that input at `coord` is meant for.
    ///
    /// A disabled widget names none, nor does a widget whose region does
    /// not hold `coord`. Otherwise a widget names what its children name:
    /// a stack asks its active child, a list the children that serve data,
    /// at the coordinate within its content, a frame its child and a row
    /// its children in their order. Where the children name none, the
    /// widget names itself.
    pub open spec fn hit(self, coord: Coord) -> Option<WidgetId>
        decreases self, 1nat, 0nat,
    {
        if self.core.disabled || !self.core.rect.covers(coord) {
            None
        } else {
            let below = match self.kind {
                Kind::Label { .. } => None,
                Kind::Frame { .. } | Kind::Row { .. } => self.first_hit(self.hit_limit(), coord),
                Kind::Stack { active } => if active < self.children.len() {
                    self.children[active as int].hit(coord)
                } else {
                    None
                },
                Kind::List { state, .. } => self.first_hit(
                    self.hit_limit(),
                    coord.moved(state.scroll.offset),
                ),
            };
            match below {
                Some(id) => Some(id),
                None => Some(self.core.id),
            }
        }
    }

    /// The maximum of the rules of the first `n` children.
    pub open spec fn stacked_rules(self, n: nat, sh: SizeHandle, axis: AxisInfo) -> SizeRules
        decreases self, 0nat, n,
        when n <= self.children.len()
    {
        if n == 0 {
            SizeRules::empty_rules()
        } else {
            self.stacked_rules((n - 1) as nat, sh, axis).stacked(
                self.children[n - 1].rules(sh, axis),
            )
        }
    }

    /// The sum of the rules of the first `n` children.
    pub open spec fn summed_rules(self, n: nat, sh: SizeHandle, axis: AxisInfo) -> SizeRules
        decreases self, 0nat, n,
        when n <= self.children.len()
    {
        if n == 0 {
            SizeRules::empty_rules()
        } else {
            self.summed_rules((n - 1) as nat, sh, axis).summed(self.children[n - 1].rules(sh, axis))
        }
    }

    /// The text by which a list without widgets measures its items: that
    /// of the first data item, or none.
    pub open spec fn list_sample(data: Seq<Seq<char>>) -> Seq<char> {
        if data.len() > 0 {
            data[0]
        } else {
            Seq::empty()
        }
    }

    /// The size rules of the widget along one axis.
    ///
    /// A label asks for the size of its text. A frame asks for what its
    /// child asks plus its own thickness. A stack asks for the maximum of
    /// what its children ask; without children, for nothing. A row asks
    /// for the sum of what its children ask along the row, and for the
    /// maximum across it. A list
    /// measures its first widget, or the text of its first data item if it
    /// has no widget yet, and asks for room for several.
    pub open spec fn rules(self, sh: SizeHandle, axis: AxisInfo) -> SizeRules
        decreases self, 1nat, 0nat,
    {
        match self.kind {
            Kind::Label { text, .. } => sh.text_rules(text.len(), axis.vertical),
            Kind::Frame { .. } => sh.frame_rules().framed(
                if self.children.len() > 0 {
                    self.children[0].rules(sh, axis)
                } else {
                    SizeRules::empty_rules()
                },
            ),
            Kind::Stack { .. } => self.stacked_rules(self.children.len(), sh, axis),
            Kind::Row { vertical, .. } => if axis.vertical == vertical {
                self.summed_rules(self.children.len(), sh, axis)
            } else {
                self.stacked_rules(self.children.len(), sh, axis)
            },
            Kind::List { state, data, .. } => list_rules(
                state,
                if self.children.len() > 0 {
                    self.children[0].rules(sh, axis)
                } else {
                    sh.text_rules(Self::list_sample(data).len(), axis.vertical)
                },
                axis,
            ),
        }
    }

    /// The widget as it is after its size rules were asked for.
    ///
    /// A frame keeps where its child lies within it. A row keeps the rules
    /// of its children along the row. A list keeps the size
    /// and the margins of an item along the list. Children are measured as
    /// far as their parent asks them: a list asks its first widget only.
    pub open spec fn measured(self, sh: SizeHandle, axis: AxisInfo) -> WidgetModel
        decreases self, 0nat,
    {
        match self.kind {
            Kind::Label { .. } => self,
            Kind::Frame { offset, size } => WidgetModel {
                kind: Kind::Frame {
                    offset: offset_with(offset, axis.vertical, sh.frame_rules().min),
                    size: size_with(size, axis.vertical, clamp_u32(sh.frame_rules().ideal as int)),
                },
                children: measured_all(self.children, sh, axis),
                ..self
            },
            Kind::Stack { .. } => WidgetModel {
                children: measured_all(self.children, sh, axis),
                ..self
            },
            Kind::Row { vertical, rules } => WidgetModel {
                kind: Kind::Row {
                    vertical,
                    rules: if axis.vertical == vertical {
                        rules_of(self.children, sh, axis)
                    } else {
                        rules
                    },
                },
                children: measured_all(self.children, sh, axis),
                ..self
            },
            Kind::List { state, data, handle } => {
                let item = if self.children.len() > 0 {
                    self.children[0].rules(sh, axis)
                } else {
                    sh.text_rules(Self::list_sample(data).len(), axis.vertical)
                };
                WidgetModel {
                    kind: Kind::List { state: list_measured(state, item, axis), data, handle },
                    children: if self.children.len() > 0 {
                        self.children.update(0, self.children[0].measured(sh, axis))
                    } else {
                        self.children
                    },
                    ..self
                }
            },
        }
    }
}

/// A widget that no widget of the tree above it lets input reach names no
/// widget: a disabled widget answers every coordinate with `None`, whether
/// its region holds the coordinate or not.
pub proof fn lemma_disabled_hit_is_none(w: WidgetModel, coord: Coord)
    requires
        w.core.disabled,
    ensures
        w.hit(coord).is_none(),
{
}

/// A widget that is not disabled answers every coordinate within its
/// region: where no child claims the coordinate, the widget names itself.
pub proof fn lemma_hit_in_region(w: WidgetModel, coord: Coord)
    ensures
        w.hit(coord).is_some() <==> (!w.core.disabled && w.core.rect.covers(coord)),
{
}

/// What a search by coordinate names is a widget that input can reach: it
/// is not disabled, nor is any widget above it.
pub proof fn lemma_hit_is_shown(w: WidgetModel, coord: Coord) -> (k: int)
    requires
        w.hit(coord).is_some(),
    ensures
        0 <= k < w.shown().len(),
        w.shown()[k].core.id == w.hit(coord).unwrap(),
    decreases w, 1nat, 0nat,
{
    let below = match w.kind {
        Kind::Label { .. } => None,
        Kind::Frame { .. } | Kind::Row { .. } => w.first_hit(w.hit_limit(), coord),
        Kind::Stack { active } => if active < w.children.len() {
            w.children[active as int].hit(coord)
        } else {
            None
        },
        Kind::List { state, .. } => w.first_hit(w.hit_limit(), coord.moved(state.scroll.offset)),
    };
    if below.is_none() {
        0
    } else {
        match w.kind {
            Kind::Label { .. } => 0,
            Kind::Frame { .. } | Kind::Row { .. } => lemma_first_hit_is_shown(
                w,
                w.hit_limit(),
                coord,
            ),
            Kind::Stack { active } => {
                let j = lemma_hit_is_shown(w.children[active as int], coord);
                lemma_child_shown(w, active as nat, j)
            },
            Kind::List { state, .. } => lemma_first_hit_is_shown(
                w,
                w.hit_limit(),
                coord.moved(state.scroll.offset),
            ),
        }
    }
}

/// What the first `n` children name at a coordinate can be reached by
/// input, unless the widget is disabled.
pub proof fn lemma_first_hit_is_shown(w: WidgetModel, n: nat, coord: Coord) -> (k: int)
    requires
        !w.core.disabled,
        n <= w.children.len(),
        w.first_hit(n, coord).is_some(),
    ensures
        0 <= k < w.shown().len(),
        w.shown()[k].core.id == w.first_hit(n, coord).unwrap(),
    decreases w, 0nat, n,
{
    if w.first_hit((n - 1) as nat, coord).is_some() {
        lemma_first_hit_is_shown(w, (n - 1) as nat, coord)
    } else {
        let j = lemma_hit_is_shown(w.children[n - 1], coord);
        lemma_child_shown(w, (n - 1) as nat, j)
    }
}

/// Asking a widget for its size rules does not change what it answers:
/// asked again, along the same axis and with the same sizes of the theme,
/// it gives the same rules, and it is left as the first question left it.
pub proof fn lemma_size_rules_idempotent(w: WidgetModel, sh: SizeHandle, axis: AxisInfo)
    ensures
        w.measured(sh, axis).rules(sh, axis) == w.rules(sh, axis),
        w.measured(sh, axis).measured(sh, axis) == w.measured(sh, axis),
        w.measured(sh, axis).core == w.core,
    decreases w, 1nat, 0nat,
{
    let m = w.measured(sh, axis);
    match w.kind {
        Kind::Label { .. } => {},
        Kind::Frame { offset, size } => {
            lemma_measured_all_idempotent(w.children, sh, axis);
            if w.children.len() > 0 {
                lemma_size_rules_idempotent(w.children[0], sh, axis);
            }
        },
        Kind::Stack { .. } => {
            lemma_measured_all_idempotent(w.children, sh, axis);
            lemma_folded_rules_measured(w, m, w.children.len(), sh, axis);
        },
        Kind::Row { vertical, rules } => {
            lemma_measured_all_idempotent(w.children, sh, axis);
            lemma_folded_rules_measured(w, m, w.children.len(), sh, axis);
            lemma_measured_all(w.children, sh, axis);
            assert forall|i: int| 0 <= i < w.children.len() implies (#[trigger] rules_of(
                m.children,
                sh,
                axis,
            )[i]) == rules_of(w.children, sh, axis)[i] by {
                lemma_size_rules_idempotent(w.children[i], sh, axis);
            }
            assert(rules_of(m.children, sh, axis) =~= rules_of(w.children, sh, axis));
        },
        Kind::List { state, data, .. } => {
            if w.children.len() > 0 {
                lemma_size_rules_idempotent(w.children[0], sh, axis);
                assert(m.children.update(0, m.children[0].measured(sh, axis)) =~= m.children);
            }
        },
    }
}

/// Measuring widgets twice is measuring them once.
pub proof fn lemma_measured_all_idempotent(ws: Seq<WidgetModel>, sh: SizeHandle, axis: AxisInfo)
    ensures
        measured_all(measured_all(ws, sh, axis), sh, axis) == measured_all(ws, sh, axis),
    decreases ws, 0nat,
{
    let once = measured_all(ws, sh, axis);
    assert forall|i: int| 0 <= i < ws.len() implies (#[trigger] measured_all(once, sh, axis)[i])
        == once[i] by {
        lemma_size_rules_idempotent(ws[i], sh, axis);
    }
    assert(measured_all(once, sh, axis) =~= once);
}

/// The sum and the maximum of the rules of measured children are those of
/// the children.
pub proof fn lemma_folded_rules_measured(
    w: WidgetModel,
    m: WidgetModel,
    n: nat,
    sh: SizeHandle,
    axis: AxisInfo,
)
    requires
        n <= w.children.len(),
        m.children == measured_all(w.children, sh, axis),
    ensures
        m.stacked_rules(n, sh, axis) == w.stacked_rules(n, sh, axis),
        m.summed_rules(n, sh, axis) == w.summed_rules(n, sh, axis),
    decreases w, 0nat, n,
{
    lemma_measured_all(w.children, sh, axis);
    if n > 0 {
        lemma_folded_rules_measured(w, m, (n - 1) as nat, sh, axis);
        lemma_size_rules_idempotent(w.children[n - 1], sh, axis);
    }
}

} // verus!

verus! {

impl WidgetModel {
    /// Whether `r` is what a search for `id` among the widgets that input
    /// can reach has to give: such a widget with that identifier, or
    /// nothing if there is none.
    pub open spec fn finds_shown(self, id: WidgetId, r: Option<WidgetModel>) -> bool {
        match r {
            Some(w) => w.core.id == id && exists|k: int|
                0 <= k < self.shown().len() && #[trigger] self.shown()[k] == w,
            None => !self.shows_id(id),
        }
    }

    /// Whether `r` is what a search for `id` among all widgets of the tree
    /// has to give.
    pub open spec fn finds(self, id: WidgetId, r: Option<WidgetModel>) -> bool {
        match r {
            Some(w) => w.core.id == id && exists|k: int|
                0 <= k < self.nodes().len() && #[trigger] self.nodes()[k] == w,
            None => !self.has_id(id),
        }
    }

    /// Whether the `p`-th child is the one whose tree can hold `id`: the
    /// last child whose identifier is not greater than `id`.
    pub open spec fn child_for(self, id: WidgetId, p: nat) -> bool {
        &&& p < self.children.len()
        &&& self.children[p as int].core.id.0 <= id.0
        &&& (p + 1 < self.children.len() ==> self.children[p as int + 1].core.id.0 > id.0)
    }
}

/// In a configured tree, the identifiers of the widgets of the `i`-th child
/// lie between the identifier of that child and that of the next.
pub proof fn lemma_child_id_range(w: WidgetModel, i: nat, k: int)
    requires
        w.configured(),
        i < w.children.len(),
        0 <= k < w.children[i as int].nodes().len(),
    ensures
        w.children[i as int].core.id.0 <= w.children[i as int].nodes()[k].core.id.0,
        i + 1 < w.children.len() ==> w.children[i as int].nodes()[k].core.id.0 < w.children[i as int
            + 1].core.id.0,
        w.core.id.0 < w.children[i as int].core.id.0,
{
    lemma_child_configured(w, i);
    if i + 1 < w.children.len() {
        lemma_child_configured(w, i + 1);
    }
}

/// In a configured tree, the identifiers of the children grow with the index.
pub proof fn lemma_child_ids_grow(w: WidgetModel, i: nat, j: nat)
    requires
        w.configured(),
        i < j < w.children.len(),
    ensures
        w.children[i as int].core.id.0 + w.children[i as int].count() <= w.children[j as int].core.id.0,
{
    lemma_child_configured(w, i);
    lemma_child_configured(w, j);
    lemma_child_start_monotonic(w, i, j);
}

/// In a configured tree a widget with the identifier `id`, other than the
/// root, is a widget of the last child whose identifier is not greater
/// than `id`.
pub proof fn lemma_search_descends(w: WidgetModel, id: WidgetId, p: nat)
    requires
        w.configured(),
        id != w.core.id,
        w.child_for(id, p),
    ensures
        w.has_id(id) <==> w.children[p as int].has_id(id),
        !w.core.disabled ==> (w.shows_id(id) <==> w.children[p as int].shows_id(id)),
        w.children[p as int].configured(),
{
    let c = w.children[p as int];
    lemma_child_configured(w, p);
    if c.has_id(id) {
        let k = choose|k: int| 0 <= k < c.nodes().len() && (#[trigger] c.nodes()[k]).core.id == id;
        lemma_child_nodes(w, p, k);
        assert(w.nodes()[w.child_start(p) + k].core.id == id);
    }
    if w.has_id(id) {
        let k = choose|k: int| 0 <= k < w.nodes().len() && (#[trigger] w.nodes()[k]).core.id == id;
        assert(w.nodes()[0] == w);
        let (q, j) = lemma_node_origin(w, k);
        lemma_located_in(w, id, p, q, j);
        assert(c.nodes()[j].core.id == id);
    }
    if !w.core.disabled {
        if c.shows_id(id) {
            let k = choose|k: int|
                0 <= k < c.shown().len() && (#[trigger] c.shown()[k]).core.id == id;
            let r = lemma_child_shown(w, p, k);
            assert(w.shown()[r].core.id == id);
        }
        if w.shows_id(id) {
            let k = choose|k: int|
                0 <= k < w.shown().len() && (#[trigger] w.shown()[k]).core.id == id;
            assert(w.shown()[0] == w);
            let (q, j) = lemma_shown_origin_below(w, w.children.len(), k - 1);
            let i = lemma_shown_is_node(w.children[q as int], j);
            lemma_located_in(w, id, p, q, i);
            assert(c.shown()[j].core.id == id);
        }
    }
}

/// In a configured tree, if a widget of the `q`-th child has the identifier
/// `id`, then `q` is the last child whose identifier is not greater than
/// `id`.
pub proof fn lemma_located_in(w: WidgetModel, id: WidgetId, p: nat, q: nat, k: int)
    requires
        w.configured(),
        w.child_for(id, p),
        q < w.children.len(),
        0 <= k < w.children[q as int].nodes().len(),
        w.children[q as int].nodes()[k].core.id == id,
    ensures
        p == q,
{
    lemma_child_id_range(w, q, k);
    lemma_child_configured(w, q);
    if q < p {
        lemma_child_ids_grow(w, q, p);
    } else if q > p {
        if q > p + 1 {
            lemma_child_ids_grow(w, p + 1, q);
        }
    }
}

/// In a configured tree no widget has an identifier less than that of the
/// root, and none but the root has that of the root; a tree whose first
/// child has an identifier greater than `id` holds `id` at the root or not
/// at all.
pub proof fn lemma_search_ends(w: WidgetModel, id: WidgetId)
    requires
        w.configured(),
        id != w.core.id,
        id.0 < w.core.id.0 || w.children.len() == 0 || w.children[0].core.id.0 > id.0,
    ensures
        !w.has_id(id),
        !w.shows_id(id),
{
    if w.has_id(id) {
        let k = choose|k: int| 0 <= k < w.nodes().len() && (#[trigger] w.nodes()[k]).core.id == id;
        assert(w.nodes()[0] == w);
        let (q, j) = lemma_node_origin(w, k);
        lemma_child_id_range(w, q, j);
        if q > 0 {
            lemma_child_ids_grow(w, 0, q);
        }
    }
    if w.shows_id(id) {
        let k = choose|k: int| 0 <= k < w.shown().len() && (#[trigger] w.shown()[k]).core.id == id;
        let i = lemma_shown_is_node(w, k);
        assert(w.nodes()[i].core.id == id);
    }
}

/// A search among all widgets and a search among those that input can
/// reach give the same widget, where the latter gives one: in a configured
/// tree, there is one widget at most for each identifier.
pub proof fn lemma_find_agrees(
    w: WidgetModel,
    id: WidgetId,
    reached: Option<WidgetModel>,
    any: Option<WidgetModel>,
)
    requires
        w.configured(),
        w.finds_shown(id, reached),
        w.finds(id, any),
    ensures
        reached.is_some() ==> any == reached,
        any.is_none() ==> reached.is_none(),
        w.has_id(id) <==> any.is_some(),
        w.has_id(id) <==> w.core.id.0 <= id.0 < w.core.id.0 + w.count(),
{
    if reached.is_some() {
        let k = choose|k: int| 0 <= k < w.shown().len() && #[trigger] w.shown()[k] == reached.unwrap();
        let i = lemma_shown_is_node(w, k);
        assert(w.nodes()[i].core.id == id);
        if any.is_some() {
            let j = choose|j: int| 0 <= j < w.nodes().len() && #[trigger] w.nodes()[j] == any.unwrap();
            lemma_ids_distinct(w, i, j);
        }
    }
    if any.is_some() {
        let j = choose|j: int| 0 <= j < w.nodes().len() && #[trigger] w.nodes()[j] == any.unwrap();
        assert(w.nodes()[j].core.id == id);
    }
    if w.core.id.0 <= id.0 < w.core.id.0 + w.count() {
        let k = id.0 - w.core.id.0;
        assert(w.nodes()[k].core.id.0 == id.0);
    }
}

} // verus!

verus! {

/// Once one of the first `n` children has named a widget, asking further
/// children does not change the answer.
pub proof fn lemma_first_hit_stable(w: WidgetModel, n: nat, m: nat, coord: Coord)
    requires
        n <= m <= w.children.len(),
        w.first_hit(n, coord).is_some(),
    ensures
        w.first_hit(m, coord) == w.first_hit(n, coord),
    decreases m,
{
    if n < m {
        lemma_first_hit_stable(w, n, (m - 1) as nat, coord);
    }
}

/// Replacing a widget that the tree does not hold leaves the tree as it is.
pub proof fn lemma_replaced_absent(w: WidgetModel, id: WidgetId, sub: WidgetModel)
    requires
        !w.has_id(id),
    ensures
        w.replaced(id, sub) == w,
    decreases w,
{
    assert(w.nodes()[0] == w);
    assert forall|i: int| 0 <= i < w.children.len() implies (#[trigger] w.children[i]).replaced(
        id,
        sub,
    ) == w.children[i] by {
        let c = w.children[i];
        if c.has_id(id) {
            let k = choose|k: int|
                0 <= k < c.nodes().len() && (#[trigger] c.nodes()[k]).core.id == id;
            lemma_child_nodes(w, i as nat, k);
            assert(w.nodes()[w.child_start(i as nat) + k].core.id == id);
        }
        lemma_replaced_absent(c, id, sub);
    }
    assert(w.replaced(id, sub).children =~= w.children);
}

/// In a configured tree, replacing a widget other than the root is
/// replacing it in the last child whose identifier is not greater.
pub proof fn lemma_replaced_descends(w: WidgetModel, id: WidgetId, p: nat)
    requires
        w.configured(),
        id != w.core.id,
        w.child_for(id, p),
    ensures
        forall|sub: WidgetModel| #[trigger]
            w.replaced(id, sub) == (WidgetModel {
                children: w.children.update(p as int, w.children[p as int].replaced(id, sub)),
                ..w
            }),
        w.children.update(p as int, w.children[p as int]) == w.children,
{
    assert(w.children.update(p as int, w.children[p as int]) =~= w.children);
    assert forall|sub: WidgetModel| #[trigger]
        w.replaced(id, sub) == (WidgetModel {
            children: w.children.update(p as int, w.children[p as int].replaced(id, sub)),
            ..w
        }) by {
        assert forall|i: int| 0 <= i < w.children.len() && i != p implies (
        #[trigger] w.children[i]).replaced(id, sub) == w.children[i] by {
            let c = w.children[i];
            if c.has_id(id) {
                let k = choose|k: int|
                    0 <= k < c.nodes().len() && (#[trigger] c.nodes()[k]).core.id == id;
                lemma_located_in(w, id, p, i as nat, k);
            }
            lemma_replaced_absent(c, id, sub);
        }
        assert(w.replaced(id, sub).children =~= w.children.update(
            p as int,
            w.children[p as int].replaced(id, sub),
        ));
    }
}

/// What `measured_all` gives: as many widgets as it is given, each
/// measured.
pub proof fn lemma_measured_all(ws: Seq<WidgetModel>, sh: SizeHandle, axis: AxisInfo)
    ensures
        measured_all(ws, sh, axis).len() == ws.len(),
        forall|i: int|
            0 <= i < ws.len() ==> (#[trigger] measured_all(ws, sh, axis)[i]) == ws[i].measured(
                sh,
                axis,
            ),
{
}

} // verus!

verus! {

/// What widgets register with the event manager when they are configured
pub struct Registrations {
    /// The widget that gets keys when no widget has navigation focus
    pub nav_fallback: Option<WidgetId>,
    /// Subscriptions to update handles
    pub handles: Seq<Subscription>,
}

impl WidgetModel {
    /// The identifiers of the widgets of the tree, each after those of its
    /// children, children in order.
    pub open spec fn walk_order(self) -> Seq<WidgetId>
        decreases self, 1nat, 0nat,
    {
        self.walk_below(self.children.len()).push(self.core.id)
    }

    /// The identifiers of the widgets below the first `n` children.
    pub open spec fn walk_below(self, n: nat) -> Seq<WidgetId>
        decreases self, 0nat, n,
        when n <= self.children.len()
    {
        if n == 0 {
            Seq::empty()
        } else {
            self.walk_below((n - 1) as nat) + self.children[n - 1].walk_order()
        }
    }

    /// Whether the widget takes keyboard navigation focus: a label that was
    /// made to, and no other widget.
    pub open spec fn navigable(self) -> bool {
        match self.kind {
            Kind::Label { key_nav, .. } => key_nav,
            _ => false,
        }
    }

    /// The tree with its widgets numbered anew: consecutively from `start`,
    /// each widget before its children, children in order.
    pub open spec fn renumbered(self, start: int) -> WidgetModel
        decreases self,
    {
        WidgetModel {
            core: CoreData { id: WidgetId(start as u64), ..self.core },
            kind: self.kind,
            children: Seq::new(
                self.children.len(),
                |i: int|
                    if 0 <= i < self.children.len() {
                        self.children[i].renumbered(start + self.child_start(i as nat))
                    } else {
                        arbitrary()
                    },
            ),
        }
    }

    /// What the widget itself registers when it is configured: a list asks
    /// for the keys that no widget with navigation focus takes, and
    /// subscribes to the update handle of its data, if that has one.
    pub open spec fn registered(self, regs: Registrations) -> Registrations {
        match self.kind {
            Kind::List { handle, .. } => Registrations {
                nav_fallback: match regs.nav_fallback {
                    Some(first) => Some(first),
                    None => Some(self.core.id),
                },
                handles: match handle {
                    Some(h) => regs.handles.push(Subscription { handle: h, id: self.core.id }),
                    None => regs.handles,
                },
            },
            _ => regs,
        }
    }

    /// What the widgets of the tree register when they are configured,
    /// each after its children.
    pub open spec fn registered_all(self, regs: Registrations) -> Registrations
        decreases self, 1nat, 0nat,
    {
        self.registered(self.registered_below(self.children.len(), regs))
    }

    /// What the widgets below the first `n` children register.
    pub open spec fn registered_below(self, n: nat, regs: Registrations) -> Registrations
        decreases self, 0nat, n,
        when n <= self.children.len()
    {
        if n == 0 {
            regs
        } else {
            self.children[n - 1].registered_all(self.registered_below((n - 1) as nat, regs))
        }
    }
}

/// Numbering a tree anew does not change how many widgets lie below its
/// first `n` children.
pub proof fn lemma_renumbered_below(w: WidgetModel, start: int, n: nat)
    requires
        n <= w.children.len(),
    ensures
        w.renumbered(start).children.len() == w.children.len(),
        w.renumbered(start).nodes_below(n).len() == w.nodes_below(n).len(),
    decreases w, n,
{
    if n > 0 {
        lemma_renumbered_below(w, start, (n - 1) as nat);
        lemma_renumbered_count(w.children[n - 1], start + w.child_start((n - 1) as nat));
    }
}

/// Numbering a tree anew does not change the number of its widgets.
pub proof fn lemma_renumbered_count(w: WidgetModel, start: int)
    ensures
        w.renumbered(start).count() == w.count(),
        w.renumbered(start).kind == w.kind,
        w.renumbered(start).children.len() == w.children.len(),
    decreases w, w.children.len() + 1,
{
    lemma_renumbered_below(w, start, w.children.len());
}

/// Numbering a tree anew does not change the positions of its children
/// among its widgets.
pub proof fn lemma_renumbered_shape_all(w: WidgetModel, start: int)
    ensures
        w.renumbered(start).count() == w.count(),
        forall|n: nat|
            n <= w.children.len() ==> (#[trigger] w.renumbered(start).nodes_below(n)).len()
                == w.nodes_below(n).len(),
{
    assert forall|n: nat| n <= w.children.len() implies (#[trigger] w.renumbered(start).nodes_below(
        n,
    )).len() == w.nodes_below(n).len() by {
        lemma_renumbered_below(w, start, n);
    }
    lemma_renumbered_count(w, start);
}

/// A tree that was numbered anew is configured.
pub proof fn lemma_renumbered_configured(w: WidgetModel, start: int)
    requires
        0 <= start,
        start + w.count() <= u64::MAX + 1,
    ensures
        w.renumbered(start).configured(),
        w.renumbered(start).core.id.0 == start,
        w.renumbered(start).count() == w.count(),
    decreases w,
{
    let r = w.renumbered(start);
    lemma_renumbered_shape_all(w, start);
    assert forall|k: int| 0 <= k < r.nodes().len() implies (#[trigger] r.nodes()[k]).core.id.0
        == r.core.id.0 + k by {
        if k > 0 {
            let (c, j) = lemma_node_origin(r, k);
            lemma_child_nodes(w, c, 0);
            lemma_child_nodes(r, c, j);
            assert(r.child_start(c) == w.child_start(c));
            lemma_renumbered_shape_all(w.children[c as int], start + w.child_start(c));
            lemma_renumbered_configured(w.children[c as int], start + w.child_start(c));
        } else {
            assert(r.nodes()[0] == r);
        }
    }
}

} // verus!
