//! List view widget

use crate::data::{CoreData, WidgetId};
use crate::draw::{DrawCmd, DrawHandle, SizeHandle};
use crate::event::{CursorIcon, Event, GrabMode, Manager, ManagerState, Response, VoidMsg};
use crate::model::label_model;
use crate::placement::{
    lemma_refreshed_synced, lemma_same_slot, list_kept, list_len, list_prepared, refresh_action,
    refreshed, refreshed_state, shown_at,
};
use crate::toolkit::{lemma_join_is_least_upper_bound, TkAction};
use crate::widget::view::state::{len_to_i32, resized_len};
use crate::event::events::UpdateHandle;
use crate::geom::{to_i32, Coord, Offset, Rect, Size};
use crate::layout::{AlignHints, AxisInfo, Direction, SizeRules, StretchPolicy};
use crate::model::{Kind, WidgetModel};
use crate::widget::label::Label;
use crate::traits::{registrations, EventHandler, Layout, WidgetCore};
use crate::widget::scroll::clamp_offset;
use crate::widget::any::{models, AnyWidget};
use crate::widget::scroll::ScrollComponent;
use crate::widget::view::state::ListState;
use vstd::prelude::*;

verus! {

/// The texts of the strings `items`.
pub open spec fn texts(items: Seq<String>) -> Seq<Seq<char>> {
    Seq::new(items.len(), |i: int| items[i]@)
}

/// List view widget
///
/// The list shows a sequence of strings, each by a widget of its own. Only
/// as many widgets are kept as fit into the viewport, with one to spare;
/// as the list is scrolled, the widgets are handed from the data items
/// that leave the viewport to those that enter it.
pub struct ListView {
    pub core: CoreData,
    pub data: Vec<String>,
    pub widgets: Vec<AnyWidget>,
    pub state: ListState,
    pub handle: Option<UpdateHandle>,
}

impl ListView {
    /// Model of the list.
    pub open spec fn view(&self) -> WidgetModel {
        AnyWidget::List(*self)@
    }
}

impl ListView {
    /// Construct a new instance
    ///
    /// The list runs from top to bottom; for another direction use
    /// [`ListView::new_with_direction`].
    pub fn new(data: Vec<String>) -> (r: ListView)
        ensures
            r@ == (WidgetModel {
                core: CoreData {
                    id: WidgetId(0),
                    rect: Rect { pos: Coord(0, 0), size: Size(0, 0) },
                    disabled: false,
                },
                kind: Kind::List {
                    state: ListState::initial(Direction::Down),
                    data: texts(data@),
                    handle: None,
                },
                children: Seq::empty(),
            }),
            r@.wf(),
            r@.synced(),
    {
        ListView::new_with_direction(Direction::Down, data)
    }

    /// Construct a new instance with explicit direction
    pub fn new_with_direction(direction: Direction, data: Vec<String>) -> (r: ListView)
        ensures
            r@ == (WidgetModel {
                core: CoreData {
                    id: WidgetId(0),
                    rect: Rect { pos: Coord(0, 0), size: Size(0, 0) },
                    disabled: false,
                },
                kind: Kind::List {
                    state: ListState::initial(direction),
                    data: texts(data@),
                    handle: None,
                },
                children: Seq::empty(),
            }),
            r@.wf(),
            r@.synced(),
    {
        let r = ListView {
            core: CoreData {
                id: WidgetId(0),
                rect: Rect { pos: Coord(0, 0), size: Size(0, 0) },
                disabled: false,
            },
            data,
            widgets: Vec::new(),
            state: ListState {
                direction,
                data_start: 0,
                data_end: 0,
                align_hints: AlignHints::none(),
                ideal_visible: 5,
                child_size_min: 0,
                child_size_ideal: 0,
                child_inter_margin: 0,
                child_skip: 0,
                child_size: 0,
                scroll: ScrollComponent::new(),
            },
            handle: None,
        };
        proof {
            assert(r@.children =~= Seq::empty());
        }
        r
    }

    /// Name the update handle of the data, where the data is shared
    ///
    /// Once configured, the list is told when the handle is triggered.
    pub fn with_update_handle(self, handle: UpdateHandle) -> (r: ListView)
        ensures
            r@ == (WidgetModel {
                kind: Kind::List {
                    state: self.state,
                    data: texts(self.data@),
                    handle: Some(handle),
                },
                ..self@
            }),
    {
        ListView {
            core: self.core,
            data: self.data,
            widgets: self.widgets,
            state: self.state,
            handle: Some(handle),
        }
    }

    /// Access the stored data
    pub fn data(&self) -> (r: &Vec<String>)
        ensures
            r == &self.data,
    {
        &self.data
    }

    /// Mutably access the stored data
    ///
    /// It may be necessary to use [`ListView::update_view`] to update the view of this data.
    pub fn data_mut(&mut self) -> (r: &mut Vec<String>)
        ensures
            *r == old(self).data,
            *final(r) == final(self).data,
            final(self).core == old(self).core,
            final(self).widgets == old(self).widgets,
            final(self).state == old(self).state,
            final(self).handle == old(self).handle,
    {
        &mut self.data
    }

    /// Get the direction of contents
    pub fn direction(&self) -> (r: Direction)
        ensures
            r == self.state.direction,
    {
        self.state.direction
    }

    /// Set the preferred number of items visible (inline)
    ///
    /// This affects the (ideal) size request and whether children are sized
    /// according to their ideal or minimum size but not the minimum size.
    pub fn with_num_visible(self, number: i32) -> (r: ListView)
        ensures
            r@ == (WidgetModel {
                kind: Kind::List {
                    state: ListState { ideal_visible: number, ..self.state },
                    data: texts(self.data@),
                    handle: self.handle,
                },
                ..self@
            }),
    {
        let mut list = self;
        list.state.ideal_visible = number;
        list
    }

    /// Whether the content is larger than a viewport of the given size, on
    /// each axis
    ///
    /// A list scrolls along its direction only.
    pub fn scroll_axes(&self, size: Size) -> (r: (bool, bool))
        ensures
            r.0 == (!self.state.along() && self.min_content() > size.0),
            r.1 == (self.state.along() && self.min_content() > size.1),
    {
        let item_min = self.state.child_size_min as i128 + self.state.child_inter_margin as i128;
        let num = self.data.len() as i128;
        assert(-0x1_0000_0000 * 0x1_0000_0000_0000_0000 <= item_min * num <= 0x1_0000_0000
            * 0x1_0000_0000_0000_0000) by (nonlinear_arith)
            requires
                -0x1_0000_0000 <= item_min <= 0x1_0000_0000,
                0 <= num <= 0x1_0000_0000_0000_0000,
        ;
        let total = item_min * num - self.state.child_inter_margin as i128;
        let min_size = if total > 0 {
            total
        } else {
            0
        };
        let vertical = self.state.direction.is_vertical();
        (!vertical && min_size > size.0 as i128, vertical && min_size > size.1 as i128)
    }

    /// The least extent of the content along the list: that of all items at
    /// their least size, with the margins between them.
    pub open spec fn min_content(&self) -> int {
        let total = (self.state.child_size_min + self.state.child_inter_margin) * self.data@.len()
            - self.state.child_inter_margin;
        if total > 0 {
            total
        } else {
            0
        }
    }

    /// Get the maximum scroll offset
    #[inline]
    pub fn max_scroll_offset(&self) -> (r: Offset)
        ensures
            r == self.state.scroll.max_offset,
    {
        self.state.scroll.max_offset()
    }

    /// Get the current scroll offset
    #[inline]
    pub fn scroll_offset(&self) -> (r: Offset)
        ensures
            r == self.state.scroll.offset,
    {
        self.state.scroll.offset()
    }

    /// Everything but the widgets and the state is as in `other`.
    pub open spec fn same_data(&self, other: &ListView) -> bool {
        &&& self.core == other.core
        &&& self.data == other.data
        &&& self.handle == other.handle
    }

    /// Refresh the widgets: decide which data items are served, and give
    /// to each widget that serves an item it did not serve before that
    /// item and its region
    ///
    /// The items served are those from the scroll offset onwards, as many
    /// as there are widgets. The item `d` is served by the widget
    /// `d % len`, where `len` is the number of widgets. A widget that
    /// served its item before is left alone.
    ///
    /// A list whose widgets showed what they served is well formed
    /// afterwards: every item of the range served is shown by its widget.
    pub fn update_widgets(&mut self, mgr: &mut Manager)
        requires
            old(self)@.shaped(),
        ensures
            final(self).same_data(old(self)),
            final(self).state == refreshed_state(
                old(self).state,
                old(self).widgets@.len() as nat,
                old(self).data@.len() as nat,
            ),
            refreshed(
                old(self).state,
                old(self).core.rect,
                texts(old(self).data@),
                old(self)@.children,
                final(self)@.children,
            ),
            final(self)@.shaped(),
            old(self)@.synced() ==> final(self)@.wf(),
            final(mgr).action == old(mgr).action.join(
                refresh_action(
                    old(self).state,
                    old(self).widgets@.len() as nat,
                    old(self).data@.len() as nat,
                ),
            ),
            final(mgr).same_but_action(old(mgr)),
    {
        let n = self.widgets.len();
        let (first, last) = self.state.data_range(n, self.data.len());
        let (origin, step) = self.state.placing(self.core.rect.pos, n);
        let size = self.state.item_region(self.core.rect.size);
        let hints = self.state.align_hints;
        let mut action = TkAction::Empty;
        let mut d = first;
        let ghost data = texts(self.data@);
        let ghost state = self.state;
        let ghost area = self.core.rect;
        proof {
            assert forall|i: int| 0 <= i < n implies (#[trigger] self.widgets@[i])@.is_label() by {
                assert(old(self)@.children[i] == self.widgets@[i]@);
            }
        }
        while d < last
            invariant
                first <= d <= last <= self.data@.len(),
                last - first <= n,
                n == self.widgets@.len(),
                n == old(self).widgets@.len(),
                self.same_data(old(self)),
                self.state == old(self).state,
                state == old(self).state,
                area == old(self).core.rect,
                data == texts(self.data@),
                first == state.first_data(n as nat, data.len()),
                last == state.last_data(n as nat, data.len()),
                origin == state.origin(area.pos, n as nat),
                step == state.step(),
                size == state.item_size(area.size),
                hints == state.align_hints,
                old(self)@.shaped(),
                *mgr == *old(mgr),
                forall|i: int| 0 <= i < n ==> (#[trigger] self.widgets@[i])@.is_label(),
                forall|e: int|
                    first <= e < d ==> (#[trigger] self.widgets@[e % (n as int)])@ == if state.rebinds(e as nat) {
                        shown_at(
                            old(self).widgets@[e % (n as int)]@,
                            data[e],
                            state.item_rect(area, n as nat, e as nat),
                        )
                    } else {
                        old(self).widgets@[e % (n as int)]@
                    },
                forall|i: int|
                    0 <= i < n && !(exists|e: int| first <= e < d && #[trigger] (e % (n as int)) == i)
                        ==> (#[trigger] self.widgets@[i])@ == old(self).widgets@[i]@,
                action == if exists|e: int|
                    first <= e < d && #[trigger] state.rebinds(e as nat) {
                    TkAction::Redraw
                } else {
                    TkAction::Empty
                },
            decreases last - d,
        {
            let i = d % n;
            let ghost before = self.widgets@;
            proof {
                vstd::arithmetic::div_mod::lemma_mod_bound(d as int, n as int);
                assert(old(self)@.children[i as int] == old(self).widgets@[i as int]@);
                // the widget was not given an item in this pass
                if exists|e: int| first <= e < d && #[trigger] (e % (n as int)) == i as int {
                    let e = choose|e: int| first <= e < d && #[trigger] (e % (n as int)) == i as int;
                    lemma_same_slot(e, d as int, n as int);
                }
                assert(before[i as int]@ == old(self).widgets@[i as int]@);
            }
            if d < self.state.data_start || d >= self.state.data_end {
                let text = self.data[d].clone();
                let pos = origin.offset_by(step.scaled(len_to_i32(d)));
                let rect = Rect::new(pos, size);
                match &mut self.widgets[i] {
                    AnyWidget::Label(label) => {
                        let set = label.set_string(text);
                        label.set_rect(mgr, rect, hints);
                        action = action.max(set);
                    },
                    _ => {},
                }
                proof {
                    assert(state.rebinds(d as nat));
                    assert(self.widgets@[i as int]@ == shown_at(
                        before[i as int]@,
                        data[d as int],
                        state.item_rect(area, n as nat, d as nat),
                    ));
                }
            }
            proof {
                let m = n as int;
                assert forall|e: int| first <= e < d + 1 implies (#[trigger] self.widgets@[e % m])@
                    == if state.rebinds(e as nat) {
                    shown_at(
                        old(self).widgets@[e % m]@,
                        data[e],
                        state.item_rect(area, n as nat, e as nat),
                    )
                } else {
                    old(self).widgets@[e % m]@
                } by {
                    vstd::arithmetic::div_mod::lemma_mod_bound(e, m);
                    if e < d {
                        if e % m == i as int {
                            lemma_same_slot(e, d as int, m);
                        }
                        assert(self.widgets@[e % m] == before[e % m]);
                    }
                }
                assert forall|j: int|
                    0 <= j < n && !(exists|e: int| first <= e < d + 1 && #[trigger] (e % m) == j)
                    implies (#[trigger] self.widgets@[j])@ == old(self).widgets@[j]@ by {
                    if j == i as int {
                        assert(d as int % m == j);
                    }
                    assert(self.widgets@[j] == before[j]);
                    if exists|e: int| first <= e < d && #[trigger] (e % m) == j {
                        let e = choose|e: int| first <= e < d && #[trigger] (e % m) == j;
                        assert(first <= e < d + 1 && e % m == j);
                    }
                }
                assert forall|j: int| 0 <= j < n implies (#[trigger] self.widgets@[j])@.is_label() by {
                    if j != i as int {
                        assert(self.widgets@[j] == before[j]);
                    }
                }
                if exists|e: int| first <= e < d && #[trigger] state.rebinds(e as nat) {
                    let e = choose|e: int|
                        first <= e < d && #[trigger] state.rebinds(e as nat);
                    assert(first <= e < d + 1 && state.rebinds(e as nat));
                }
                if exists|e: int| first <= e < d + 1 && #[trigger] state.rebinds(e as nat) {
                    let e = choose|e: int|
                        first <= e < d + 1 && #[trigger] state.rebinds(e as nat);
                    if e < d {
                        assert(first <= e < d && state.rebinds(e as nat));
                    }
                }
            }
            d += 1;
        }
        mgr.send_action(action);
        self.state.data_start = first;
        self.state.data_end = last;
        proof {
            let m = n as int;
            assert forall|e: int| first <= e < last implies (#[trigger] self@.children[e % m]) == if state.rebinds(e as nat) {
                shown_at(old(self)@.children[e % m], data[e], state.item_rect(area, n as nat, e as nat))
            } else {
                old(self)@.children[e % m]
            } by {
                vstd::arithmetic::div_mod::lemma_mod_bound(e, m);
                assert(self@.children[e % m] == self.widgets@[e % m]@);
                assert(old(self)@.children[e % m] == old(self).widgets@[e % m]@);
            }
            assert forall|j: int|
                0 <= j < n && !(exists|e: int| first <= e < last && #[trigger] (e % m) == j)
                implies #[trigger] self@.children[j] == old(self)@.children[j] by {
                assert(self@.children[j] == self.widgets@[j]@);
                assert(old(self)@.children[j] == old(self).widgets@[j]@);
            }
            assert forall|j: int| 0 <= j < n implies (#[trigger] self@.children[j]).is_label()
                && self@.children[j].shaped() by {
                assert(self@.children[j] == self.widgets@[j]@);
            }
            assert forall|j: int| 0 <= j < n implies (#[trigger] old(self)@.children[j]).is_label() by {
                assert(old(self)@.children[j] == old(self).widgets@[j]@);
            }
            if old(self)@.synced() {
                lemma_refreshed_synced(old(self)@, self@, area);
            }
        }
    }

    /// Everything but the widgets is as in `other`.
    pub open spec fn same_but_widgets(&self, other: &ListView) -> bool {
        &&& self.core == other.core
        &&& self.data == other.data
        &&& self.handle == other.handle
        &&& self.state == other.state
    }

    /// Make or drop widgets so that the list has as many as it keeps when
    /// it could use `wanted`
    ///
    /// A widget that is made is a label for the data item of its index,
    /// with its size rules solved. Returns whether the number of widgets
    /// changed.
    pub fn fit_widgets(&mut self, sizes: &SizeHandle, wanted: usize, item: Size) -> (changed: bool)
        requires
            wanted <= old(self).data@.len(),
        ensures
            final(self).same_but_widgets(old(self)),
            final(self).widgets@.len() == resized_len(old(self).widgets@.len() as nat, wanted as nat),
            final(self)@.children == list_kept(
                old(self)@.children,
                final(self).widgets@.len() as nat,
                texts(old(self).data@),
            ),
            changed == (final(self).widgets@.len() != old(self).widgets@.len()),
    {
        let old_num = self.widgets.len();
        let ghost data = texts(self.data@);
        if wanted > old_num {
            self.widgets.reserve(wanted - old_num);
            let mut i = old_num;
            while i < wanted
                invariant
                    old_num <= i <= wanted <= self.data@.len(),
                    self.widgets@.len() == i,
                    self.same_but_widgets(old(self)),
                    data == texts(self.data@),
                    forall|j: int|
                        0 <= j < old_num ==> #[trigger] self.widgets@[j] == old(self).widgets@[j],
                    forall|j: int|
                        old_num <= j < i ==> (#[trigger] self.widgets@[j])@ == label_model(data[j]),
                decreases wanted - i,
            {
                let mut w = Label::new(self.data[i].clone());
                // the size rules of a new widget are solved before it is
                // given a region: along the horizontal axis first
                w.size_rules(sizes, AxisInfo::new(false, Some(item.1)));
                w.size_rules(sizes, AxisInfo::new(true, Some(item.0)));
                self.widgets.push(AnyWidget::Label(w));
                i += 1;
            }
        } else if old_num >= 64 && wanted <= old_num - 64 {
            self.widgets.truncate(wanted);
        }
        proof {
            let n = self.widgets@.len();
            assert forall|j: int| 0 <= j < n implies (#[trigger] self@.children[j]) == list_kept(
                old(self)@.children,
                n as nat,
                data,
            )[j] by {
                assert(self@.children[j] == self.widgets@[j]@);
                if j < old_num {
                    assert(old(self)@.children[j] == old(self).widgets@[j]@);
                }
            }
            assert(self@.children =~= list_kept(old(self)@.children, n as nat, data));
        }
        self.widgets.len() != old_num
    }

    /// Take the given region
    ///
    /// The list decides the size of its items: their ideal size where the
    /// preferred number of items fits into the region, their least size
    /// where it does not. It keeps as many widgets as can be seen at a
    /// time and one more, but no more than it has data; it makes widgets
    /// where it has too few and drops widgets where it has sixty-four or
    /// more too many, and asks for a reconfiguration in both cases. Then it
    /// sets the range of its scroll component, which limits the offset
    /// anew, and gives every widget that serves an item that item and its
    /// region: no item counts as served before.
    ///
    /// The list need not serve its data beforehand: it may be laid out
    /// after its data was changed. Afterwards it is well formed.
    ///
    /// Places are counted in `i32` and saturate: in a list of more than
    /// `i32::MAX` items, the items beyond that number lie where that item
    /// lies.
    pub fn set_rect(&mut self, mgr: &mut Manager, rect: Rect, align: AlignHints)
        requires
            old(self)@.shaped(),
        ensures
            old(self)@.placed(final(self)@, rect, align),
            final(self)@.wf(),
            final(mgr).action == old(mgr).action.join(old(self)@.placing_action(rect, align)),
            final(mgr).same_but_action(old(mgr)),
    {
        self.core.rect = rect;
        let data_len = self.data.len();
        self.state.lay_out(rect.size, align);
        self.state.data_start = 0;
        self.state.data_end = 0;
        let content_size = self.state.content(rect.size, data_len);
        let child_size = self.state.item_region(rect.size);
        let num = self.state.wanted(rect.size, data_len);
        let ghost data = texts(self.data@);
        let ghost pre = old(self)@;
        let ghost n0 = old(self).widgets@.len();
        let ghost laid = *self;
        let sizes = mgr.sizes;
        let changed = self.fit_widgets(&sizes, num, child_size);
        let ghost n = self.widgets@.len();
        let count = if changed {
            TkAction::Reconfigure
        } else {
            TkAction::Empty
        };
        mgr.send_action(count);
        let moved = self.state.scroll.set_sizes(rect.size, content_size);
        mgr.send_action(moved);
        proof {
            assert(laid@.children == pre.children) by {
                assert(laid@.children =~= pre.children);
            }
            assert(n == list_len(old(self).state, rect.size, n0 as nat, data.len()));
            assert(self.state == list_prepared(old(self).state, rect.size, align, data.len()));
            assert forall|j: int| 0 <= j < n implies (#[trigger] self@.children[j]).is_label()
                && self@.children[j].shaped() by {
                if j < n0 {
                    assert(pre.children[j].is_label());
                }
            }
            assert(self@.shaped());
            assert(self@.synced());
            lemma_join_is_least_upper_bound(
                old(mgr).action,
                count,
                old(self).state.scroll.move_action(self.state.scroll),
            );
            lemma_join_is_least_upper_bound(
                old(mgr).action,
                count.join(old(self).state.scroll.move_action(self.state.scroll)),
                refresh_action(self.state, n as nat, data.len()),
            );
        }
        self.update_widgets(mgr);
    }

    /// Draw the widgets that serve data, scrolled and clipped
    pub fn draw(&self, draw_handle: &mut DrawHandle, mgr: &ManagerState, disabled: bool)
        ensures
            final(draw_handle).cmds@ == old(draw_handle).cmds@ + self@.drawing(mgr, disabled),
        decreases self,
    {
        let below = disabled || self.core.disabled;
        draw_handle.push(
            DrawCmd::ClipBegin { rect: self.core.rect, offset: self.state.scroll.offset() },
        );
        let limit = self.served();
        let ghost start = draw_handle.cmds@;
        let mut i: usize = 0;
        proof {
            assert(start + self@.drawing_below(0, mgr, below) =~= start);
        }
        while i < limit
            invariant
                i <= limit <= self.widgets@.len(),
                limit == self@.hit_limit(),
                draw_handle.cmds@ == start + self@.drawing_below(i as nat, mgr, below),
            decreases limit - i,
        {
            self.widgets[i].draw(draw_handle, mgr, below);
            proof {
                assert(self@.children[i as int] == self.widgets@[i as int]@);
                assert(draw_handle.cmds@ =~= start + self@.drawing_below((i + 1) as nat, mgr, below));
            }
            i += 1;
        }
        draw_handle.push(DrawCmd::ClipEnd);
        proof {
            assert(draw_handle.cmds@ =~= old(draw_handle).cmds@ + self@.drawing(mgr, disabled));
        }
    }

    /// Manually trigger an update to handle changed data
    ///
    /// No data item counts as served, so that every widget is given its
    /// item anew. The size is set anew so that wrappers with scroll bars
    /// are brought up to date.
    ///
    /// This is what to call after the data was changed; the list is well
    /// formed afterwards, whatever became of the data.
    pub fn update_view(&mut self, mgr: &mut Manager)
        requires
            old(self)@.shaped(),
        ensures
            final(self).same_data(old(self)),
            final(self).state == refreshed_state(
                WidgetModel::unserved(old(self).state),
                old(self).widgets@.len() as nat,
                old(self).data@.len() as nat,
            ),
            refreshed(
                WidgetModel::unserved(old(self).state),
                old(self).core.rect,
                texts(old(self).data@),
                old(self)@.children,
                final(self)@.children,
            ),
            final(self)@.wf(),
            final(mgr).action == old(mgr).action.join(
                refresh_action(
                    WidgetModel::unserved(old(self).state),
                    old(self).widgets@.len() as nat,
                    old(self).data@.len() as nat,
                ).join(TkAction::SetSize),
            ),
            final(mgr).same_but_action(old(mgr)),
    {
        self.state.data_end = self.state.data_start;
        proof {
            assert(self@.children =~= old(self)@.children);
            assert forall|i: int| 0 <= i < self@.children.len() implies (#[trigger] self@.children[i]).is_label()
                && self@.children[i].shaped() by {
                assert(old(self)@.children[i].is_label());
            }
            assert(self@.synced());
            lemma_join_is_least_upper_bound(
                old(mgr).action,
                refresh_action(self.state, self.widgets@.len() as nat, self.data@.len() as nat),
                TkAction::SetSize,
            );
        }
        self.update_widgets(mgr);
        mgr.send_action(TkAction::SetSize);
    }

    /// Scroll to the given offset, as far as the content allows, and
    /// refresh the widgets
    ///
    /// Returns the offset that was set.
    #[inline]
    pub fn set_scroll_offset(&mut self, mgr: &mut Manager, offset: Offset) -> (r: Offset)
        requires
            old(self)@.shaped(),
        ensures
            r == clamp_offset(offset, old(self).state.scroll.max_offset),
            final(self).same_data(old(self)),
            final(self).state == refreshed_state(
                ListState { scroll: old(self).state.scroll.scrolled_to(offset), ..old(self).state },
                old(self).widgets@.len() as nat,
                old(self).data@.len() as nat,
            ),
            refreshed(
                ListState { scroll: old(self).state.scroll.scrolled_to(offset), ..old(self).state },
                old(self).core.rect,
                texts(old(self).data@),
                old(self)@.children,
                final(self)@.children,
            ),
            final(self)@.shaped(),
            old(self)@.wf() ==> final(self)@.wf(),
            final(mgr).action == old(mgr).action.join(
                old(self).state.scroll.move_action(old(self).state.scroll.scrolled_to(offset)),
            ).join(
                refresh_action(
                    ListState {
                        scroll: old(self).state.scroll.scrolled_to(offset),
                        ..old(self).state
                    },
                    old(self).widgets@.len() as nat,
                    old(self).data@.len() as nat,
                ),
            ),
            final(mgr).same_but_action(old(mgr)),
    {
        let moved = self.state.scroll.set_offset(offset);
        mgr.send_action(moved);
        proof {
            assert(self@.children =~= old(self)@.children);
            assert forall|i: int| 0 <= i < self@.children.len() implies (#[trigger] self@.children[i]).is_label()
                && self@.children[i].shaped() by {
                assert(old(self)@.children[i].is_label());
            }
            if old(self)@.wf() {
                assert(self@.synced());
            }
        }
        self.update_widgets(mgr);
        self.state.scroll.offset()
    }

    /// Replace the data, and bring the view up to date
    ///
    /// Every widget that serves an item is given its item anew, and the
    /// size is set anew, as by [`ListView::update_view`]. The list is well
    /// formed afterwards, be the new data longer or shorter than the old.
    pub fn set_data(&mut self, mgr: &mut Manager, data: Vec<String>)
        requires
            old(self)@.shaped(),
        ensures
            final(self).data == data,
            final(self).core == old(self).core,
            final(self).handle == old(self).handle,
            final(self).state == refreshed_state(
                WidgetModel::unserved(old(self).state),
                old(self).widgets@.len() as nat,
                data@.len() as nat,
            ),
            refreshed(
                WidgetModel::unserved(old(self).state),
                old(self).core.rect,
                texts(data@),
                old(self)@.children,
                final(self)@.children,
            ),
            final(self)@.wf(),
            final(mgr).action == old(mgr).action.join(
                refresh_action(
                    WidgetModel::unserved(old(self).state),
                    old(self).widgets@.len() as nat,
                    data@.len() as nat,
                ).join(TkAction::SetSize),
            ),
            final(mgr).same_but_action(old(mgr)),
    {
        self.data = data;
        proof {
            assert(self@.children =~= old(self)@.children);
            assert forall|i: int| 0 <= i < self@.children.len() implies (#[trigger] self@.children[i]).is_label()
                && self@.children[i].shaped() by {
                assert(old(self)@.children[i].is_label());
            }
        }
        self.update_view(mgr);
    }

    /// Register with the event manager: the list wants to be told when its
    /// data changes, if the data has an update handle, and takes the keys
    /// that no widget with navigation focus takes
    pub fn configure(&mut self, mgr: &mut Manager)
        ensures
            *final(self) == *old(self),
            registrations(final(mgr)) == old(self)@.registered(registrations(old(mgr))),
            final(mgr).same_but_registrations(old(mgr)),
    {
        if let Some(handle) = self.handle {
            mgr.update_on_handle(handle, self.core.id);
        }
        mgr.register_nav_fallback(self.core.id);
    }

    /// Index of the first widget, among those that serve data, that has
    /// the identifier `id`
    pub fn serving(&self, id: WidgetId) -> (r: Option<usize>)
        ensures
            match r {
                Some(i) => self@.serving(id) == Some(i as int) && i < self.widgets@.len(),
                None => self@.serving(id).is_none(),
            },
    {
        let limit = self.served();
        let mut i: usize = 0;
        while i < limit
            invariant
                i <= limit <= self.widgets@.len(),
                limit == self@.hit_limit(),
                self@.serving_index(i as nat, id).is_none(),
            decreases limit - i,
        {
            if self.widgets[i].id().0 == id.0 {
                proof {
                    assert(self@.children[i as int] == self.widgets@[i as int]@);
                    assert(self@.serving_index((i + 1) as nat, id) == Some(i as int));
                    crate::delivery::lemma_serving_index_stable(
                        self@,
                        (i + 1) as nat,
                        limit as nat,
                        id,
                    );
                }
                return Some(i);
            }
            proof {
                assert(self@.children[i as int] == self.widgets@[i as int]@);
            }
            i += 1;
        }
        None
    }

    /// Use an event to scroll, if it is one that scrolls
    ///
    /// Keys, the wheel and the movement of a grabbed press scroll the list;
    /// where that moves the content, the widgets are refreshed and the list
    /// asks for its region to be shown. The start of a primary press is
    /// answered by grabbing the press, so that its movement scrolls the
    /// list.
    pub fn scroll_by(&mut self, mgr: &mut Manager, event: Event) -> (r: Response<VoidMsg>)
        requires
            old(self)@.wf(),
            old(mgr).wf(),
        ensures
            r == old(self)@.scroll_reply(event).response,
            old(self)@.scrolled(final(self)@, event),
            old(mgr).received(final(mgr), old(self)@.scroll_reply(event)),
            final(self)@.wf(),
            final(mgr).wf(),
    {
        proof {
            crate::placement::lemma_wf_shaped(self@);
        }
        let id = self.core.id;
        let (action, response, press) = self.state.scroll.scroll_by_event(event, self.core.rect.size);
        if let Some((source, coord)) = press {
            if source.is_primary() {
                mgr.request_grab(id, source, coord, GrabMode::Grab, Some(CursorIcon::Grabbing));
            }
        }
        proof {
            assert forall|i: int| 0 <= i < self@.children.len() implies (#[trigger] self@.children[i]).is_label()
                && self@.children[i].shaped() by {
                assert(old(self)@.children[i].is_label());
            }
            assert(self@.synced());
            lemma_join_is_least_upper_bound(
                old(mgr).action,
                TkAction::RegionMoved,
                refresh_action(self.state, self.widgets@.len() as nat, self.data@.len() as nat),
            );
        }
        if !action.is_empty() {
            mgr.send_action(action);
            self.update_widgets(mgr);
            Response::Focus(self.core.rect)
        } else {
            response.void_into()
        }
    }

    /// Take the answer of one of the widgets that serve data to an event
    ///
    /// What the widget did not use, the list may use to scroll: see
    /// [`ListView::scroll_by`]. Where the widget asks for a region of the
    /// content to be shown, the list scrolls as little as it takes to bring
    /// the region into view, refreshes its widgets, and asks in turn for
    /// the region to be shown, where the region is seen after scrolling.
    /// Every other answer is the answer of the list.
    pub fn child_replied(&mut self, mgr: &mut Manager, response: Response<VoidMsg>) -> (r: Response<VoidMsg>)
        requires
            old(self)@.wf(),
            old(mgr).wf(),
        ensures
            r == old(self)@.answered(response).response,
            old(self)@.took(final(self)@, response),
            old(mgr).received(final(mgr), old(self)@.answered(response)),
            final(self)@.wf(),
            final(mgr).wf(),
    {
        proof {
            crate::placement::lemma_wf_shaped(self@);
        }
        match response {
            Response::Unhandled(event) => self.scroll_by(mgr, event),
            Response::Focus(rect) => {
                let (rect, action) = self.state.scroll.focus_rect(rect, self.core.rect);
                mgr.send_action(action);
                proof {
                    assert(self@.children =~= old(self)@.children);
                    assert forall|i: int| 0 <= i < self@.children.len() implies (
                    #[trigger] self@.children[i]).is_label() && self@.children[i].shaped() by {
                        assert(old(self)@.children[i].is_label());
                    }
                    assert(self@.synced());
                    lemma_join_is_least_upper_bound(
                        old(mgr).action,
                        action,
                        refresh_action(
                            self.state,
                            self.widgets@.len() as nat,
                            self.data@.len() as nat,
                        ),
                    );
                }
                self.update_widgets(mgr);
                Response::Focus(rect)
            },
            r => r,
        }
    }

    /// Handle an event that is addressed to the list itself
    ///
    /// Told that its data changed, the list refreshes all its widgets.
    /// Every other event it may use to scroll: see [`ListView::scroll_by`].
    pub fn handle(&mut self, mgr: &mut Manager, event: Event) -> (r: Response<VoidMsg>)
        requires
            old(self)@.wf(),
            old(mgr).wf(),
            !old(self).core.disabled,
        ensures
            r == old(self)@.reply(old(self).core.id, event).response,
            old(self)@.delivered(final(self)@, old(self).core.id, event),
            old(mgr).received(final(mgr), old(self)@.reply(old(self).core.id, event)),
            final(self)@.wf(),
            final(mgr).wf(),
    {
        proof {
            crate::placement::lemma_wf_shaped(self@);
        }
        match event {
            Event::HandleUpdate { .. } => {
                self.update_view(mgr);
                Response::Used
            },
            event => self.scroll_by(mgr, event),
        }
    }

    /// Send an event to a widget of the tree
    ///
    /// A disabled list uses nothing. What is addressed to one of the
    /// widgets that serve data is handed to that widget, at the place
    /// within the content; what becomes of the answer of the widget is told
    /// under [`ListView::child_replied`]; what becomes of an event for the
    /// list itself, under [`ListView::handle`].
    pub fn send(&mut self, mgr: &mut Manager, id: WidgetId, event: Event) -> (r: Response<VoidMsg>)
        requires
            old(self)@.wf(),
            old(mgr).wf(),
        ensures
            r == old(self)@.reply(id, event).response,
            old(self)@.delivered(final(self)@, id, event),
            old(mgr).received(final(mgr), old(self)@.reply(id, event)),
            final(self)@.wf(),
            final(mgr).wf(),
        decreases *old(self),
    {
        if self.core.disabled {
            return Response::Unhandled(event);
        }
        proof {
            crate::placement::lemma_wf_shaped(self@);
        }
        if id.0 != self.core.id.0 {
            proof {
                crate::delivery::lemma_list_hands_on(self@, id, event);
            }
            match self.serving(id) {
                None => Response::Unhandled(event),
                Some(i) => {
                    let event = self.state.scroll.offset_event(event);
                    proof {
                        assert(self@.children[i as int] == self.widgets@[i as int]@);
                        assert(self@.children[i as int].is_label());
                    }
                    let ghost before = self.widgets@;
                    let response = self.widgets[i].event(mgr, id, event);
                    proof {
                        assert(self.widgets@[i as int]@ == before[i as int]@);
                        assert forall|j: int| 0 <= j < self@.children.len() implies #[trigger] self@.children[j]
                            == old(self)@.children[j] by {
                            assert(self@.children[j] == self.widgets@[j]@);
                            assert(old(self)@.children[j] == before[j]@);
                        }
                        assert(self@.children =~= old(self)@.children);
                    }
                    self.child_replied(mgr, response)
                },
            }
        } else {
            self.handle(mgr, event)
        }
    }

    /// Get the number of child widgets
    #[inline]
    pub fn len(&self) -> (n: usize)
        ensures
            n == self.widgets@.len(),
    {
        self.widgets.len()
    }

    /// Get a reference to a child widget by index, or `None` if the index
    /// is out of bounds
    #[inline]
    pub fn get(&self, index: usize) -> (r: Option<&AnyWidget>)
        ensures
            index < self.widgets@.len() ==> r == Some(&self.widgets@[index as int]),
            index >= self.widgets@.len() ==> r.is_none(),
    {
        if index < self.widgets.len() {
            Some(&self.widgets[index])
        } else {
            None
        }
    }

    /// Mutable variant of get
    #[inline]
    pub fn get_mut(&mut self, index: usize) -> (r: Option<&mut AnyWidget>)
        ensures
            index >= old(self).widgets@.len() ==> r.is_none() && *final(self) == *old(self),
            index < old(self).widgets@.len() ==> {
                &&& r.is_some()
                &&& *r.unwrap() == old(self).widgets@[index as int]
                &&& final(self).widgets@ == old(self).widgets@.update(index as int, *final(r.unwrap()))
                &&& final(self).same_but_widgets(old(self))
            },
    {
        if index < self.widgets.len() {
            Some(&mut self.widgets[index])
        } else {
            None
        }
    }

    /// Number of widgets that serve data at the moment
    pub fn served(&self) -> (n: usize)
        ensures
            n == self@.hit_limit(),
    {
        let served = if self.state.data_end >= self.state.data_start {
            self.state.data_end - self.state.data_start
        } else {
            0
        };
        if served <= self.widgets.len() {
            served
        } else {
            self.widgets.len()
        }
    }

    /// Get size rules for the given axis
    ///
    /// The list measures its first widget; a list without widgets measures
    /// a label for its first data item. Along the list it asks for room
    /// for two items at the least and for the preferred number of items
    /// ideally.
    pub fn size_rules(&mut self, size_handle: &SizeHandle, axis: AxisInfo) -> (r: SizeRules)
        ensures
            r == old(self)@.rules(*size_handle, axis),
            final(self)@ == old(self)@.measured(*size_handle, axis),
        decreases *old(self),
    {
        if self.widgets.len() == 0 {
            // without a widget to measure, a label for the first data item
            // stands in; it is not kept
            let text = if self.data.len() > 0 {
                self.data[0].clone()
            } else {
                String::new()
            };
            let mut label = Label::new(text);
            let mut rules = label.size_rules(size_handle, axis);
            self.note_item_rules(&mut rules, axis);
            proof {
                assert(texts(old(self).data@).len() == old(self).data@.len());
                assert(self@.children =~= old(self)@.measured(*size_handle, axis).children);
            }
            rules
        } else {
            let mut rules = self.widgets[0].size_rules(size_handle, axis);
            self.note_item_rules(&mut rules, axis);
            proof {
                assert(self@.children =~= old(self)@.measured(*size_handle, axis).children);
            }
            rules
        }
    }

    /// Keep what the rules of one item say of its size along the list, and
    /// turn them into the rules of the list
    fn note_item_rules(&mut self, rules: &mut SizeRules, axis: AxisInfo)
        ensures
            final(self).state == crate::model::list_measured(old(self).state, *old(rules), axis),
            *final(rules) == crate::model::list_rules(old(self).state, *old(rules), axis),
            final(self).core == old(self).core,
            final(self).data == old(self).data,
            final(self).widgets == old(self).widgets,
            final(self).handle == old(self).handle,
    {
        if axis.is_vertical() == self.state.direction.is_vertical() {
            self.state.child_size_min = rules.min_size();
            self.state.child_size_ideal = rules.ideal_size();
            self.state.child_inter_margin = rules.margins_i32().0 + rules.margins_i32().1;
            rules.multiply_with_margin(2, self.state.ideal_visible);
            rules.set_stretch(rules.stretch().max(StretchPolicy::HighUtility));
        }
    }

    /// Find the widget at the given coordinate: what the first of the
    /// widgets that serve data names at that place of the content, or the
    /// list itself
    pub fn find_id(&self, coord: Coord) -> (r: Option<WidgetId>)
        ensures
            r == self@.hit(coord),
        decreases self,
    {
        if self.core.disabled || !self.core.rect.contains(coord) {
            return None;
        }
        let within = coord.offset_by(self.state.scroll.offset());
        let limit = self.served();
        let mut i: usize = 0;
        while i < limit
            invariant
                i <= limit <= self.widgets@.len(),
                limit == self@.hit_limit(),
                within == coord.moved(self.state.scroll.offset),
                !self.core.disabled,
                self.core.rect.covers(coord),
                self@.first_hit(i as nat, within).is_none(),
            decreases limit - i,
        {
            if let Some(id) = self.widgets[i].find_id(within) {
                proof {
                    crate::model::lemma_first_hit_stable(
                        self@,
                        (i + 1) as nat,
                        limit as nat,
                        within,
                    );
                }
                return Some(id);
            }
            i += 1;
        }
        Some(self.core.id)
    }
}

} // verus!
