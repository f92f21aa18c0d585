//! A row or a column of widgets

use crate::data::{CoreData, WidgetId};
use crate::draw::{DrawHandle, SizeHandle};
use crate::event::{Event, Manager, ManagerState, Response, VoidMsg};
use crate::geom::{Coord, Rect, Size};
use crate::layout::row::{row_rect, RowSetter, RowSolver, RulesSetter, RulesSolver};
use crate::layout::{AlignHints, AxisInfo, SizeRules};
use crate::model::{lemma_measured_all, measured_all, rules_of, WidgetModel};
use crate::toolkit::{lemma_join_is_least_upper_bound, TkAction};
use crate::traits::{EventHandler, Layout, WidgetCore};
use crate::widget::any::{models, route, AnyWidget};
use vstd::prelude::*;

verus! {

/// A row of widgets, or a column
///
/// The children lie one after the other, from left to right or, in a
/// column, from top to bottom. Along the row they share the extent of the
/// row by their size rules; across it each is as large as the row.
pub struct Row {
    pub core: CoreData,
    pub widgets: Vec<AnyWidget>,
    pub vertical: bool,
    /// Size rules of the children along the row, as they were last asked for
    pub rules: Vec<SizeRules>,
}

impl Row {
    /// Model of the row.
    pub open spec fn view(&self) -> WidgetModel {
        AnyWidget::Row(*self)@
    }

    /// Everything but the widgets is as in `other`.
    pub open spec fn same_but_widgets(&self, other: &Row) -> bool {
        &&& self.core == other.core
        &&& self.vertical == other.vertical
        &&& self.rules == other.rules
    }

    /// Construct a row of the given widgets, or a column if `vertical` is
    /// set
    pub fn new(vertical: bool, widgets: Vec<AnyWidget>) -> (r: Row)
        ensures
            r.widgets == widgets,
            r.vertical == vertical,
            r.rules@.len() == 0,
            r.core == (CoreData {
                id: WidgetId(0),
                rect: Rect { pos: Coord(0, 0), size: Size(0, 0) },
                disabled: false,
            }),
    {
        Row {
            core: CoreData {
                id: WidgetId(0),
                rect: Rect { pos: Coord(0, 0), size: Size(0, 0) },
                disabled: false,
            },
            widgets,
            vertical,
            rules: Vec::new(),
        }
    }

    /// True if there are no child widgets
    pub fn is_empty(&self) -> (r: bool)
        ensures
            r == (self.widgets@.len() == 0),
    {
        self.widgets.len() == 0
    }

    /// Returns the number of child widgets
    pub fn len(&self) -> (r: usize)
        ensures
            r == self.widgets@.len(),
    {
        self.widgets.len()
    }

    /// Append a child widget
    ///
    /// Triggers a reconfigure action.
    pub fn push(&mut self, widget: AnyWidget) -> (action: TkAction)
        ensures
            final(self).widgets@ == old(self).widgets@.push(widget),
            final(self).same_but_widgets(old(self)),
            action == TkAction::Reconfigure,
    {
        self.widgets.push(widget);
        TkAction::Reconfigure
    }

    /// Get size rules for the given axis: along the row the sum of the
    /// rules of the children, across it their maximum
    ///
    /// The row keeps the rules of its children along the row; by them it
    /// divides its region when it is given one.
    pub fn size_rules(&mut self, size_handle: &SizeHandle, axis: AxisInfo) -> (r: SizeRules)
        ensures
            r == old(self)@.rules(*size_handle, axis),
            final(self)@ == old(self)@.measured(*size_handle, axis),
        decreases *old(self),
    {
        let along = axis.is_vertical() == self.vertical;
        let mut solver = RowSolver::new(self.vertical, axis);
        let mut kept: Vec<SizeRules> = Vec::new();
        let n = self.widgets.len();
        let mut i: usize = 0;
        while i < n
            invariant
                i <= n,
                n == old(self).widgets@.len(),
                self.widgets@.len() == n,
                self.same_but_widgets(old(self)),
                along == (axis.vertical == self.vertical),
                solver.along == along,
                solver.rules == if along {
                    old(self)@.summed_rules(i as nat, *size_handle, axis)
                } else {
                    old(self)@.stacked_rules(i as nat, *size_handle, axis)
                },
                kept@.len() == i,
                forall|j: int|
                    0 <= j < i ==> #[trigger] kept@[j] == old(self).widgets@[j]@.rules(
                        *size_handle,
                        axis,
                    ),
                forall|j: int|
                    0 <= j < i ==> (#[trigger] self.widgets@[j])@ == old(self).widgets@[j]@.measured(
                        *size_handle,
                        axis,
                    ),
                forall|j: int| i <= j < n ==> #[trigger] self.widgets@[j] == old(self).widgets@[j],
            decreases n - i,
        {
            proof {
                assert(old(self)@.children[i as int] == old(self).widgets@[i as int]@);
            }
            let child_rules = self.widgets[i].size_rules(size_handle, axis);
            solver.for_child(child_rules);
            kept.push(child_rules);
            i += 1;
        }
        if along {
            self.rules = kept;
        }
        proof {
            lemma_measured_all(old(self)@.children, *size_handle, axis);
            assert(self@.children =~= measured_all(old(self)@.children, *size_handle, axis));
            if along {
                assert(self.rules@ =~= rules_of(old(self)@.children, *size_handle, axis));
            }
        }
        solver.finish()
    }

    /// Take the given region, and divide it among the children
    ///
    /// Each child gets the extent that its size rules earn it, see
    /// [`crate::layout::solver`]. A child whose rules were never asked
    /// for gets no room.
    pub fn set_rect(&mut self, mgr: &mut Manager, rect: Rect, align: AlignHints)
        requires
            old(self)@.shaped(),
        ensures
            old(self)@.placed(final(self)@, rect, align),
            final(self)@.wf(),
            final(mgr).action == old(mgr).action.join(old(self)@.placing_action(rect, align)),
            final(mgr).same_but_action(old(mgr)),
        decreases *old(self),
    {
        self.core.rect = rect;
        let setter = RowSetter::new(rect, self.vertical, &self.rules);
        let n = self.widgets.len();
        let mut i: usize = 0;
        while i < n
            invariant
                i <= n,
                n == old(self).widgets@.len(),
                self.widgets@.len() == n,
                self.core == (CoreData { rect, ..old(self).core }),
                self.vertical == old(self).vertical,
                self.rules == old(self).rules,
                setter.rect == rect,
                setter.vertical == self.vertical,
                setter.sizes@ == crate::layout::row::row_sizes(
                    self.rules@,
                    crate::layout::row::row_extent(rect, self.vertical),
                ),
                old(self)@.shaped(),
                mgr.action == old(mgr).action.join(
                    old(self)@.placing_action_along(i as nat, rect, align),
                ),
                mgr.same_but_action(old(mgr)),
                forall|j: int|
                    0 <= j < i ==> old(self).widgets@[j]@.placed(
                        (#[trigger] self.widgets@[j])@,
                        row_rect(rect, self.vertical, self.rules@, j),
                        align,
                    ) && self.widgets@[j]@.wf(),
                forall|j: int| i <= j < n ==> #[trigger] self.widgets@[j] == old(self).widgets@[j],
            decreases n - i,
        {
            let child_rect = if i < self.rules.len() {
                setter.child_rect(i)
            } else {
                Rect { pos: rect.pos, size: Size(0, 0) }
            };
            proof {
                assert(old(self)@.children[i as int] == old(self).widgets@[i as int]@);
                assert(child_rect == old(self)@.child_rect(rect, i as int));
                lemma_join_is_least_upper_bound(
                    old(mgr).action,
                    old(self)@.placing_action_along(i as nat, rect, align),
                    old(self)@.children[i as int].placing_action(child_rect, align),
                );
            }
            self.widgets[i].set_rect(mgr, child_rect, align);
            i += 1;
        }
        proof {
            assert forall|j: int| 0 <= j < n implies (#[trigger] old(self)@.children[j]).placed(
                self@.children[j],
                row_rect(rect, self.vertical, self.rules@, j),
                align,
            ) by {
                assert(self@.children[j] == self.widgets@[j]@);
            }
            assert forall|j: int| 0 <= j < n implies (#[trigger] self@.children[j]).wf() by {
                assert(self@.children[j] == self.widgets@[j]@);
            }
        }
    }

    /// Find the widget at the given coordinate: what the children name,
    /// asked in their order, or the row itself
    pub fn find_id(&self, coord: Coord) -> (r: Option<WidgetId>)
        ensures
            r == self@.hit(coord),
        decreases self,
    {
        if self.core.disabled || !self.core.rect.contains(coord) {
            return None;
        }
        let n = self.widgets.len();
        let mut i: usize = 0;
        while i < n
            invariant
                i <= n,
                n == self.widgets@.len(),
                !self.core.disabled,
                self.core.rect.covers(coord),
                self@.first_hit(i as nat, coord).is_none(),
            decreases n - i,
        {
            if let Some(id) = self.widgets[i].find_id(coord) {
                proof {
                    crate::model::lemma_first_hit_stable(self@, (i + 1) as nat, n as nat, coord);
                }
                return Some(id);
            }
            i += 1;
        }
        Some(self.core.id)
    }

    /// Draw the children, in their order
    pub fn draw(&self, draw_handle: &mut DrawHandle, mgr: &ManagerState, disabled: bool)
        ensures
            final(draw_handle).cmds@ == old(draw_handle).cmds@ + self@.drawing(mgr, disabled),
        decreases self,
    {
        let below = disabled || self.core.disabled;
        let n = self.widgets.len();
        let ghost start = draw_handle.cmds@;
        let mut i: usize = 0;
        proof {
            assert(start + self@.drawing_below(0, mgr, below) =~= start);
        }
        while i < n
            invariant
                i <= n,
                n == self.widgets@.len(),
                draw_handle.cmds@ == start + self@.drawing_below(i as nat, mgr, below),
            decreases n - i,
        {
            self.widgets[i].draw(draw_handle, mgr, below);
            proof {
                assert(self@.children[i as int] == self.widgets@[i as int]@);
                assert(draw_handle.cmds@ =~= start + self@.drawing_below((i + 1) as nat, mgr, below));
            }
            i += 1;
        }
    }

    /// Send an event to a widget of the tree: the row passes it to the
    /// child whose tree can hold the widget, and uses nothing itself
    pub fn event(&mut self, mgr: &mut Manager, id: WidgetId, event: Event) -> (r: Response<VoidMsg>)
        requires
            old(self)@.wf(),
            old(mgr).wf(),
        ensures
            r == old(self)@.reply(id, event).response,
            old(self)@.delivered(final(self)@, id, event),
            old(mgr).received(final(mgr), old(self)@.reply(id, event)),
            final(self)@.wf(),
            final(mgr).wf(),
        decreases *old(self),
    {
        if self.core.disabled || id.0 == self.core.id.0 {
            return Response::Unhandled(event);
        }
        proof {
            assert(models(self.widgets@) =~= self@.children);
        }
        match route(&self.widgets, id) {
            Some(p) => {
                let r = self.widgets[p].event(mgr, id, event);
                proof {
                    assert(final(self)@.children[p as int] == final(self).widgets@[p as int]@);
                    assert(old(self)@.children[p as int] == old(self).widgets@[p as int]@);
                    assert forall|j: int|
                        0 <= j < old(self)@.children.len() && j != p implies #[trigger] self@.children[j]
                        == old(self)@.children[j] by {
                        assert(self@.children[j] == self.widgets@[j]@);
                        assert(old(self)@.children[j] == old(self).widgets@[j]@);
                    }
                    assert forall|j: int| 0 <= j < self@.children.len() implies (
                    #[trigger] self@.children[j]).wf() by {
                        assert(self@.children[j] == self.widgets@[j]@);
                        assert(old(self)@.children[j] == old(self).widgets@[j]@);
                    }
                }
                r
            },
            None => Response::Unhandled(event),
        }
    }
}

} // verus!
