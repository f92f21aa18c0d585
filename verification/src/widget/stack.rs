//! A stack

use crate::data::{CoreData, WidgetId};
use crate::draw::{DrawHandle, SizeHandle};
use crate::geom::{Coord, Rect, Size};
use crate::event::{Event, Manager, ManagerState, Response, VoidMsg};
use crate::layout::{AlignHints, AxisInfo, SizeRules};
use crate::toolkit::{lemma_join_is_least_upper_bound, TkAction};
use crate::model::{measured_all, Kind, WidgetModel};
use crate::traits::{EventHandler, Layout, WidgetCore};
use crate::widget::any::{models, route, AnyWidget};
use vstd::prelude::*;

verus! {

/// A stack of widgets
///
/// A stack consists a set of child widgets, all of equal size.
/// Only a single member is visible at a time.
///
/// Configuring and resizing elements is O(n) in the number of children.
/// Drawing and event handling is O(1).
pub struct Stack {
    pub core: CoreData,
    pub widgets: Vec<AnyWidget>,
    pub active: usize,
}

/// The widgets of `ws` whose flag in `flags` is set, in their order.
pub open spec fn picked(ws: Seq<AnyWidget>, flags: Seq<bool>) -> Seq<AnyWidget>
    decreases ws.len(),
{
    if ws.len() == 0 || flags.len() != ws.len() {
        Seq::empty()
    } else if flags.last() {
        picked(ws.drop_last(), flags.drop_last()).push(ws.last())
    } else {
        picked(ws.drop_last(), flags.drop_last())
    }
}

/// Number of elements a vector can hold without reallocating.
///
/// Calls `Vec::capacity`. How much room a vector has is up to the
/// allocator; what is claimed here is only that a vector has room for the
/// elements that it holds: its capacity is not less than its length.
#[verifier::external_body]
fn vec_capacity(widgets: &Vec<AnyWidget>) -> (r: usize)
    ensures
        r >= widgets@.len(),
{
    widgets.capacity()
}

impl Stack {
    /// Model of the stack.
    pub open spec fn view(&self) -> WidgetModel {
        AnyWidget::Stack(*self)@
    }

    /// Everything but the widgets is as in `other`.
    pub open spec fn same_but_widgets(&self, other: &Stack) -> bool {
        self.core == other.core && self.active == other.active
    }

    /// Construct a new instance
    ///
    /// If `active < widgets.len()`, then `widgets[active]` will initially be
    /// visible; otherwise, no widget will be visible.
    pub fn new(widgets: Vec<AnyWidget>, active: usize) -> (r: Stack)
        ensures
            r.widgets == widgets,
            r.active == active,
            r.core == (CoreData {
                id: WidgetId(0),
                rect: Rect { pos: Coord(0, 0), size: Size(0, 0) },
                disabled: false,
            }),
    {
        Stack {
            core: CoreData {
                id: WidgetId(0),
                rect: Rect { pos: Coord(0, 0), size: Size(0, 0) },
                disabled: false,
            },
            widgets,
            active,
        }
    }

    /// Get the index of the active widget
    pub fn active_index(&self) -> (r: usize)
        ensures
            r == self.active,
    {
        self.active
    }

    /// Change the active widget via index
    ///
    /// It is not required that `active < self.len()`; if not, no widget will be
    /// drawn or respond to events, but the stack will still size as required by
    /// child widgets.
    pub fn set_active(&mut self, active: usize) -> (action: TkAction)
        ensures
            final(self).active == active,
            final(self).core == old(self).core,
            final(self).widgets == old(self).widgets,
            action == TkAction::RegionMoved,
    {
        self.active = active;
        TkAction::RegionMoved
    }

    /// Get a direct reference to the active widget, if any
    pub fn active(&self) -> (r: Option<&AnyWidget>)
        ensures
            self.active < self.widgets@.len() ==> r == Some(&self.widgets@[self.active as int]),
            self.active >= self.widgets@.len() ==> r.is_none(),
    {
        if self.active < self.widgets.len() {
            Some(&self.widgets[self.active])
        } else {
            None
        }
    }

    /// Get a direct mutable reference to the active widget, if any
    pub fn active_mut(&mut self) -> (r: Option<&mut AnyWidget>)
        ensures
            old(self).active >= old(self).widgets@.len() ==> r.is_none() && *final(self) == *old(
                self,
            ),
            old(self).active < old(self).widgets@.len() ==> {
                &&& r.is_some()
                &&& *r.unwrap() == old(self).widgets@[old(self).active as int]
                &&& final(self).widgets@ == old(self).widgets@.update(
                    old(self).active as int,
                    *final(r.unwrap()),
                )
                &&& final(self).same_but_widgets(old(self))
            },
    {
        if self.active < self.widgets.len() {
            Some(&mut self.widgets[self.active])
        } else {
            None
        }
    }

    /// Get a reference to a child widget by index, or `None` if the index
    /// is out of bounds
    #[inline]
    pub fn get(&self, index: usize) -> (r: Option<&AnyWidget>)
        ensures
            index < self.widgets@.len() ==> r == Some(&self.widgets@[index as int]),
            index >= self.widgets@.len() ==> r.is_none(),
    {
        if index < self.widgets.len() {
            Some(&self.widgets[index])
        } else {
            None
        }
    }

    /// Mutable variant of get
    #[inline]
    pub fn get_mut(&mut self, index: usize) -> (r: Option<&mut AnyWidget>)
        ensures
            index >= old(self).widgets@.len() ==> r.is_none() && *final(self) == *old(self),
            index < old(self).widgets@.len() ==> {
                &&& r.is_some()
                &&& *r.unwrap() == old(self).widgets@[index as int]
                &&& final(self).widgets@ == old(self).widgets@.update(index as int, *final(r.unwrap()))
                &&& final(self).same_but_widgets(old(self))
            },
    {
        if index < self.widgets.len() {
            Some(&mut self.widgets[index])
        } else {
            None
        }
    }

    /// True if there are no child widgets
    pub fn is_empty(&self) -> (r: bool)
        ensures
            r == (self.widgets@.len() == 0),
    {
        self.widgets.len() == 0
    }

    /// Returns the number of child widgets
    pub fn len(&self) -> (r: usize)
        ensures
            r == self.widgets@.len(),
    {
        self.widgets.len()
    }

    /// Returns the number of elements the vector can hold without reallocating.
    ///
    /// The stack has room for the children that it has, at the least; how
    /// much more is up to the allocator.
    pub fn capacity(&self) -> (r: usize)
        ensures
            r >= self.widgets@.len(),
    {
        vec_capacity(&self.widgets)
    }

    /// Reserves capacity for at least `additional` more elements to be inserted
    /// into the list. See documentation of [`Vec::reserve`].
    pub fn reserve(&mut self, additional: usize)
        ensures
            final(self).widgets@ == old(self).widgets@,
            final(self).same_but_widgets(old(self)),
    {
        self.widgets.reserve(additional);
    }

    /// Remove all child widgets
    ///
    /// Triggers a reconfigure action if any widget is removed.
    pub fn clear(&mut self) -> (action: TkAction)
        ensures
            final(self).widgets@.len() == 0,
            final(self).same_but_widgets(old(self)),
            action == if old(self).widgets@.len() == 0 {
                TkAction::Empty
            } else {
                TkAction::Reconfigure
            },
    {
        let action = if self.widgets.len() == 0 {
            TkAction::Empty
        } else {
            TkAction::Reconfigure
        };
        self.widgets.clear();
        action
    }

    /// Append a child widget
    ///
    /// Triggers a reconfigure action.
    pub fn push(&mut self, widget: AnyWidget) -> (action: TkAction)
        ensures
            final(self).widgets@ == old(self).widgets@.push(widget),
            final(self).same_but_widgets(old(self)),
            action == TkAction::Reconfigure,
    {
        self.widgets.push(widget);
        TkAction::Reconfigure
    }

    /// Remove the last child widget
    ///
    /// Returns `None` if there are no children. Otherwise, this
    /// triggers a reconfigure before the next draw operation.
    ///
    /// Triggers a reconfigure action if any widget is removed.
    pub fn pop(&mut self) -> (r: (Option<AnyWidget>, TkAction))
        ensures
            final(self).same_but_widgets(old(self)),
            old(self).widgets@.len() == 0 ==> {
                &&& r.0.is_none()
                &&& r.1 == TkAction::Empty
                &&& final(self).widgets@ == old(self).widgets@
            },
            old(self).widgets@.len() > 0 ==> {
                &&& r.0 == Some(old(self).widgets@.last())
                &&& r.1 == TkAction::Reconfigure
                &&& final(self).widgets@ == old(self).widgets@.drop_last()
            },
    {
        let action = if self.widgets.len() == 0 {
            TkAction::Empty
        } else {
            TkAction::Reconfigure
        };
        (self.widgets.pop(), action)
    }

    /// Inserts a child widget position `index`
    ///
    /// `index` must not be greater than the number of children.
    ///
    /// Triggers a reconfigure action.
    pub fn insert(&mut self, index: usize, widget: AnyWidget) -> (action: TkAction)
        requires
            index <= old(self).widgets@.len(),
        ensures
            final(self).widgets@ == old(self).widgets@.insert(index as int, widget),
            final(self).same_but_widgets(old(self)),
            action == TkAction::Reconfigure,
    {
        self.widgets.insert(index, widget);
        TkAction::Reconfigure
    }

    /// Removes the child widget at position `index`
    ///
    /// `index` must be the index of a child.
    ///
    /// Triggers a reconfigure action.
    pub fn remove(&mut self, index: usize) -> (r: (AnyWidget, TkAction))
        requires
            index < old(self).widgets@.len(),
        ensures
            r.0 == old(self).widgets@[index as int],
            r.1 == TkAction::Reconfigure,
            final(self).widgets@ == old(self).widgets@.remove(index as int),
            final(self).same_but_widgets(old(self)),
    {
        let r = self.widgets.remove(index);
        (r, TkAction::Reconfigure)
    }

    /// Replace the child at `index`
    ///
    /// `index` must be the index of a child.
    ///
    /// Triggers a reconfigure action.
    pub fn replace(&mut self, index: usize, widget: AnyWidget) -> (r: (AnyWidget, TkAction))
        requires
            index < old(self).widgets@.len(),
        ensures
            r.0 == old(self).widgets@[index as int],
            r.1 == TkAction::Reconfigure,
            final(self).widgets@ == old(self).widgets@.update(index as int, widget),
            final(self).same_but_widgets(old(self)),
    {
        let mut widget = widget;
        std::mem::swap(&mut widget, &mut self.widgets[index]);
        (widget, TkAction::Reconfigure)
    }

    /// Append child widgets
    ///
    /// Triggers a reconfigure action if any widgets are added.
    pub fn extend(&mut self, widgets: Vec<AnyWidget>) -> (action: TkAction)
        ensures
            final(self).widgets@ == old(self).widgets@ + widgets@,
            final(self).same_but_widgets(old(self)),
            action == if widgets@.len() == 0 {
                TkAction::Empty
            } else {
                TkAction::Reconfigure
            },
    {
        let len = self.widgets.len();
        let mut widgets = widgets;
        self.widgets.append(&mut widgets);
        if len == self.widgets.len() {
            TkAction::Empty
        } else {
            TkAction::Reconfigure
        }
    }

    /// Resize, using the given closure to construct new widgets
    ///
    /// Children beyond `len` are dropped; where children are missing, the
    /// closure is called with the index of each to make it.
    ///
    /// Triggers a reconfigure action if the number of children changes.
    pub fn resize_with<F: Fn(usize) -> AnyWidget>(&mut self, len: usize, f: F) -> (action: TkAction)
        requires
            forall|i: usize| old(self).widgets@.len() <= i < len ==> call_requires(f, (i,)),
        ensures
            final(self).same_but_widgets(old(self)),
            final(self).widgets@.len() == len,
            forall|i: int|
                0 <= i < len && i < old(self).widgets@.len() ==> #[trigger] final(self).widgets@[i]
                    == old(self).widgets@[i],
            forall|i: usize|
                old(self).widgets@.len() <= i < len ==> call_ensures(
                    f,
                    (i,),
                    #[trigger] final(self).widgets@[i as int],
                ),
            action == if len == old(self).widgets@.len() {
                TkAction::Empty
            } else {
                TkAction::Reconfigure
            },
    {
        let l0 = self.widgets.len();
        if l0 == len {
            return TkAction::Empty;
        } else if l0 > len {
            self.widgets.truncate(len);
        } else {
            self.widgets.reserve(len - l0);
            let mut i = l0;
            while i < len
                invariant
                    l0 <= i <= len,
                    l0 == old(self).widgets@.len(),
                    self.widgets@.len() == i,
                    self.same_but_widgets(old(self)),
                    forall|j: usize| l0 <= j < len ==> call_requires(f, (j,)),
                    forall|j: int| 0 <= j < l0 ==> #[trigger] self.widgets@[j] == old(self).widgets@[j],
                    forall|j: usize|
                        l0 <= j < i ==> call_ensures(f, (j,), #[trigger] self.widgets@[j as int]),
                decreases len - i,
            {
                let w = f(i);
                self.widgets.push(w);
                i += 1;
            }
        }
        TkAction::Reconfigure
    }

    /// Retain only widgets satisfying predicate `f`
    ///
    /// The predicate is asked once for each child, in order. The children
    /// for which it says yes stay, in their order.
    ///
    /// Triggers a reconfigure action if any widgets are removed.
    pub fn retain<F: Fn(&AnyWidget) -> bool>(&mut self, f: F) -> (action: TkAction)
        requires
            forall|w: &AnyWidget| call_requires(f, (w,)),
        ensures
            final(self).same_but_widgets(old(self)),
            exists|flags: Seq<bool>|
                {
                    &&& flags.len() == old(self).widgets@.len()
                    &&& forall|i: int|
                        0 <= i < flags.len() ==> call_ensures(
                            f,
                            (&old(self).widgets@[i],),
                            #[trigger] flags[i],
                        )
                    &&& final(self).widgets@ == picked(old(self).widgets@, flags)
                },
            action == if final(self).widgets@.len() == old(self).widgets@.len() {
                TkAction::Empty
            } else {
                TkAction::Reconfigure
            },
    {
        let len = self.widgets.len();
        let ghost mut flags: Seq<bool> = Seq::empty();
        let mut i: usize = 0;
        proof {
            assert(old(self).widgets@.subrange(0, 0) =~= Seq::empty());
        }
        while i < self.widgets.len()
            invariant
                i <= self.widgets@.len(),
                self.same_but_widgets(old(self)),
                forall|w: &AnyWidget| call_requires(f, (w,)),
                flags.len() + (self.widgets@.len() - i) == old(self).widgets@.len(),
                forall|k: int|
                    0 <= k < flags.len() ==> call_ensures(
                        f,
                        (&old(self).widgets@[k],),
                        #[trigger] flags[k],
                    ),
                self.widgets@.subrange(0, i as int) == picked(
                    old(self).widgets@.subrange(0, flags.len() as int),
                    flags,
                ),
                self.widgets@.subrange(i as int, self.widgets@.len() as int) == old(
                    self,
                ).widgets@.subrange(flags.len() as int, old(self).widgets@.len() as int),
            decreases self.widgets@.len() - i,
        {
            let ghost before = self.widgets@;
            let ghost seen = flags.len() as int;
            proof {
                assert(before[i as int] == before.subrange(i as int, before.len() as int)[0]);
                assert(before[i as int] == old(self).widgets@[seen]);
            }
            let keep = f(&self.widgets[i]);
            proof {
                let upto = old(self).widgets@.subrange(0, seen + 1);
                assert(upto.drop_last() =~= old(self).widgets@.subrange(0, seen));
                assert(flags.push(keep).drop_last() =~= flags);
                flags = flags.push(keep);
            }
            if keep {
                i += 1;
                proof {
                    assert(self.widgets@.subrange(0, i as int) =~= self.widgets@.subrange(
                        0,
                        i - 1,
                    ).push(before[i - 1]));
                    assert(self.widgets@.subrange(i as int, self.widgets@.len() as int) =~= old(
                        self,
                    ).widgets@.subrange(flags.len() as int, old(self).widgets@.len() as int)) by {
                        let a = self.widgets@.subrange(i as int, self.widgets@.len() as int);
                        let b = old(self).widgets@.subrange(
                            flags.len() as int,
                            old(self).widgets@.len() as int,
                        );
                        assert forall|k: int| 0 <= k < a.len() implies a[k] == b[k] by {
                            assert(a[k] == before.subrange(i - 1, before.len() as int)[k + 1]);
                        }
                    }
                }
            } else {
                self.widgets.remove(i);
                proof {
                    assert(self.widgets@.subrange(0, i as int) =~= before.subrange(0, i as int));
                    assert(self.widgets@.subrange(i as int, self.widgets@.len() as int) =~= old(
                        self,
                    ).widgets@.subrange(flags.len() as int, old(self).widgets@.len() as int)) by {
                        let a = self.widgets@.subrange(i as int, self.widgets@.len() as int);
                        let b = old(self).widgets@.subrange(
                            flags.len() as int,
                            old(self).widgets@.len() as int,
                        );
                        assert forall|k: int| 0 <= k < a.len() implies a[k] == b[k] by {
                            assert(a[k] == before.subrange(i as int, before.len() as int)[k + 1]);
                        }
                    }
                }
            }
        }
        proof {
            assert(self.widgets@.subrange(0, i as int) =~= self.widgets@);
            assert(old(self).widgets@.subrange(0, flags.len() as int) =~= old(self).widgets@);
        }
        if len == self.widgets.len() {
            TkAction::Empty
        } else {
            TkAction::Reconfigure
        }
    }

    /// Get size rules for the given axis: the maximum of the rules of all
    /// children, shown or not
    pub fn size_rules(&mut self, size_handle: &SizeHandle, axis: AxisInfo) -> (r: SizeRules)
        ensures
            r == old(self)@.rules(*size_handle, axis),
            final(self)@ == old(self)@.measured(*size_handle, axis),
        decreases *old(self),
    {
        let mut rules = SizeRules::empty();
        let n = self.widgets.len();
        let mut i: usize = 0;
        while i < n
            invariant
                i <= n,
                n == old(self).widgets@.len(),
                self.widgets@.len() == n,
                self.core == old(self).core,
                self.active == old(self).active,
                rules == old(self)@.stacked_rules(i as nat, *size_handle, axis),
                forall|j: int|
                    0 <= j < i ==> (#[trigger] self.widgets@[j])@ == old(self).widgets@[j]@.measured(
                        *size_handle,
                        axis,
                    ),
                forall|j: int| i <= j < n ==> #[trigger] self.widgets@[j] == old(self).widgets@[j],
            decreases n - i,
        {
            let child_rules = self.widgets[i].size_rules(size_handle, axis);
            rules = rules.max(child_rules);
            i += 1;
        }
        proof {
            assert(self@.children =~= measured_all(old(self)@.children, *size_handle, axis));
        }
        rules
    }

    /// Take the given region, and give it to each child
    pub fn set_rect(&mut self, mgr: &mut Manager, rect: Rect, align: AlignHints)
        requires
            old(self)@.shaped(),
        ensures
            old(self)@.placed(final(self)@, rect, align),
            final(self)@.wf(),
            final(mgr).action == old(mgr).action.join(old(self)@.placing_action(rect, align)),
            final(mgr).same_but_action(old(mgr)),
        decreases *old(self),
    {
        self.core.rect = rect;
        let n = self.widgets.len();
        let mut i: usize = 0;
        while i < n
            invariant
                i <= n,
                n == old(self).widgets@.len(),
                self.widgets@.len() == n,
                self.core == (CoreData { rect, ..old(self).core }),
                self.active == old(self).active,
                old(self)@.shaped(),
                mgr.action == old(mgr).action.join(
                    old(self)@.placing_action_below(i as nat, rect, align),
                ),
                mgr.same_but_action(old(mgr)),
                forall|j: int|
                    0 <= j < i ==> old(self).widgets@[j]@.placed(
                        (#[trigger] self.widgets@[j])@,
                        rect,
                        align,
                    ) && self.widgets@[j]@.wf(),
                forall|j: int| i <= j < n ==> #[trigger] self.widgets@[j] == old(self).widgets@[j],
            decreases n - i,
        {
            proof {
                assert(old(self)@.children[i as int] == old(self).widgets@[i as int]@);
                lemma_join_is_least_upper_bound(
                    old(mgr).action,
                    old(self)@.placing_action_below(i as nat, rect, align),
                    old(self)@.children[i as int].placing_action(rect, align),
                );
            }
            self.widgets[i].set_rect(mgr, rect, align);
            i += 1;
        }
        proof {
            assert forall|j: int| 0 <= j < n implies (#[trigger] old(self)@.children[j]).placed(
                self@.children[j],
                rect,
                align,
            ) by {
                assert(self@.children[j] == self.widgets@[j]@);
            }
            assert forall|j: int| 0 <= j < n implies (#[trigger] self@.children[j]).wf() by {
                assert(self@.children[j] == self.widgets@[j]@);
            }
        }
    }

    /// Draw the active child, if there is one
    pub fn draw(&self, draw_handle: &mut DrawHandle, mgr: &ManagerState, disabled: bool)
        ensures
            final(draw_handle).cmds@ == old(draw_handle).cmds@ + self@.drawing(mgr, disabled),
        decreases self,
    {
        if self.active < self.widgets.len() {
            self.widgets[self.active].draw(draw_handle, mgr, disabled || self.core.disabled);
        } else {
            proof {
                assert(draw_handle.cmds@ =~= old(draw_handle).cmds@ + self@.drawing(mgr, disabled));
            }
        }
    }

    /// Send an event to a widget of the tree: the stack passes it to the
    /// child whose tree can hold the widget, be that child shown or not,
    /// and uses nothing itself
    pub fn event(&mut self, mgr: &mut Manager, id: WidgetId, event: Event) -> (r: Response<VoidMsg>)
        requires
            old(self)@.wf(),
            old(mgr).wf(),
        ensures
            r == old(self)@.reply(id, event).response,
            old(self)@.delivered(final(self)@, id, event),
            old(mgr).received(final(mgr), old(self)@.reply(id, event)),
            final(self)@.wf(),
            final(mgr).wf(),
        decreases *old(self),
    {
        if self.core.disabled || id.0 == self.core.id.0 {
            return Response::Unhandled(event);
        }
        proof {
            assert(models(self.widgets@) =~= self@.children);
        }
        match route(&self.widgets, id) {
            Some(p) => {
                let r = self.widgets[p].event(mgr, id, event);
                proof {
                    assert(final(self)@.children[p as int] == final(self).widgets@[p as int]@);
                    assert(old(self)@.children[p as int] == old(self).widgets@[p as int]@);
                    assert forall|j: int|
                        0 <= j < old(self)@.children.len() && j != p implies #[trigger] self@.children[j]
                        == old(self)@.children[j] by {
                        assert(self@.children[j] == self.widgets@[j]@);
                        assert(old(self)@.children[j] == old(self).widgets@[j]@);
                    }
                    assert forall|j: int| 0 <= j < self@.children.len() implies (
                    #[trigger] self@.children[j]).wf() by {
                        assert(self@.children[j] == self.widgets@[j]@);
                        assert(old(self)@.children[j] == old(self).widgets@[j]@);
                    }
                }
                r
            },
            None => Response::Unhandled(event),
        }
    }

    /// Find the widget at the given coordinate: what the active child
    /// names, or the stack itself
    pub fn find_id(&self, coord: Coord) -> (r: Option<WidgetId>)
        ensures
            r == self@.hit(coord),
        decreases self,
    {
        if self.core.disabled || !self.core.rect.contains(coord) {
            return None;
        }
        if self.active < self.widgets.len() {
            if let Some(id) = self.widgets[self.active].find_id(coord) {
                return Some(id);
            }
        }
        Some(self.core.id)
    }
}

} // verus!
