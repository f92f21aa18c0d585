//! A widget of any kind

use crate::data::{CoreData, WidgetId};
use crate::draw::{DrawHandle, SizeHandle};
use crate::delivery::{lemma_leading, routed};
use crate::event::{Event, Manager, ManagerState, Response, VoidMsg};
use crate::geom::{Coord, Rect};
use crate::layout::{AlignHints, AxisInfo, SizeRules};
use crate::model::{lemma_search_descends, lemma_search_ends, Kind, WidgetModel};
use crate::placement::lemma_measured_wf;
use crate::toolkit::TkAction;
use crate::traits::{EventHandler, Layout, Widget, WidgetChildren, WidgetConfig, WidgetCore};
use crate::widget::label::Label;
use crate::widget::menu::menu_frame::MenuFrame;
use crate::widget::row::Row;
use crate::widget::stack::Stack;
use crate::widget::view::list::{texts, ListView};
use vstd::prelude::*;

verus! {

/// The models of the widgets `ws`.
pub open spec fn models(ws: Seq<AnyWidget>) -> Seq<WidgetModel> {
    Seq::new(ws.len(), |i: int| ws[i]@)
}

/// A widget of any of the kinds that this library knows
///
/// This is the type of the children of containers, which may hold widgets
/// of different kinds side by side.
pub enum AnyWidget {
    Label(Label),
    Frame(MenuFrame),
    Stack(Stack),
    Row(Row),
    List(ListView),
}

impl AnyWidget {
    /// Model of the widget.
    pub open spec fn view(&self) -> WidgetModel
        decreases self,
    {
        match self {
            AnyWidget::Label(w) => w@,
            AnyWidget::Frame(w) => WidgetModel {
                core: w.core,
                kind: Kind::Frame { offset: w.offset, size: w.size },
                children: seq![(*w.inner)@],
            },
            AnyWidget::Stack(w) => WidgetModel {
                core: w.core,
                kind: Kind::Stack { active: w.active },
                children: Seq::new(
                    w.widgets@.len(),
                    |i: int|
                        if 0 <= i < w.widgets@.len() {
                            w.widgets@[i]@
                        } else {
                            arbitrary()
                        },
                ),
            },
            AnyWidget::Row(w) => WidgetModel {
                core: w.core,
                kind: Kind::Row { vertical: w.vertical, rules: w.rules@ },
                children: Seq::new(
                    w.widgets@.len(),
                    |i: int|
                        if 0 <= i < w.widgets@.len() {
                            w.widgets@[i]@
                        } else {
                            arbitrary()
                        },
                ),
            },
            AnyWidget::List(w) => WidgetModel {
                core: w.core,
                kind: Kind::List { state: w.state, data: texts(w.data@), handle: w.handle },
                children: Seq::new(
                    w.widgets@.len(),
                    |i: int|
                        if 0 <= i < w.widgets@.len() {
                            w.widgets@[i]@
                        } else {
                            arbitrary()
                        },
                ),
            },
        }
    }
}

impl WidgetCore for AnyWidget {
    open spec fn view(&self) -> WidgetModel {
        AnyWidget::view(self)
    }

    fn core_data(&self) -> (r: &CoreData) {
        match self {
            AnyWidget::Label(w) => &w.core,
            AnyWidget::Frame(w) => &w.core,
            AnyWidget::Stack(w) => &w.core,
            AnyWidget::Row(w) => &w.core,
            AnyWidget::List(w) => &w.core,
        }
    }

    fn core_data_mut(&mut self) -> (r: &mut CoreData) {
        match self {
            AnyWidget::Label(w) => &mut w.core,
            AnyWidget::Frame(w) => &mut w.core,
            AnyWidget::Stack(w) => &mut w.core,
            AnyWidget::Row(w) => &mut w.core,
            AnyWidget::List(w) => &mut w.core,
        }
    }

    fn widget_name(&self) -> (r: &'static str) {
        proof {
            reveal_strlit("Label");
            reveal_strlit("MenuFrame");
            reveal_strlit("Stack");
            reveal_strlit("Row");
            reveal_strlit("ListView");
        }
        match self {
            AnyWidget::Label(_) => "Label",
            AnyWidget::Frame(_) => "MenuFrame",
            AnyWidget::Stack(_) => "Stack",
            AnyWidget::Row(_) => "Row",
            AnyWidget::List(_) => "ListView",
        }
    }
}

impl WidgetChildren for AnyWidget {
    fn len(&self) -> (n: usize) {
        match self {
            AnyWidget::Label(_) => 0,
            AnyWidget::Frame(_) => 1,
            AnyWidget::Stack(w) => w.widgets.len(),
            AnyWidget::Row(w) => w.widgets.len(),
            AnyWidget::List(w) => w.widgets.len(),
        }
    }

    fn get(&self, index: usize) -> (r: Option<&AnyWidget>) {
        match self {
            AnyWidget::Label(_) => None,
            AnyWidget::Frame(w) => if index == 0 {
                Some(&*w.inner)
            } else {
                None
            },
            AnyWidget::Stack(w) => if index < w.widgets.len() {
                Some(&w.widgets[index])
            } else {
                None
            },
            AnyWidget::Row(w) => if index < w.widgets.len() {
                Some(&w.widgets[index])
            } else {
                None
            },
            AnyWidget::List(w) => if index < w.widgets.len() {
                Some(&w.widgets[index])
            } else {
                None
            },
        }
    }

    fn get_mut(&mut self, index: usize) -> (r: Option<&mut AnyWidget>) {
        match self {
            AnyWidget::Label(_) => None,
            AnyWidget::Frame(w) => if index == 0 {
                Some(&mut *w.inner)
            } else {
                None
            },
            AnyWidget::Stack(w) => if index < w.widgets.len() {
                Some(&mut w.widgets[index])
            } else {
                None
            },
            AnyWidget::Row(w) => if index < w.widgets.len() {
                Some(&mut w.widgets[index])
            } else {
                None
            },
            AnyWidget::List(w) => if index < w.widgets.len() {
                Some(&mut w.widgets[index])
            } else {
                None
            },
        }
    }

    fn find(&self, id: WidgetId) -> (r: Option<&AnyWidget>)
        decreases self,
    {
        if self.is_disabled() {
            return None;
        }
        if id.0 == self.id().0 {
            assert(self@.shown()[0] == self@);
            return Some(self);
        }
        match self.child_for(id) {
            Some(p) => {
                proof {
                    lemma_search_descends(self@, id, p as nat);
                }
                match self.get(p) {
                    Some(w) => {
                        let r = w.find(id);
                        proof {
                            if let Some(found) = r {
                                let k = choose|k: int|
                                    0 <= k < w@.shown().len() && #[trigger] w@.shown()[k]
                                        == found@;
                                let j = crate::model::lemma_child_shown(self@, p as nat, k);
                                assert(self@.shown()[j] == found@);
                            }
                        }
                        r
                    },
                    None => None,
                }
            },
            None => None,
        }
    }

    fn walk(&self, seen: &mut Vec<WidgetId>)
        decreases self,
    {
        let n = self.len();
        let mut i: usize = 0;
        let ghost start = seen@;
        proof {
            assert(start + self@.walk_below(0) =~= start);
        }
        while i < n
            invariant
                i <= n,
                n == self@.children.len(),
                seen@ == start + self@.walk_below(i as nat),
            decreases n - i,
        {
            if let Some(w) = self.get(i) {
                w.walk(seen);
            }
            proof {
                assert(seen@ =~= start + self@.walk_below((i + 1) as nat));
            }
            i += 1;
        }
        seen.push(self.id());
        proof {
            assert(seen@ =~= old(seen)@ + self@.walk_order());
        }
    }

    fn find_mut(&mut self, id: WidgetId) -> (r: Option<&mut AnyWidget>)
        decreases *old(self),
    {
        if id.0 == self.id().0 {
            assert(self@.nodes()[0] == self@);
            return Some(self);
        }
        match self.child_for(id) {
            Some(p) => {
                proof {
                    lemma_search_descends(self@, id, p as nat);
                    crate::model::lemma_replaced_descends(self@, id, p as nat);
                }
                match self.get_mut(p) {
                    Some(w) => {
                        let ghost child = w@;
                        let r = w.find_mut(id);
                        proof {
                            if r.is_some() {
                                let found = r.unwrap()@;
                                let k = choose|k: int|
                                    0 <= k < child.nodes().len() && #[trigger] child.nodes()[k]
                                        == found;
                                crate::model::lemma_child_nodes(old(self)@, p as nat, k);
                            }
                        }
                        r
                    },
                    None => None,
                }
            },
            None => None,
        }
    }
}

impl Layout for AnyWidget {
    fn size_rules(&mut self, size_handle: &SizeHandle, axis: AxisInfo) -> (r: SizeRules)
        decreases *old(self),
    {
        proof {
            lemma_measured_wf(self@, *size_handle, axis);
        }
        match self {
            AnyWidget::Label(w) => w.size_rules(size_handle, axis),
            AnyWidget::Frame(w) => w.size_rules(size_handle, axis),
            AnyWidget::Stack(w) => w.size_rules(size_handle, axis),
            AnyWidget::Row(w) => w.size_rules(size_handle, axis),
            AnyWidget::List(w) => w.size_rules(size_handle, axis),
        }
    }

    fn set_rect(&mut self, mgr: &mut Manager, rect: Rect, align: AlignHints)
        decreases *old(self),
    {
        match self {
            AnyWidget::Label(w) => w.set_rect(mgr, rect, align),
            AnyWidget::Frame(w) => w.set_rect(mgr, rect, align),
            AnyWidget::Stack(w) => w.set_rect(mgr, rect, align),
            AnyWidget::Row(w) => w.set_rect(mgr, rect, align),
            AnyWidget::List(w) => w.set_rect(mgr, rect, align),
        }
    }

    fn draw(&self, draw_handle: &mut DrawHandle, mgr: &ManagerState, disabled: bool)
        decreases self,
    {
        match self {
            AnyWidget::Label(w) => w.draw(draw_handle, mgr, disabled),
            AnyWidget::Frame(w) => w.draw(draw_handle, mgr, disabled),
            AnyWidget::Stack(w) => w.draw(draw_handle, mgr, disabled),
            AnyWidget::Row(w) => w.draw(draw_handle, mgr, disabled),
            AnyWidget::List(w) => w.draw(draw_handle, mgr, disabled),
        }
    }

    fn find_id(&self, coord: Coord) -> (r: Option<WidgetId>)
        decreases self,
    {
        match self {
            AnyWidget::Label(w) => w.find_id(coord),
            AnyWidget::Frame(w) => w.find_id(coord),
            AnyWidget::Stack(w) => w.find_id(coord),
            AnyWidget::Row(w) => w.find_id(coord),
            AnyWidget::List(w) => w.find_id(coord),
        }
    }
}

impl EventHandler for AnyWidget {
    fn event(&mut self, mgr: &mut Manager, id: WidgetId, event: Event) -> (r: Response<VoidMsg>)
        decreases *old(self),
    {
        match self {
            AnyWidget::Label(w) => w.event(mgr, id, event),
            AnyWidget::Frame(w) => w.event(mgr, id, event),
            AnyWidget::Stack(w) => w.event(mgr, id, event),
            AnyWidget::Row(w) => w.event(mgr, id, event),
            AnyWidget::List(w) => w.send(mgr, id, event),
        }
    }
}

impl Widget for AnyWidget {
}

impl WidgetConfig for AnyWidget {
    fn configure(&mut self, mgr: &mut Manager) {
        match self {
            AnyWidget::List(w) => w.configure(mgr),
            _ => {},
        }
    }

    fn key_nav(&self) -> (r: bool) {
        match self {
            AnyWidget::Label(w) => w.key_nav,
            _ => false,
        }
    }
}

/// Index of the widget to which an event for `id` goes: the last of the
/// leading widgets whose identifiers are not greater than `id`
pub fn route(widgets: &Vec<AnyWidget>, id: WidgetId) -> (r: Option<usize>)
    ensures
        match r {
            Some(p) => routed(models(widgets@), id) == Some(p as int) && p < widgets@.len(),
            None => routed(models(widgets@), id).is_none(),
        },
{
    let mut i: usize = 0;
    while i < widgets.len() && widgets[i].id().0 <= id.0
        invariant
            i <= widgets@.len(),
            forall|j: int| 0 <= j < i ==> (#[trigger] models(widgets@)[j]).core.id.0 <= id.0,
        decreases widgets@.len() - i,
    {
        i += 1;
    }
    proof {
        lemma_leading(models(widgets@), id, i as int);
    }
    if i == 0 {
        None
    } else {
        Some(i - 1)
    }
}

impl AnyWidget {
    /// Index of the child whose tree can hold the widget `id`: the last
    /// child whose identifier is not greater than `id`
    ///
    /// Returns `None` where the tree cannot hold `id` below its root.
    pub fn child_for(&self, id: WidgetId) -> (r: Option<usize>)
        requires
            self@.configured(),
            id != self@.core.id,
        ensures
            match r {
                Some(p) => self@.child_for(id, p as nat),
                None => !self@.has_id(id) && !self@.shows_id(id),
            },
    {
        let n = self.len();
        let mut pick: Option<usize> = None;
        let mut i: usize = 0;
        while i < n
            invariant
                i <= n,
                n == self@.children.len(),
                self@.configured(),
                id != self@.core.id,
                i == 0 ==> pick.is_none(),
                i > 0 ==> pick == Some((i - 1) as usize) && self@.children[i - 1].core.id.0 <= id.0,
            decreases n - i,
        {
            match self.get(i) {
                Some(w) => {
                    if w.id().0 <= id.0 {
                        pick = Some(i);
                    } else {
                        proof {
                            if i == 0 {
                                lemma_search_ends(self@, id);
                            }
                        }
                        return pick;
                    }
                },
                None => {},
            }
            i += 1;
        }
        proof {
            if n == 0 {
                lemma_search_ends(self@, id);
            }
        }
        pick
    }
}

} // verus!
