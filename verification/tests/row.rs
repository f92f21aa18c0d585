use kas::draw::{DrawCmd, DrawHandle, SizeHandle};
use kas::event::{Event, ManagerState};
use kas::geom::{Coord, Rect, Size};
use kas::layout::{AlignHints, AxisInfo, Margins, SizeRules, StretchPolicy};
use kas::widget::{AnyWidget, Label, ListView, Row};
use kas::{EventHandler, Layout, TkAction, WidgetChildren, WidgetCore, WidgetId};

fn sizes() -> SizeHandle {
    SizeHandle { frame: 2, margin: 0, line_height: 10, char_width: 5 }
}

fn label(text: &str) -> AnyWidget {
    AnyWidget::Label(Label::new(text.to_string()))
}

fn row() -> AnyWidget {
    AnyWidget::Row(Row::new(false, vec![label("ab"), label("abc")]))
}

#[test]
fn row_rules_add_up_along_and_take_the_maximum_across() {
    let mut row = row();
    let along = row.size_rules(&sizes(), AxisInfo::new(false, None));
    assert_eq!(along, SizeRules::fixed(25, Margins(0, 0)));
    let across = row.size_rules(&sizes(), AxisInfo::new(true, None));
    assert_eq!(across, SizeRules::fixed(10, Margins(0, 0)));
    if let AnyWidget::Row(r) = &row {
        assert_eq!(r.rules, vec![SizeRules::fixed(10, Margins(0, 0)), SizeRules::fixed(15, Margins(0, 0))]);
        assert_eq!(r.len(), 2);
        assert!(!r.is_empty());
    }
    let mut empty = AnyWidget::Row(Row::new(true, Vec::new()));
    assert_eq!(empty.size_rules(&sizes(), AxisInfo::new(true, None)), SizeRules::empty());
    assert_eq!(empty.widget_name(), "Row");
}

#[test]
fn row_divides_its_extent_among_its_children() {
    let mut row = row();
    let mut mgr = ManagerState::new(sizes());
    kas::layout::solve_size_rules(&mut row, &sizes(), Some(40), Some(10));
    row.set_rect(&mut mgr, Rect::new(Coord(100, 50), Size(40, 10)), AlignHints::none());
    assert_eq!(mgr.action, TkAction::Empty);
    // 15 pixels are left over: 7 each, and the odd one to the first child
    assert_eq!(row.get(0).unwrap().rect(), Rect::new(Coord(100, 50), Size(18, 10)));
    assert_eq!(row.get(1).unwrap().rect(), Rect::new(Coord(118, 50), Size(22, 10)));
    // too little room: every child gets what it needs at the least
    row.set_rect(&mut mgr, Rect::new(Coord(0, 0), Size(20, 10)), AlignHints::none());
    assert_eq!(row.get(0).unwrap().rect(), Rect::new(Coord(0, 0), Size(10, 10)));
    assert_eq!(row.get(1).unwrap().rect(), Rect::new(Coord(10, 0), Size(15, 10)));
}

#[test]
fn column_divides_its_height() {
    let mut column = AnyWidget::Row(Row::new(true, vec![label("ab"), label("abc"), label("")]));
    let mut mgr = ManagerState::new(sizes());
    kas::layout::solve_size_rules(&mut column, &sizes(), Some(30), Some(32));
    column.set_rect(&mut mgr, Rect::new(Coord(0, 0), Size(30, 32)), AlignHints::none());
    assert_eq!(column.get(0).unwrap().rect(), Rect::new(Coord(0, 0), Size(30, 11)));
    assert_eq!(column.get(1).unwrap().rect(), Rect::new(Coord(0, 11), Size(30, 11)));
    assert_eq!(column.get(2).unwrap().rect(), Rect::new(Coord(0, 22), Size(30, 10)));
}

#[test]
fn children_without_rules_get_no_room() {
    let mut row = row();
    let mut mgr = ManagerState::new(sizes());
    row.set_rect(&mut mgr, Rect::new(Coord(3, 4), Size(40, 10)), AlignHints::none());
    assert_eq!(row.get(0).unwrap().rect(), Rect::new(Coord(3, 4), Size(0, 0)));
    assert_eq!(row.get(1).unwrap().rect(), Rect::new(Coord(3, 4), Size(0, 0)));
}

#[test]
fn row_finds_draws_and_routes() {
    let mut row = row();
    row.assign_ids(1);
    let mut mgr = ManagerState::new(sizes());
    kas::layout::solve_size_rules(&mut row, &sizes(), Some(40), Some(10));
    row.set_rect(&mut mgr, Rect::new(Coord(0, 0), Size(40, 12)), AlignHints::none());
    assert_eq!(row.find_id(Coord(5, 5)), Some(WidgetId(2)));
    assert_eq!(row.find_id(Coord(17, 5)), Some(WidgetId(2)));
    assert_eq!(row.find_id(Coord(18, 5)), Some(WidgetId(3)));
    assert_eq!(row.find_id(Coord(40, 5)), None);
    let mut drawn = DrawHandle::new();
    row.draw(&mut drawn, &mgr, false);
    let ids: Vec<u64> = drawn
        .cmds
        .iter()
        .map(|cmd| match cmd {
            DrawCmd::Text { id, .. } => id.0,
            _ => 0,
        })
        .collect();
    assert_eq!(ids, vec![2, 3]);
    assert!(row.event(&mut mgr, WidgetId(3), Event::Activate).is_unhandled());
    assert!(row.event(&mut mgr, WidgetId(1), Event::Activate).is_unhandled());
    if let AnyWidget::Row(r) = &mut row {
        assert_eq!(r.push(label("c")), TkAction::Reconfigure);
    }
    assert_eq!(row.len(), 3);
}

#[test]
fn a_list_in_a_row_stretches() {
    let data = (0..50).map(|i| format!("i{}", i)).collect();
    let list = AnyWidget::List(ListView::new(data));
    let mut column = AnyWidget::Row(Row::new(true, vec![label("head"), list]));
    let rules = column.size_rules(&sizes(), AxisInfo::new(true, None));
    // the label needs 10, the list 20 at the least and 50 ideally
    assert_eq!(rules.min_size(), 30);
    assert_eq!(rules.ideal_size(), 60);
    assert_eq!(rules.stretch(), StretchPolicy::HighUtility);
    let mut mgr = ManagerState::new(sizes());
    column.size_rules(&sizes(), AxisInfo::new(false, None));
    column.size_rules(&sizes(), AxisInfo::new(true, None));
    column.set_rect(&mut mgr, Rect::new(Coord(0, 0), Size(50, 100)), AlignHints::none());
    // what is left over goes to the list, which alone makes use of it
    assert_eq!(column.get(0).unwrap().rect(), Rect::new(Coord(0, 0), Size(50, 10)));
    assert_eq!(column.get(1).unwrap().rect(), Rect::new(Coord(0, 10), Size(50, 90)));
    assert_eq!(column.get(1).unwrap().len(), 10);
    assert_eq!(mgr.action, TkAction::Reconfigure);
}
