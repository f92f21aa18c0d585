use kas::draw::SizeHandle;
use kas::event::ManagerState;
use kas::geom::{Coord, Rect, Size};
use kas::layout::{AlignHints, AxisInfo, Margins, SizeRules, StretchPolicy};
use kas::widget::{AnyWidget, Label, MenuFrame, Stack};
use kas::{Layout, TkAction, WidgetChildren, WidgetConfig, WidgetCore, WidgetId};

fn sizes() -> SizeHandle {
    SizeHandle { frame: 2, margin: 1, line_height: 10, char_width: 6 }
}

fn label(text: &str) -> AnyWidget {
    AnyWidget::Label(Label::new(text.to_string()))
}

/// A stack of a label, a frame around a stack of two labels, and a label
fn tree() -> AnyWidget {
    let inner = Stack::new(vec![label("a"), label("bb")], 1);
    let frame = MenuFrame::new(AnyWidget::Stack(inner));
    let root = Stack::new(vec![label("first"), AnyWidget::Frame(frame), label("last")], 1);
    AnyWidget::Stack(root)
}

fn configured() -> AnyWidget {
    let mut root = tree();
    let next = root.assign_ids(1);
    assert_eq!(next, 8);
    root
}

fn check_order(w: &AnyWidget) {
    for i in 0..w.len() {
        let child = w.get(i).unwrap();
        assert!(w.id() < child.id());
        if i + 1 < w.len() {
            assert!(child.id() < w.get(i + 1).unwrap().id());
        }
        check_order(child);
    }
}

#[test]
fn identifiers_follow_the_tree() {
    let root = configured();
    assert_eq!(root.id(), WidgetId(1));
    assert_eq!(root.get(0).unwrap().id(), WidgetId(2));
    let frame = root.get(1).unwrap();
    assert_eq!(frame.id(), WidgetId(3));
    let inner = frame.get(0).unwrap();
    assert_eq!(inner.id(), WidgetId(4));
    assert_eq!(inner.get(0).unwrap().id(), WidgetId(5));
    assert_eq!(inner.get(1).unwrap().id(), WidgetId(6));
    assert_eq!(root.get(2).unwrap().id(), WidgetId(7));
    check_order(&root);
    assert_eq!(root.count(), 7);
}

#[test]
fn walk_comes_to_children_first() {
    let root = configured();
    let mut seen = Vec::new();
    root.walk(&mut seen);
    let ids: Vec<u64> = seen.iter().map(|id| id.0).collect();
    assert_eq!(ids, vec![2, 5, 6, 4, 3, 7, 1]);
}

#[test]
fn find_and_find_mut_give_the_same_widget() {
    let mut root = configured();
    for id in 1..=7u64 {
        let name = {
            let found = root.find(WidgetId(id)).expect("every widget is found");
            assert_eq!(found.id(), WidgetId(id));
            (found.widget_name(), found.len())
        };
        let found = root.find_mut(WidgetId(id)).expect("every widget is found");
        assert_eq!(found.id(), WidgetId(id));
        assert_eq!((found.widget_name(), found.len()), name);
    }
    assert!(root.find(WidgetId(0)).is_none());
    assert!(root.find(WidgetId(8)).is_none());
    assert!(root.find_mut(WidgetId(0)).is_none());
    assert!(root.find_mut(WidgetId(8)).is_none());
}

#[test]
fn find_mut_changes_the_widget_in_the_tree() {
    let mut root = configured();
    let action = root.find_mut(WidgetId(6)).unwrap().set_disabled(true);
    assert_eq!(action, TkAction::RegionMoved);
    assert!(root.find(WidgetId(6)).is_none());
    assert!(root.find_mut(WidgetId(6)).unwrap().is_disabled());
    assert!(root.find(WidgetId(5)).is_some());
}

#[test]
fn find_passes_over_disabled_widgets() {
    let mut root = configured();
    root.find_mut(WidgetId(3)).unwrap().set_disabled(true);
    for id in [3u64, 4, 5, 6] {
        assert!(root.find(WidgetId(id)).is_none());
        assert!(root.find_mut(WidgetId(id)).is_some());
    }
    for id in [1u64, 2, 7] {
        assert!(root.find(WidgetId(id)).is_some());
    }
}

fn laid_out() -> (AnyWidget, ManagerState) {
    let mut root = configured();
    let mut mgr = ManagerState::new(sizes());
    kas::layout::solve_size_rules(&mut root, &sizes(), Some(100), Some(40));
    root.set_rect(&mut mgr, Rect::new(Coord(0, 0), Size(100, 40)), AlignHints::none());
    (root, mgr)
}

#[test]
fn set_rect_gives_every_widget_its_region() {
    let (root, mgr) = laid_out();
    assert_eq!(mgr.action, TkAction::Empty);
    assert_eq!(root.rect(), Rect::new(Coord(0, 0), Size(100, 40)));
    let frame = root.get(1).unwrap();
    assert_eq!(frame.rect(), Rect::new(Coord(0, 0), Size(100, 40)));
    // the content lies within the frame: two pixels on each side
    let inner = frame.get(0).unwrap();
    assert_eq!(inner.rect(), Rect::new(Coord(2, 2), Size(96, 36)));
    assert_eq!(inner.get(1).unwrap().rect(), Rect::new(Coord(2, 2), Size(96, 36)));
}

#[test]
fn find_id_names_the_widget_at_a_coordinate() {
    let (root, _) = laid_out();
    // the active child of the root is the frame; its stack shows its second label
    assert_eq!(root.find_id(Coord(50, 20)), Some(WidgetId(6)));
    // dead space within the frame, outside its content, belongs to the frame
    assert_eq!(root.find_id(Coord(1, 1)), Some(WidgetId(3)));
    assert_eq!(root.find_id(Coord(99, 39)), Some(WidgetId(3)));
    // outside the root there is nothing
    assert_eq!(root.find_id(Coord(100, 20)), None);
    assert_eq!(root.find_id(Coord(-1, 20)), None);
}

#[test]
fn disabled_widgets_are_not_found_by_coordinate() {
    let (mut root, _) = laid_out();
    root.find_mut(WidgetId(6)).unwrap().set_disabled(true);
    // the label is passed over; the stack that holds it answers
    assert_eq!(root.find_id(Coord(50, 20)), Some(WidgetId(4)));
    root.find_mut(WidgetId(3)).unwrap().set_disabled(true);
    // a disabled frame answers no coordinate, nor does anything within it
    assert_eq!(root.find_id(Coord(50, 20)), Some(WidgetId(1)));
    assert_eq!(root.get(1).unwrap().find_id(Coord(50, 20)), None);
    assert_eq!(root.get(1).unwrap().find_id(Coord(1, 1)), None);
    root.set_disabled(true);
    for x in [0, 1, 50, 99] {
        assert_eq!(root.find_id(Coord(x, 20)), None);
    }
}

#[test]
fn stack_without_active_child_answers_itself() {
    let mut stack = AnyWidget::Stack(Stack::new(vec![label("a")], 5));
    stack.assign_ids(1);
    let mut mgr = ManagerState::new(sizes());
    stack.set_rect(&mut mgr, Rect::new(Coord(0, 0), Size(10, 10)), AlignHints::none());
    assert_eq!(stack.find_id(Coord(5, 5)), Some(WidgetId(1)));
}

#[test]
fn size_rules_are_the_same_when_asked_again() {
    let mut root = tree();
    for axis in [AxisInfo::new(false, None), AxisInfo::new(true, Some(100))] {
        let first = root.size_rules(&sizes(), axis);
        let second = root.size_rules(&sizes(), axis);
        assert_eq!(first, second);
    }
}

#[test]
fn size_rules_of_the_kinds() {
    let sh = sizes();
    let horizontal = AxisInfo::new(false, None);
    let vertical = AxisInfo::new(true, None);
    let mut text = label("hello");
    assert_eq!(text.size_rules(&sh, horizontal), SizeRules::fixed(30, Margins(1, 1)));
    assert_eq!(text.size_rules(&sh, vertical), SizeRules::fixed(10, Margins(1, 1)));
    // a stack asks for the maximum over all its children
    let mut stack = AnyWidget::Stack(Stack::new(vec![label("a"), label("four")], 0));
    assert_eq!(stack.size_rules(&sh, horizontal), SizeRules::fixed(24, Margins(1, 1)));
    // an empty stack asks for nothing
    let mut empty = AnyWidget::Stack(Stack::new(Vec::new(), 0));
    assert_eq!(empty.size_rules(&sh, horizontal), SizeRules::empty());
    // a frame adds its two sides
    let mut frame = AnyWidget::Frame(MenuFrame::new(label("hello")));
    let rules = frame.size_rules(&sh, horizontal);
    assert_eq!(rules.min_size(), 34);
    assert_eq!(rules.ideal_size(), 34);
    assert_eq!(rules.stretch(), StretchPolicy::Fixed);
}

#[test]
fn core_accessors() {
    let mut root = configured();
    assert_eq!(root.widget_name(), "Stack");
    assert_eq!(root.get(0).unwrap().widget_name(), "Label");
    assert_eq!(root.get(1).unwrap().widget_name(), "MenuFrame");
    assert!(!root.is_disabled());
    assert!(!root.key_nav());
    root.core_data_mut().disabled = true;
    assert!(root.core_data().disabled);
    let mgr = ManagerState::new(sizes());
    let state = root.input_state(&mgr, false);
    assert!(state.disabled);
    assert!(!state.hover && !state.depress && !state.nav_focus && !state.char_focus);
    assert!(root.get(9).is_none());
    assert!(root.get_mut(9).is_none());
}
