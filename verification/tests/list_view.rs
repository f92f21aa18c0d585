use kas::draw::SizeHandle;
use kas::event::{ControlKey, Event, Input, ManagerState, MouseButton, PressSource, Response, UpdateHandle};
use kas::geom::{Coord, Offset, Rect, Size};
use kas::layout::{AlignHints, AxisInfo, Direction, StretchPolicy};
use kas::widget::{AnyWidget, ListView};
use kas::{EventHandler, Layout, TkAction, WidgetId};

fn sizes() -> SizeHandle {
    SizeHandle { frame: 2, margin: 0, line_height: 10, char_width: 6 }
}

fn items(n: usize) -> Vec<String> {
    (0..n).map(|i| format!("item {}", i)).collect()
}

fn texts(list: &ListView) -> Vec<String> {
    list.widgets
        .iter()
        .map(|w| match w {
            AnyWidget::Label(l) => l.text.clone(),
            _ => panic!("the widgets of a list are labels"),
        })
        .collect()
}

/// A list of ten thousand items in a viewport that shows five at a time
fn big_list() -> (ListView, ManagerState) {
    let mut list = ListView::new(items(10_000));
    let mut mgr = ManagerState::new(sizes());
    list.size_rules(&sizes(), AxisInfo::new(false, None));
    list.size_rules(&sizes(), AxisInfo::new(true, None));
    // items are 10 high and follow each other without margin; 35 pixels
    // hold three and a half, so that five can be seen in part
    list.set_rect(&mut mgr, Rect::new(Coord(0, 0), Size(80, 35)), AlignHints::none());
    (list, mgr)
}

#[test]
fn size_rules_ask_for_several_items() {
    let mut list = ListView::new(items(100)).with_num_visible(4);
    let along = list.size_rules(&sizes(), AxisInfo::new(true, None));
    assert_eq!(along.min_size(), 20);
    assert_eq!(along.ideal_size(), 40);
    assert_eq!(along.stretch(), StretchPolicy::HighUtility);
    let across = list.size_rules(&sizes(), AxisInfo::new(false, None));
    assert_eq!(across.min_size(), 36);
    assert_eq!(across.stretch(), StretchPolicy::Fixed);
    assert_eq!(list.state.child_size_min, 10);
    assert_eq!(list.state.child_size_ideal, 10);
    assert_eq!(list.state.child_inter_margin, 0);
    // asking makes no widget
    assert_eq!(list.len(), 0);
}

#[test]
fn set_rect_makes_the_widgets_that_can_be_seen() {
    let (list, mgr) = big_list();
    assert_eq!(mgr.action, TkAction::Reconfigure);
    assert_eq!(list.len(), 5);
    assert_eq!(list.state.child_skip, 10);
    assert_eq!(list.state.child_size, 10);
    assert_eq!((list.state.data_start, list.state.data_end), (0, 5));
    assert_eq!(list.max_scroll_offset(), Offset(0, 100_000 - 35));
    assert_eq!(texts(&list), vec!["item 0", "item 1", "item 2", "item 3", "item 4"]);
    for (i, w) in list.widgets.iter().enumerate() {
        match w {
            AnyWidget::Label(l) => {
                assert_eq!(l.core.rect, Rect::new(Coord(0, 10 * i as i32), Size(80, 10)))
            }
            _ => panic!("the widgets of a list are labels"),
        }
    }
    assert_eq!(list.scroll_axes(Size(80, 35)), (false, true));
    assert_eq!(list.direction(), Direction::Down);
}

#[test]
fn scrolling_serves_the_visible_range() {
    let (mut list, mut mgr) = big_list();
    let offset = list.set_scroll_offset(&mut mgr, Offset(0, 1234));
    assert_eq!(offset, Offset(0, 1234));
    assert_eq!(list.scroll_offset(), Offset(0, 1234));
    // the first item that can be seen is item 123
    assert_eq!((list.state.data_start, list.state.data_end), (123, 128));
    // item d is served by widget d % 5
    assert_eq!(texts(&list), vec!["item 125", "item 126", "item 127", "item 123", "item 124"]);
    for d in 123..128usize {
        match &list.widgets[d % 5] {
            AnyWidget::Label(l) => {
                assert_eq!(l.text, format!("item {}", d));
                assert_eq!(l.core.rect, Rect::new(Coord(0, 10 * d as i32), Size(80, 10)));
            }
            _ => panic!("the widgets of a list are labels"),
        }
    }
}

#[test]
fn scrolling_to_the_end_serves_the_last_items() {
    let (mut list, mut mgr) = big_list();
    let offset = list.set_scroll_offset(&mut mgr, Offset(0, 1_000_000));
    assert_eq!(offset, Offset(0, 100_000 - 35));
    assert_eq!((list.state.data_start, list.state.data_end), (9_995, 10_000));
    assert_eq!(
        texts(&list),
        vec!["item 9995", "item 9996", "item 9997", "item 9998", "item 9999"]
    );
}

#[test]
fn widgets_that_serve_their_item_already_are_left_alone() {
    let (mut list, mut mgr) = big_list();
    list.set_scroll_offset(&mut mgr, Offset(0, 1230));
    assert_eq!((list.state.data_start, list.state.data_end), (123, 128));
    // change the data behind the back of the list
    for d in 120..132 {
        list.data_mut()[d] = format!("changed {}", d);
    }
    // one item on: items 124 to 127 were served before and are not given
    // anew; item 128 is new and is given to the widget that served item 123
    mgr.take_action();
    list.set_scroll_offset(&mut mgr, Offset(0, 1240));
    assert_eq!((list.state.data_start, list.state.data_end), (124, 129));
    assert_eq!(
        texts(&list),
        vec!["item 125", "item 126", "item 127", "changed 128", "item 124"]
    );
    assert_eq!(mgr.take_action(), TkAction::RegionMoved);
    // told that the data changed, the list gives every widget its item anew
    mgr.take_action();
    list.update_view(&mut mgr);
    assert_eq!(mgr.action, TkAction::SetSize);
    assert_eq!(
        texts(&list),
        vec!["changed 125", "changed 126", "changed 127", "changed 128", "changed 124"]
    );
}

#[test]
fn short_data_needs_few_widgets() {
    let mut list = ListView::new(items(3));
    let mut mgr = ManagerState::new(sizes());
    list.size_rules(&sizes(), AxisInfo::new(true, None));
    list.set_rect(&mut mgr, Rect::new(Coord(5, 5), Size(80, 100)), AlignHints::none());
    assert_eq!(list.len(), 3);
    assert_eq!((list.state.data_start, list.state.data_end), (0, 3));
    assert_eq!(list.max_scroll_offset(), Offset(0, 0));
    assert_eq!(texts(&list), vec!["item 0", "item 1", "item 2"]);
    // nothing changes when laid out again
    mgr.take_action();
    list.set_rect(&mut mgr, Rect::new(Coord(5, 5), Size(80, 100)), AlignHints::none());
    assert_eq!(mgr.action, TkAction::Redraw);
    assert_eq!(list.len(), 3);
    let empty = ListView::new(Vec::new());
    assert_eq!(empty.len(), 0);
}

#[test]
fn widgets_are_dropped_only_when_many_are_spare() {
    let mut list = ListView::new(items(1000));
    let mut mgr = ManagerState::new(sizes());
    list.size_rules(&sizes(), AxisInfo::new(true, None));
    list.set_rect(&mut mgr, Rect::new(Coord(0, 0), Size(80, 1000)), AlignHints::none());
    assert_eq!(list.len(), 101);
    mgr.take_action();
    // a little smaller: the widgets are kept
    list.set_rect(&mut mgr, Rect::new(Coord(0, 0), Size(80, 500)), AlignHints::none());
    assert_eq!(list.len(), 101);
    assert!(mgr.action < TkAction::Reconfigure);
    // much smaller: 64 or more are spare and dropped
    list.set_rect(&mut mgr, Rect::new(Coord(0, 0), Size(80, 100)), AlignHints::none());
    assert_eq!(list.len(), 11);
    assert_eq!(mgr.action, TkAction::Reconfigure);
    assert_eq!((list.state.data_start, list.state.data_end), (0, 11));
}

#[test]
fn find_id_looks_at_the_place_within_the_content() {
    let (list, _) = big_list();
    let mut list = AnyWidget::List(list);
    list.assign_ids(1);
    let mut mgr = ManagerState::new(sizes());
    assert_eq!(list.find_id(Coord(10, 5)), Some(WidgetId(2)));
    assert_eq!(list.find_id(Coord(10, 25)), Some(WidgetId(4)));
    assert_eq!(list.find_id(Coord(10, 40)), None);
    if let AnyWidget::List(l) = &mut list {
        l.set_scroll_offset(&mut mgr, Offset(0, 1234));
    }
    // at offset 1234 the pointer at 5 is over item 123, served by widget 3
    assert_eq!(list.find_id(Coord(10, 5)), Some(WidgetId(5)));
    assert_eq!(list.find_id(Coord(10, 6)), Some(WidgetId(6)));
}

#[test]
fn events_scroll_the_list() {
    let (list, _) = big_list();
    let mut list = AnyWidget::List(list);
    list.assign_ids(1);
    let mut mgr = ManagerState::new(sizes());
    // a key for the list itself
    match list.event(&mut mgr, WidgetId(1), Event::Control(ControlKey::Down)) {
        Response::Focus(rect) => assert_eq!(rect, Rect::new(Coord(0, 0), Size(80, 35))),
        _ => panic!("scrolling asks for the list to be shown"),
    }
    assert_eq!(mgr.take_action(), TkAction::RegionMoved);
    // the wheel over a widget of the list: the widget does not use it, the list does
    match list.event(&mut mgr, WidgetId(3), Event::Scroll(Offset(0, -50))) {
        Response::Focus(_) => {}
        _ => panic!("scrolling asks for the list to be shown"),
    }
    if let AnyWidget::List(l) = &list {
        assert_eq!(l.scroll_offset(), Offset(0, 80));
        assert_eq!((l.state.data_start, l.state.data_end), (8, 13));
    }
    // at the start the list cannot scroll back: the event is used, nothing moves
    let mut top = AnyWidget::List(big_list().0);
    top.assign_ids(1);
    mgr.take_action();
    assert!(top.event(&mut mgr, WidgetId(1), Event::Control(ControlKey::Home)).is_none());
    assert_eq!(mgr.action, TkAction::Empty);
    // what does not scroll comes back
    assert!(top.event(&mut mgr, WidgetId(1), Event::Activate).is_unhandled());
    // what is addressed to nobody in the list comes back
    assert!(top.event(&mut mgr, WidgetId(77), Event::Scroll(Offset(0, -50))).is_unhandled());
}

#[test]
fn primary_press_is_grabbed() {
    let (list, _) = big_list();
    let mut list = AnyWidget::List(list);
    list.assign_ids(1);
    let mut mgr = ManagerState::new(sizes());
    let right = PressSource::Mouse(MouseButton::Right);
    assert!(list.event(&mut mgr, WidgetId(2), Event::PressStart { source: right, coord: Coord(1, 1) }).is_none());
    assert!(mgr.grabs.is_empty());
    let left = PressSource::Mouse(MouseButton::Left);
    assert!(list.event(&mut mgr, WidgetId(2), Event::PressStart { source: left, coord: Coord(1, 1) }).is_none());
    assert_eq!(mgr.grabs.len(), 1);
    assert_eq!(mgr.grabs[0].id, WidgetId(1));
    assert_eq!(mgr.grabs[0].source, left);
    assert!(mgr.is_depressed(WidgetId(1)));
    assert_eq!(mgr.action, TkAction::Redraw);
}

#[test]
fn disabled_list_uses_nothing() {
    let (mut list, mut mgr) = big_list();
    list.core.disabled = true;
    mgr.take_action();
    assert!(list.send(&mut mgr, WidgetId(0), Event::Control(ControlKey::Down)).is_unhandled());
    assert_eq!(list.scroll_offset(), Offset(0, 0));
    assert_eq!(mgr.action, TkAction::Empty);
}

#[test]
fn update_handle_is_registered_when_configured() {
    let list = ListView::new_with_direction(Direction::Right, items(4))
        .with_update_handle(UpdateHandle(9));
    let mut root = AnyWidget::List(list);
    let mut mgr = ManagerState::new(sizes());
    mgr.configure(&mut root);
    assert_eq!(mgr.nav_fallback, Some(WidgetId(1)));
    assert_eq!(mgr.subscribers(UpdateHandle(9)), vec![WidgetId(1)]);
    assert!(mgr.subscribers(UpdateHandle(8)).is_empty());
    let told = Event::HandleUpdate { handle: UpdateHandle(9), payload: 0 };
    assert!(root.event(&mut mgr, WidgetId(1), told).is_none());
    assert_eq!(mgr.action, TkAction::SetSize);
}

#[test]
fn horizontal_list_runs_along_x() {
    let mut list = ListView::new_with_direction(Direction::Right, items(50));
    let mut mgr = ManagerState::new(sizes());
    list.size_rules(&sizes(), AxisInfo::new(false, None));
    list.set_rect(&mut mgr, Rect::new(Coord(0, 0), Size(100, 10)), AlignHints::none());
    // items are as wide as "item 0": 36 pixels
    assert_eq!(list.state.child_skip, 36);
    assert_eq!(list.len(), 4);
    match &list.widgets[1] {
        AnyWidget::Label(l) => assert_eq!(l.core.rect, Rect::new(Coord(36, 0), Size(36, 10))),
        _ => panic!("the widgets of a list are labels"),
    }
    assert_eq!(list.scroll_axes(Size(100, 10)), (true, false));
}

#[test]
fn refreshing_an_unchanged_range_asks_for_nothing() {
    let (mut list, mut mgr) = big_list();
    list.set_scroll_offset(&mut mgr, Offset(0, 1234));
    mgr.take_action();
    // the range stays: no widget is given an item, nothing is pending
    list.update_widgets(&mut mgr);
    assert_eq!(mgr.action, TkAction::Empty);
    assert_eq!(list.set_scroll_offset(&mut mgr, Offset(0, 1234)), Offset(0, 1234));
    assert_eq!(mgr.action, TkAction::Empty);
    // within the same item the content moves, but no widget is given an item
    list.set_scroll_offset(&mut mgr, Offset(0, 1236));
    assert_eq!(mgr.action, TkAction::RegionMoved);
    assert_eq!((list.state.data_start, list.state.data_end), (123, 128));
}

#[test]
fn set_rect_gives_every_widget_its_region_anew() {
    let (mut list, mut mgr) = big_list();
    // the same number of widgets in a wider region: all are placed anew
    list.set_rect(&mut mgr, Rect::new(Coord(10, 0), Size(120, 35)), AlignHints::none());
    assert_eq!(list.len(), 5);
    for (i, w) in list.widgets.iter().enumerate() {
        match w {
            AnyWidget::Label(l) => {
                assert_eq!(l.core.rect, Rect::new(Coord(10, 10 * i as i32), Size(120, 10)))
            }
            _ => panic!("the widgets of a list are labels"),
        }
    }
}

#[test]
fn shorter_data_is_served_again() {
    let (mut list, mut mgr) = big_list();
    list.set_scroll_offset(&mut mgr, Offset(0, 50_000));
    assert_eq!((list.state.data_start, list.state.data_end), (5_000, 5_005));
    // the data becomes much shorter than the range that is served
    list.data_mut().truncate(3);
    mgr.take_action();
    list.update_view(&mut mgr);
    assert_eq!(mgr.take_action(), TkAction::SetSize);
    assert_eq!((list.state.data_start, list.state.data_end), (0, 3));
    assert_eq!(&texts(&list)[..3], ["item 0", "item 1", "item 2"]);
    // laying out limits the offset anew
    list.set_rect(&mut mgr, Rect::new(Coord(0, 0), Size(80, 35)), AlignHints::none());
    assert_eq!(list.max_scroll_offset(), Offset(0, 0));
    assert_eq!(list.scroll_offset(), Offset(0, 0));
    assert_eq!((list.state.data_start, list.state.data_end), (0, 3));
    // laying out alone does as well
    let (mut other, mut mgr) = big_list();
    other.set_scroll_offset(&mut mgr, Offset(0, 50_000));
    other.data_mut().clear();
    other.set_rect(&mut mgr, Rect::new(Coord(0, 0), Size(80, 35)), AlignHints::none());
    assert_eq!((other.state.data_start, other.state.data_end), (0, 0));
    assert_eq!(other.max_scroll_offset(), Offset(0, 0));
    assert_eq!(other.scroll_offset(), Offset(0, 0));
}

#[test]
fn set_data_replaces_the_data() {
    let (mut list, mut mgr) = big_list();
    mgr.take_action();
    list.set_data(&mut mgr, vec!["x".to_string(), "y".to_string()]);
    assert_eq!(mgr.action, TkAction::SetSize);
    assert_eq!(list.data().len(), 2);
    assert_eq!((list.state.data_start, list.state.data_end), (0, 2));
    assert_eq!(&texts(&list)[..2], ["x", "y"]);
    list.set_data(&mut mgr, Vec::new());
    assert_eq!((list.state.data_start, list.state.data_end), (0, 0));
}

#[test]
fn a_widget_that_asks_to_be_shown_scrolls_the_list() {
    let (mut list, mut mgr) = big_list();
    mgr.take_action();
    // item 7 lies at 70 to 80 of the content, below the viewport of 35
    let asked = Response::Focus(Rect::new(Coord(0, 70), Size(80, 10)));
    match list.child_replied(&mut mgr, asked) {
        Response::Focus(rect) => assert_eq!(rect, Rect::new(Coord(0, 25), Size(80, 10))),
        _ => panic!("the list asks for the region to be shown"),
    }
    // the least offset that shows the item: its end at the end of the viewport
    assert_eq!(list.scroll_offset(), Offset(0, 45));
    assert_eq!((list.state.data_start, list.state.data_end), (4, 9));
    assert_eq!(mgr.take_action(), TkAction::RegionMoved);
    // an item in view moves nothing
    let seen = Response::Focus(Rect::new(Coord(0, 50), Size(80, 10)));
    match list.child_replied(&mut mgr, seen) {
        Response::Focus(rect) => assert_eq!(rect, Rect::new(Coord(0, 5), Size(80, 10))),
        _ => panic!("the list asks for the region to be shown"),
    }
    assert_eq!(list.scroll_offset(), Offset(0, 45));
    assert_eq!(mgr.action, TkAction::Empty);
    // what the widget did not use, the list may use; other answers are final
    assert!(matches!(
        list.child_replied(&mut mgr, Response::Unhandled(Event::Activate)),
        Response::Unhandled(Event::Activate)
    ));
    assert!(matches!(list.child_replied(&mut mgr, Response::Used), Response::Used));
    assert!(matches!(list.child_replied(&mut mgr, Response::Msg(kas::event::VoidMsg)), Response::Msg(_)));
    assert_eq!(mgr.action, TkAction::Empty);
    let down = Response::Unhandled(Event::Control(ControlKey::Down));
    assert!(matches!(list.child_replied(&mut mgr, down), Response::Focus(_)));
    assert!(list.scroll_offset().1 > 45);
}

/// The list of `big_list` as the root of a tree, with widgets that take
/// the navigation focus
fn navigable_list() -> (AnyWidget, ManagerState) {
    let (mut list, mut mgr) = big_list();
    for w in list.widgets.iter_mut() {
        if let AnyWidget::Label(l) = w {
            l.key_nav = true;
        }
    }
    let mut root = AnyWidget::List(list);
    mgr.configure(&mut root);
    mgr.take_action();
    (root, mgr)
}

#[test]
fn the_focus_brings_a_widget_of_a_list_into_view() {
    let (mut root, mut mgr) = navigable_list();
    let tab = Input::Tab { shift: false };
    // the first three widgets are in view: the list does not move
    for k in 0..3 {
        let answer = mgr.handle(&mut root, tab);
        let seen = Rect::new(Coord(0, 10 * k), Size(80, 10));
        assert!(matches!(answer, Some(Response::Focus(r)) if r == seen));
        assert_eq!(mgr.nav_focus, Some(WidgetId(2 + k as u64)));
        assert_eq!(mgr.take_action(), TkAction::Redraw);
    }
    // the fourth, at 30 to 40, is cut off by the viewport of 35
    let answer = mgr.handle(&mut root, tab);
    assert!(matches!(answer, Some(Response::Focus(r)) if r == Rect::new(Coord(0, 25), Size(80, 10))));
    assert_eq!(mgr.nav_focus, Some(WidgetId(5)));
    assert_eq!(mgr.take_action(), TkAction::RegionMoved);
    let list = match &root {
        AnyWidget::List(l) => l,
        _ => panic!("the root is the list"),
    };
    assert_eq!(list.scroll_offset(), Offset(0, 5));
    assert_eq!((list.state.data_start, list.state.data_end), (0, 5));
}

#[test]
fn an_event_for_a_widget_of_a_list_goes_through_the_list() {
    let (mut root, mut mgr) = navigable_list();
    // the last widget serves item 4, at 40 to 50 of the content
    let answer = root.event(&mut mgr, WidgetId(6), Event::NavFocus);
    assert!(matches!(answer, Response::Focus(r) if r == Rect::new(Coord(0, 25), Size(80, 10))));
    assert_eq!(mgr.take_action(), TkAction::RegionMoved);
    // what the widget does not use scrolls the list
    let answer = root.event(&mut mgr, WidgetId(6), Event::Control(ControlKey::Home));
    assert!(matches!(answer, Response::Focus(r) if r == Rect::new(Coord(0, 0), Size(80, 35))));
    // an identifier that no widget of the list has is not served
    let answer = root.event(&mut mgr, WidgetId(60), Event::NavFocus);
    assert!(matches!(answer, Response::Unhandled(Event::NavFocus)));
    assert_eq!(mgr.take_action(), TkAction::RegionMoved);
    assert_eq!(mgr.action, TkAction::Empty);
}
