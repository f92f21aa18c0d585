use kas::draw::SizeHandle;
use kas::event::{
    ControlKey, CursorIcon, Dispatch, Event, GrabMode, Input, ManagerState, MouseButton, PressSource,
    Response,
};
use kas::geom::{Coord, Offset, Rect, Size};
use kas::layout::AlignHints;
use kas::widget::{AnyWidget, Label, ListView, Stack};
use kas::{EventHandler, Layout, TkAction, WidgetChildren, WidgetCore, WidgetId};

fn sizes() -> SizeHandle {
    SizeHandle { frame: 2, margin: 0, line_height: 10, char_width: 6 }
}

fn manager() -> ManagerState {
    ManagerState::new(sizes())
}

fn label(text: &str, key_nav: bool) -> AnyWidget {
    AnyWidget::Label(Label::new(text.to_string()).with_key_nav(key_nav))
}

#[test]
fn grabs_of_the_mouse_exclude_each_other() {
    let mut mgr = manager();
    let left = PressSource::Mouse(MouseButton::Left);
    let right = PressSource::Mouse(MouseButton::Right);
    assert!(mgr.request_grab(WidgetId(3), left, Coord(1, 1), GrabMode::Grab, Some(CursorIcon::Hand)));
    assert_eq!(mgr.hover_icon, CursorIcon::Hand);
    assert_eq!(mgr.action, TkAction::Redraw);
    assert!(!mgr.request_grab(WidgetId(4), right, Coord(1, 1), GrabMode::Grab, None));
    assert!(!mgr.request_grab(WidgetId(4), left, Coord(1, 1), GrabMode::Grab, None));
    // touches are grabbed one by one
    assert!(mgr.request_grab(WidgetId(5), PressSource::Touch(1), Coord(2, 2), GrabMode::Pan, None));
    assert!(mgr.request_grab(WidgetId(6), PressSource::Touch(2), Coord(2, 2), GrabMode::Pan, None));
    assert!(!mgr.request_grab(WidgetId(7), PressSource::Touch(1), Coord(2, 2), GrabMode::Pan, None));
    assert_eq!(mgr.grabs.len(), 3);
    assert!(mgr.is_depressed(WidgetId(3)));
    assert!(mgr.is_depressed(WidgetId(6)));
    assert!(!mgr.is_depressed(WidgetId(4)));
    let ended = mgr.end_grab(right).unwrap();
    assert_eq!(ended.id, WidgetId(3));
    assert!(mgr.end_grab(left).is_none());
    mgr.cancel_grabs();
    assert!(mgr.grabs.is_empty());
}

#[test]
fn focus_and_hover_queries() {
    let mut mgr = manager();
    assert!(!mgr.is_hovered(WidgetId(1)));
    mgr.hover = Some(WidgetId(1));
    assert!(mgr.is_hovered(WidgetId(1)));
    assert!(!mgr.is_hovered(WidgetId(2)));
    mgr.set_nav_focus(Some(WidgetId(2)));
    assert!(mgr.nav_focus(WidgetId(2)));
    assert!(!mgr.char_focus(WidgetId(2)));
    assert_eq!(mgr.take_action(), TkAction::Redraw);
    mgr.set_nav_focus(Some(WidgetId(2)));
    assert_eq!(mgr.action, TkAction::Empty);
    mgr.set_char_focus(Some(WidgetId(3)));
    assert!(mgr.char_focus(WidgetId(3)));
    mgr.redraw(WidgetId(1));
    mgr.send_action(TkAction::Resize);
    mgr.send_action(TkAction::Redraw);
    assert_eq!(mgr.take_action(), TkAction::Resize);
    assert_eq!(mgr.action, TkAction::Empty);
    mgr.register_nav_fallback(WidgetId(5));
    mgr.register_nav_fallback(WidgetId(6));
    assert_eq!(mgr.nav_fallback, Some(WidgetId(5)));
}

#[test]
fn timers_fire_in_order() {
    let mut mgr = manager();
    assert_eq!(mgr.next_resume(), None);
    mgr.update_on_timer(50, WidgetId(1), 0);
    mgr.update_on_timer(20, WidgetId(2), 0);
    mgr.update_on_timer(50, WidgetId(3), 0);
    mgr.update_on_timer(30, WidgetId(4), 0);
    let order: Vec<(u64, u64)> = mgr.timers.iter().map(|t| (t.at, t.id.0)).collect();
    assert_eq!(order, vec![(20, 2), (30, 4), (50, 1), (50, 3)]);
    assert_eq!(mgr.next_resume(), Some(20));
    assert_eq!(mgr.pop_due_timer(10), None);
    assert_eq!(mgr.pop_due_timer(35), Some(WidgetId(2)));
    assert_eq!(mgr.pop_due_timer(35), Some(WidgetId(4)));
    assert_eq!(mgr.pop_due_timer(35), None);
    assert_eq!(mgr.next_resume(), Some(50));
    assert_eq!(mgr.pop_due_timer(50), Some(WidgetId(1)));
    assert_eq!(mgr.pop_due_timer(50), Some(WidgetId(3)));
    assert_eq!(mgr.next_resume(), None);
}

#[test]
fn repeating_timers_skip_missed_ticks() {
    let mut mgr = manager();
    mgr.update_on_timer(100, WidgetId(1), 30);
    mgr.update_on_timer(110, WidgetId(2), 0);
    // at 200 the ticks at 130, 160 and 190 were missed: the next is at 220
    assert_eq!(mgr.pop_due_timer(200), Some(WidgetId(1)));
    let order: Vec<(u64, u64)> = mgr.timers.iter().map(|t| (t.at, t.id.0)).collect();
    assert_eq!(order, vec![(110, 2), (220, 1)]);
    assert_eq!(mgr.pop_due_timer(200), Some(WidgetId(2)));
    assert_eq!(mgr.pop_due_timer(200), None);
    // a tick exactly on time is followed by the next
    assert_eq!(mgr.pop_due_timer(220), Some(WidgetId(1)));
    assert_eq!(mgr.next_resume(), Some(250));
    // a timer whose next instant cannot be represented is dropped
    let mut late = manager();
    late.update_on_timer(u64::MAX - 5, WidgetId(1), 10);
    assert_eq!(late.pop_due_timer(u64::MAX - 5), Some(WidgetId(1)));
    assert_eq!(late.next_resume(), None);
}

/// A stack that shows a list of 100 items in a viewport of 80 by 35
fn window_tree() -> (AnyWidget, ManagerState) {
    let data = (0..100).map(|i| format!("item {}", i)).collect();
    let list = AnyWidget::List(ListView::new(data));
    let mut root = AnyWidget::Stack(Stack::new(vec![list], 0));
    let mut mgr = manager();
    kas::layout::solve_size_rules(&mut root, &sizes(), Some(80), Some(35));
    root.set_rect(&mut mgr, Rect::new(Coord(0, 0), Size(80, 35)), AlignHints::none());
    mgr.configure(&mut root);
    mgr.take_action();
    (root, mgr)
}

#[test]
fn pointer_motion_sets_the_widget_under_the_pointer() {
    let (root, mut mgr) = window_tree();
    assert_eq!(root.id(), WidgetId(1));
    assert_eq!(mgr.route(&root, Input::CursorMoved(Coord(10, 15))), None);
    assert_eq!(mgr.hover, Some(WidgetId(4)));
    assert_eq!(mgr.pointer, Coord(10, 15));
    assert_eq!(mgr.take_action(), TkAction::Redraw);
    assert_eq!(mgr.route(&root, Input::CursorMoved(Coord(11, 16))), None);
    assert_eq!(mgr.action, TkAction::Empty);
    assert_eq!(mgr.route(&root, Input::CursorMoved(Coord(200, 16))), None);
    assert_eq!(mgr.hover, None);
    assert_eq!(mgr.route(&root, Input::CursorMoved(Coord(10, 15))), None);
    assert_eq!(mgr.route(&root, Input::CursorLeft), None);
    assert_eq!(mgr.hover, None);
}

#[test]
fn a_grabbed_press_stays_with_the_widget_that_grabbed_it() {
    let (mut root, mut mgr) = window_tree();
    let left = PressSource::Mouse(MouseButton::Left);
    assert!(mgr.handle(&mut root, Input::CursorMoved(Coord(10, 15))).is_none());
    // the press starts over a label of the list; the list grabs it
    let pressed = Input::MouseInput { button: MouseButton::Left, pressed: true };
    let response = mgr.handle(&mut root, pressed).expect("the press is sent");
    assert!(response.is_none());
    assert_eq!(mgr.grabs.len(), 1);
    assert_eq!(mgr.grabs[0].id, WidgetId(2));
    // the pointer moves out of the list, and out of the window
    let moved = mgr.route(&root, Input::CursorMoved(Coord(300, -40)));
    assert_eq!(
        moved,
        Some(Dispatch {
            id: WidgetId(2),
            event: Event::PressMove { source: left, coord: Coord(300, -40), delta: Offset(290, -55) },
        })
    );
    // the widget under the pointer stays the one it was
    assert_eq!(mgr.hover, Some(WidgetId(4)));
    // dragging up scrolls the list down
    let response = mgr.handle(&mut root, Input::CursorMoved(Coord(300, -60))).unwrap();
    assert!(matches!(response, kas::event::Response::Focus(_)));
    if let Some(AnyWidget::List(list)) = root.get(0) {
        assert_eq!(list.scroll_offset(), Offset(0, 20));
    } else {
        panic!("the list is the child of the root");
    }
    // the release goes to the list too, and ends the grab
    let released = Input::MouseInput { button: MouseButton::Left, pressed: false };
    let ended = mgr.route(&root, released);
    assert_eq!(
        ended,
        Some(Dispatch { id: WidgetId(2), event: Event::PressEnd { source: left, coord: Coord(300, -60) } })
    );
    assert!(mgr.grabs.is_empty());
    // from now on motion sets the widget under the pointer again
    assert_eq!(mgr.route(&root, Input::CursorMoved(Coord(300, -60))), None);
    assert_eq!(mgr.hover, None);
}

#[test]
fn touches_are_routed_by_their_grab() {
    let (mut root, mut mgr) = window_tree();
    let started = mgr.route(&root, Input::TouchStart { touch: 7, coord: Coord(5, 5) });
    assert_eq!(
        started,
        Some(Dispatch {
            id: WidgetId(3),
            event: Event::PressStart { source: PressSource::Touch(7), coord: Coord(5, 5) },
        })
    );
    assert!(mgr.handle(&mut root, Input::TouchStart { touch: 7, coord: Coord(5, 5) }).is_some());
    assert_eq!(mgr.grabs.len(), 1);
    // another finger is not grabbed and goes nowhere
    assert_eq!(mgr.route(&root, Input::TouchMove { touch: 8, coord: Coord(5, 9) }), None);
    let moved = mgr.route(&root, Input::TouchMove { touch: 7, coord: Coord(500, 9) });
    assert_eq!(moved.unwrap().id, WidgetId(2));
    assert_eq!(mgr.route(&root, Input::TouchCancel { touch: 7 }), None);
    assert!(mgr.grabs.is_empty());
    assert!(mgr.handle(&mut root, Input::TouchStart { touch: 7, coord: Coord(5, 5) }).is_some());
    assert_eq!(mgr.route(&root, Input::FocusLost), None);
    assert!(mgr.grabs.is_empty());
}

#[test]
fn keys_go_to_the_focus_or_the_fallback() {
    let (root, mut mgr) = window_tree();
    // the list asked for the keys that nobody takes
    assert_eq!(mgr.nav_fallback, Some(WidgetId(2)));
    assert_eq!(
        mgr.route(&root, Input::Control(ControlKey::Down)),
        Some(Dispatch { id: WidgetId(2), event: Event::Control(ControlKey::Down) })
    );
    assert_eq!(mgr.route(&root, Input::Activate), None);
    assert_eq!(mgr.route(&root, Input::Character('x')), None);
    assert_eq!(mgr.route(&root, Input::Scroll(Offset(0, 3))), None);
    mgr.set_nav_focus(Some(WidgetId(5)));
    mgr.set_char_focus(Some(WidgetId(6)));
    mgr.hover = Some(WidgetId(4));
    assert_eq!(mgr.route(&root, Input::Control(ControlKey::Down)).unwrap().id, WidgetId(5));
    assert_eq!(
        mgr.route(&root, Input::Activate),
        Some(Dispatch { id: WidgetId(5), event: Event::Activate })
    );
    assert_eq!(
        mgr.route(&root, Input::Character('x')),
        Some(Dispatch { id: WidgetId(6), event: Event::ReceivedCharacter('x') })
    );
    assert_eq!(
        mgr.route(&root, Input::Scroll(Offset(0, 3))),
        Some(Dispatch { id: WidgetId(4), event: Event::Scroll(Offset(0, 3)) })
    );
}

#[test]
fn tab_moves_the_focus_and_wraps() {
    let widgets = vec![
        label("a", false),
        label("b", true),
        label("c", false),
        label("d", true),
        label("e", true),
    ];
    let mut root = AnyWidget::Stack(Stack::new(widgets, 0));
    let mut mgr = manager();
    mgr.configure(&mut root);
    let forward = Input::Tab { shift: false };
    let back = Input::Tab { shift: true };
    // the widget that gains the focus is told
    assert_eq!(
        mgr.route(&root, forward),
        Some(Dispatch { id: WidgetId(3), event: Event::NavFocus })
    );
    assert_eq!(mgr.nav_focus, Some(WidgetId(3)));
    assert_eq!(
        mgr.route(&root, forward),
        Some(Dispatch { id: WidgetId(5), event: Event::NavFocus })
    );
    assert_eq!(mgr.nav_focus, Some(WidgetId(5)));
    mgr.route(&root, forward);
    assert_eq!(mgr.nav_focus, Some(WidgetId(6)));
    mgr.route(&root, forward);
    assert_eq!(mgr.nav_focus, Some(WidgetId(3)));
    mgr.route(&root, back);
    assert_eq!(mgr.nav_focus, Some(WidgetId(6)));
    mgr.route(&root, back);
    assert_eq!(mgr.nav_focus, Some(WidgetId(5)));
    // disabled widgets are passed over
    root.find_mut(WidgetId(3)).unwrap().set_disabled(true);
    mgr.route(&root, back);
    assert_eq!(mgr.nav_focus, Some(WidgetId(6)));
    assert_eq!(root.next_nav_focus(None, true), Some(WidgetId(6)));
    assert_eq!(root.next_nav_focus(None, false), Some(WidgetId(5)));
    assert_eq!(root.next_nav_focus(Some(WidgetId(99)), false), Some(WidgetId(5)));
    // where nothing takes the focus, it goes nowhere
    let mut plain = AnyWidget::Stack(Stack::new(vec![label("a", false)], 0));
    mgr.configure(&mut plain);
    assert_eq!(mgr.nav_focus, None);
    assert_eq!(mgr.route(&plain, forward), None);
    assert_eq!(mgr.nav_focus, None);
    // the only widget that takes the focus keeps it
    let mut single = AnyWidget::Stack(Stack::new(vec![label("a", true)], 0));
    mgr.configure(&mut single);
    mgr.take_action();
    assert_eq!(
        mgr.route(&single, forward),
        Some(Dispatch { id: WidgetId(2), event: Event::NavFocus })
    );
    assert_eq!(mgr.nav_focus, Some(WidgetId(2)));
    assert_eq!(mgr.take_action(), TkAction::Redraw);
    // and is not told again
    assert_eq!(mgr.route(&single, forward), None);
    assert_eq!(mgr.nav_focus, Some(WidgetId(2)));
    assert_eq!(mgr.action, TkAction::Empty);
}

#[test]
fn a_label_that_gains_the_focus_asks_to_be_shown() {
    let mut root = AnyWidget::Stack(Stack::new(vec![label("a", false), label("b", true)], 1));
    let mut mgr = manager();
    mgr.configure(&mut root);
    let rect = Rect::new(Coord(3, 4), Size(50, 10));
    root.set_rect(&mut mgr, rect, AlignHints::none());
    mgr.take_action();
    let answer = mgr.handle(&mut root, Input::Tab { shift: false });
    assert!(matches!(answer, Some(Response::Focus(r)) if r == rect));
    assert_eq!(mgr.nav_focus, Some(WidgetId(3)));
    assert_eq!(mgr.action, TkAction::Redraw);
    // one that does not take the focus uses nothing, nor does a disabled one
    assert!(matches!(
        root.event(&mut mgr, WidgetId(2), Event::NavFocus),
        Response::Unhandled(Event::NavFocus)
    ));
    root.find_mut(WidgetId(3)).unwrap().set_disabled(true);
    assert!(matches!(
        root.event(&mut mgr, WidgetId(3), Event::NavFocus),
        Response::Unhandled(Event::NavFocus)
    ));
    // no other event is used by a label
    root.find_mut(WidgetId(3)).unwrap().set_disabled(false);
    assert!(matches!(
        root.event(&mut mgr, WidgetId(3), Event::Activate),
        Response::Unhandled(Event::Activate)
    ));
}

#[test]
fn configure_forgets_what_named_widgets() {
    let (mut root, mut mgr) = window_tree();
    mgr.hover = Some(WidgetId(4));
    mgr.set_nav_focus(Some(WidgetId(3)));
    mgr.request_grab(WidgetId(2), PressSource::Touch(1), Coord(0, 0), GrabMode::Grab, None);
    mgr.update_on_timer(5, WidgetId(2), 0);
    mgr.configure(&mut root);
    assert_eq!(mgr.hover, None);
    assert_eq!(mgr.nav_focus, None);
    assert!(mgr.grabs.is_empty());
    assert_eq!(mgr.nav_fallback, Some(WidgetId(2)));
    assert_eq!(mgr.timers.len(), 1);
}
