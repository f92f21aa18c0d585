use kas::draw::{DrawCmd, SizeHandle};
use kas::event::{Input, MouseButton, UpdateHandle};
use kas::geom::{Coord, Offset, Rect, Size};
use kas::widget::{AnyWidget, Label, ListView, MenuFrame, Stack};
use kas::window::{Callback, CallbackRequest, Window, WindowEvent};
use kas::{ThemeAction, TkAction, WidgetChildren, WidgetCore, WidgetId};

fn sizes() -> SizeHandle {
    SizeHandle { frame: 2, margin: 0, line_height: 10, char_width: 6 }
}

fn list_in_frame(items: usize) -> AnyWidget {
    let data = (0..items).map(|i| format!("item {}", i)).collect();
    AnyWidget::Frame(MenuFrame::new(AnyWidget::List(ListView::new(data))))
}

#[test]
fn a_new_window_is_laid_out_and_configured() {
    let window = Window::new(sizes(), list_in_frame(100), Size(80, 39));
    assert!(window.configured);
    assert_eq!(window.size, Size(80, 39));
    assert_eq!(window.widget.id(), WidgetId(1));
    let list = window.widget.get(0).unwrap();
    assert_eq!(list.id(), WidgetId(2));
    // the frame takes two pixels on each side
    assert_eq!(list.rect(), Rect::new(Coord(2, 2), Size(76, 35)));
    assert_eq!(list.len(), 5);
    for i in 0..5 {
        assert_eq!(list.get(i).unwrap().id(), WidgetId(3 + i as u64));
    }
    assert!(window.ev_mgr.action >= TkAction::Redraw);
}

#[test]
fn resizing_lays_out_anew() {
    let mut window = Window::new(sizes(), list_in_frame(100), Size(80, 39));
    window.ev_mgr.take_action();
    assert_eq!(window.handle_event(WindowEvent::Resized(Size(80, 39))), TkAction::Empty);
    // the list makes widgets for the room that it gets
    let action = window.handle_event(WindowEvent::Resized(Size(80, 79)));
    assert_eq!(action, TkAction::Reconfigure);
    assert_eq!(window.size, Size(80, 79));
    let list = window.widget.get(0).unwrap();
    assert_eq!(list.len(), 9);
    // the widgets were numbered anew
    assert_eq!(list.get(8).unwrap().id(), WidgetId(11));
    assert_eq!(window.ev_mgr.action, TkAction::Empty);
    assert_eq!(window.handle_event(WindowEvent::RedrawRequested), TkAction::Empty);
    // a change of the theme lays out as well
    let coarse = SizeHandle { frame: 1, margin: 0, line_height: 20, char_width: 6 };
    assert!(window.handle_event(WindowEvent::ThemeResized(coarse)) >= TkAction::Redraw);
    assert_eq!(window.ev_mgr.sizes, coarse);
    assert!(window.configured);
    assert_eq!(ThemeAction::ThemeResize.window_action(), TkAction::Resize);
    assert_eq!(ThemeAction::RedrawAll.window_action(), TkAction::Redraw);
    assert_eq!(ThemeAction::Empty.window_action(), TkAction::Empty);
}

#[test]
fn input_is_handled_and_the_action_returned() {
    let mut window = Window::new(sizes(), list_in_frame(100), Size(80, 39));
    window.ev_mgr.take_action();
    let action = window.handle_event(WindowEvent::Input(Input::CursorMoved(Coord(10, 10))));
    assert_eq!(action, TkAction::Redraw);
    assert_eq!(window.ev_mgr.hover, Some(WidgetId(3)));
    let action = window.handle_event(WindowEvent::Input(Input::Scroll(Offset(0, -30))));
    assert_eq!(action, TkAction::RegionMoved);
    let press = Input::MouseInput { button: MouseButton::Left, pressed: true };
    assert_eq!(window.handle_event(WindowEvent::Input(press)), TkAction::Redraw);
    assert_eq!(window.ev_mgr.grabs.len(), 1);
    assert_eq!(window.ev_mgr.action, TkAction::Empty);
}

#[test]
fn timers_resume_the_window() {
    let mut window = Window::new(sizes(), list_in_frame(10), Size(80, 39));
    window.ev_mgr.take_action();
    let requests = vec![
        CallbackRequest { id: WidgetId(2), when: Callback::Start },
        CallbackRequest { id: WidgetId(3), when: Callback::Repeat(100) },
        CallbackRequest { id: WidgetId(4), when: Callback::Repeat(30) },
    ];
    assert_eq!(window.init(1000, &requests), Some(1030));
    assert_eq!(window.next_resume(), Some(1030));
    // nothing is due yet
    assert_eq!(window.timer_resume(1029), (TkAction::Empty, Some(1030)));
    assert_eq!(window.timer_resume(1030), (TkAction::Empty, Some(1060)));
    // both fire, and the ticks that were missed are not made up for
    assert_eq!(window.timer_resume(1105), (TkAction::Empty, Some(1120)));
    let timers: Vec<(u64, u64)> = window.ev_mgr.timers.iter().map(|t| (t.at, t.id.0)).collect();
    assert_eq!(timers, vec![(1120, 4), (1200, 3)]);
    let mut idle = Window::new(sizes(), list_in_frame(10), Size(80, 39));
    assert_eq!(idle.init(0, &Vec::new()), None);
    assert_eq!(idle.timer_resume(5).1, None);
}

#[test]
fn drawing_lists_the_instructions() {
    let stack = Stack::new(
        vec![
            AnyWidget::Label(Label::new("hidden".to_string())),
            list_in_frame(2),
        ],
        1,
    );
    let mut window = Window::new(sizes(), AnyWidget::Stack(stack), Size(80, 39));
    window.handle_event(WindowEvent::Input(Input::CursorMoved(Coord(10, 5))));
    let drawn = window.do_draw();
    assert_eq!(drawn.cmds.len(), 5);
    assert_eq!(drawn.cmds[0], DrawCmd::MenuFrame { rect: Rect::new(Coord(0, 0), Size(80, 39)) });
    assert_eq!(
        drawn.cmds[1],
        DrawCmd::ClipBegin { rect: Rect::new(Coord(2, 2), Size(76, 35)), offset: Offset(0, 0) }
    );
    match drawn.cmds[2] {
        DrawCmd::Text { id, rect, state } => {
            assert_eq!(id, WidgetId(5));
            assert_eq!(rect, Rect::new(Coord(2, 2), Size(76, 10)));
            assert!(state.hover);
            assert!(!state.disabled);
        }
        _ => panic!("the first item is drawn as text"),
    }
    match drawn.cmds[3] {
        DrawCmd::Text { id, state, .. } => {
            assert_eq!(id, WidgetId(6));
            assert!(!state.hover);
        }
        _ => panic!("the second item is drawn as text"),
    }
    assert_eq!(drawn.cmds[4], DrawCmd::ClipEnd);
    // disabled widgets are drawn as disabled, and so is what lies below them
    window.widget.set_disabled(true);
    let drawn = window.do_draw();
    match drawn.cmds[2] {
        DrawCmd::Text { state, .. } => assert!(state.disabled),
        _ => panic!("the first item is drawn as text"),
    }
}

#[test]
fn frame_forwards_text_to_a_label() {
    let mut frame = MenuFrame::new(AnyWidget::Label(Label::new("old".to_string())));
    assert_eq!(frame.get_str(), Some("old"));
    assert_eq!(frame.set_string("new".to_string()), TkAction::Redraw);
    assert_eq!(frame.get_str(), Some("new"));
    assert_eq!(frame.inner().widget_name(), "Label");
    frame.inner_mut().set_disabled(true);
    assert!(frame.inner().is_disabled());
    let mut other = MenuFrame::new(AnyWidget::Stack(Stack::new(Vec::new(), 0)));
    assert_eq!(other.get_str(), None);
    assert_eq!(other.set_string("x".to_string()), TkAction::Empty);
}

#[test]
fn update_handle_tells_the_subscribers() {
    let data: Vec<String> = (0..20).map(|i| format!("item {}", i)).collect();
    let list = ListView::new(data).with_update_handle(UpdateHandle(3));
    let other = ListView::new(vec!["x".to_string()]).with_update_handle(UpdateHandle(4));
    let root = Stack::new(vec![AnyWidget::List(list), AnyWidget::List(other)], 0);
    let mut window = Window::new(sizes(), AnyWidget::Stack(root), Size(80, 35));
    window.ev_mgr.take_action();
    // change the data of the first list behind its back
    if let Some(AnyWidget::List(list)) = window.widget.get_mut(0) {
        list.data_mut()[1] = "changed".to_string();
    }
    assert_eq!(window.update(UpdateHandle(9), 0), TkAction::Empty);
    assert_eq!(window.update(UpdateHandle(3), 0), TkAction::SetSize);
    match window.widget.get(0).unwrap().get(1).unwrap() {
        AnyWidget::Label(label) => assert_eq!(label.get_str(), "changed"),
        _ => panic!("the widgets of a list are labels"),
    }
    assert!(window.configured);
    assert_eq!(window.ev_mgr.action, TkAction::Empty);
}

#[test]
fn a_change_of_size_adds_no_action_of_its_own() {
    let label = AnyWidget::Label(Label::new("text".to_string()));
    let mut window = Window::new(sizes(), AnyWidget::Frame(MenuFrame::new(label)), Size(80, 39));
    assert_eq!(window.ev_mgr.take_action(), TkAction::Redraw);
    // neither frame nor label asks for anything when laid out
    assert_eq!(window.handle_event(WindowEvent::Resized(Size(90, 50))), TkAction::Empty);
    assert_eq!(window.size, Size(90, 50));
    assert_eq!(window.widget.get(0).unwrap().rect(), Rect::new(Coord(2, 2), Size(86, 46)));
    let coarse = SizeHandle { frame: 5, margin: 0, line_height: 20, char_width: 6 };
    assert_eq!(window.handle_event(WindowEvent::ThemeResized(coarse)), TkAction::Empty);
    assert_eq!(window.widget.get(0).unwrap().rect(), Rect::new(Coord(5, 5), Size(80, 40)));
    assert_eq!(window.handle_event(WindowEvent::RedrawRequested), TkAction::Empty);
    // what was pending is handed out with the next event
    window.ev_mgr.send_action(TkAction::RegionMoved);
    assert_eq!(window.handle_event(WindowEvent::Resized(Size(91, 50))), TkAction::RegionMoved);
    // a list gives its widgets their regions and wants them drawn
    let mut list = Window::new(sizes(), list_in_frame(100), Size(80, 39));
    list.ev_mgr.take_action();
    assert_eq!(list.handle_event(WindowEvent::Resized(Size(85, 39))), TkAction::Redraw);
}

#[test]
fn reconfiguring_serves_changed_data() {
    let mut window = Window::new(sizes(), list_in_frame(100), Size(80, 39));
    if let Some(AnyWidget::List(list)) = window.widget.get_mut(0) {
        list.data_mut().truncate(2);
    }
    window.reconfigure();
    assert!(window.configured);
    match window.widget.get(0).unwrap() {
        AnyWidget::List(list) => {
            assert_eq!((list.state.data_start, list.state.data_end), (0, 2));
            assert_eq!(list.max_scroll_offset(), Offset(0, 0));
        }
        _ => panic!("the frame holds the list"),
    }
}
