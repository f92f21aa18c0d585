use kas::draw::{DrawCmd, DrawHandle, SizeHandle};
use kas::event::{Event, ManagerState, MouseButton, PressSource, Response, VoidMsg};
use kas::geom::{Coord, Offset, Rect, Size};
use kas::layout::{Align, AlignHints, AxisInfo, Direction, Margins, SizeRules};
use kas::widget::{AnyWidget, Label};
use kas::{EventHandler, Layout, WidgetConfig, WidgetCore, WidgetId};

#[test]
fn zero_and_max_values() {
    assert_eq!(Coord::zero(), Coord(0, 0));
    assert_eq!(Offset::zero(), Offset(0, 0));
    assert_eq!(Size::zero(), Size(0, 0));
    assert_eq!(Size::max_size(), Size(0xFFFF, 0xFFFF));
    assert_eq!(Size::from((3, 4)), Size(3, 4));
    assert_eq!(Size(3, 4).extract(false), 3);
    assert_eq!(Size(3, 4).extract(true), 4);
    assert_eq!(Offset(3, 4).extract(true), 4);
    assert_eq!(Offset(3, -4).scaled(-2), Offset(-6, 8));
    assert_eq!(Offset(i32::MAX, 1).scaled(2), Offset(i32::MAX, 2));
    assert_eq!(kas::geom::to_i32(i64::MAX), i32::MAX);
    assert_eq!(kas::geom::to_i32(-5), -5);
    assert_eq!(kas::geom::to_u32(-5), 0);
    assert_eq!(kas::geom::to_u32(1 << 40), u32::MAX);
    let mut size = Size(1, 2);
    size += Size(u32::MAX, 3);
    assert_eq!(size, Size(u32::MAX, 5));
}

#[test]
fn empty_rect_contains_nothing() {
    let r = Rect::new(Coord(5, 5), Size(0, 10));
    assert!(!r.contains(Coord(5, 5)));
    let far = Rect::new(Coord(i32::MAX - 1, 0), Size(10, 1));
    assert!(far.contains(Coord(i32::MAX, 0)));
}

#[test]
fn directions_and_axes() {
    assert!(Direction::Down.is_vertical() && !Direction::Down.is_reversed());
    assert!(Direction::Up.is_vertical() && Direction::Up.is_reversed());
    assert!(Direction::Right.is_horizontal() && !Direction::Right.is_reversed());
    assert!(Direction::Left.is_horizontal() && Direction::Left.is_reversed());
    let axis = AxisInfo::new(true, Some(7));
    assert!(axis.is_vertical() && !axis.is_horizontal());
    assert_eq!(axis.other(), Some(7));
    assert_eq!(AxisInfo::new(false, None).other(), None);
    let hints = AlignHints::new(Some(Align::Centre), Some(Align::End));
    assert!(hints.has_horiz && hints.has_vert);
    assert_eq!(hints.unset(false), AlignHints::new(None, Some(Align::End)));
    assert_eq!(hints.unset(true), AlignHints::new(Some(Align::Centre), None));
    assert_eq!(AlignHints::new(None, None), AlignHints::none());
}

#[test]
fn theme_sizes_give_rules() {
    let sh = SizeHandle { frame: 3, margin: 2, line_height: 12, char_width: 7 };
    let frame = sh.frame(false);
    assert_eq!(frame.min_size(), 3);
    assert_eq!(frame.ideal_size(), 6);
    assert_eq!(frame.margins(), Margins(2, 2));
    assert_eq!(sh.text_bound(4, false), SizeRules::fixed(28, Margins(2, 2)));
    assert_eq!(sh.text_bound(4, true), SizeRules::fixed(12, Margins(2, 2)));
    assert_eq!(sh.text_bound(usize::MAX, false).min_size(), i32::MAX);
    let none = SizeHandle { frame: 3, margin: 2, line_height: 12, char_width: 0 };
    assert_eq!(none.text_bound(usize::MAX, false).min_size(), 0);
}

#[test]
fn press_sources_and_events() {
    assert!(PressSource::Mouse(MouseButton::Left).is_primary());
    assert!(!PressSource::Mouse(MouseButton::Middle).is_primary());
    assert!(PressSource::Touch(4).is_primary());
    assert!(PressSource::Mouse(MouseButton::Other(9)).is_mouse());
    assert!(!PressSource::Touch(4).is_mouse());
    let source = PressSource::Touch(1);
    assert_eq!(
        Event::PressEnd { source, coord: Coord(1, 1) }.displaced(Offset(2, -3)),
        Event::PressEnd { source, coord: Coord(3, -2) }
    );
    assert_eq!(Event::TimerUpdate.displaced(Offset(2, -3)), Event::TimerUpdate);
}

#[test]
fn responses() {
    let used: Response<VoidMsg> = Response::Used;
    assert!(used.is_none() && !used.is_unhandled() && !used.is_msg());
    let msg: Response<VoidMsg> = Response::Msg(VoidMsg);
    assert!(msg.is_msg());
    assert!(msg.void_into::<u8>().is_none());
    let back: Response<u8> = Response::<VoidMsg>::Unhandled(Event::Activate).void_into();
    assert!(back.is_unhandled());
    let focus: Response<u8> = Response::<VoidMsg>::Focus(Rect::new(Coord(1, 2), Size(3, 4))).void_into();
    assert!(matches!(focus, Response::Focus(r) if r == Rect::new(Coord(1, 2), Size(3, 4))));
}

#[test]
fn labels() {
    let mut label = Label::new("one".to_string());
    assert_eq!(label.get_str(), "one");
    assert_eq!(label.set_string("two".to_string()), kas::TkAction::Redraw);
    assert_eq!(label.get_str(), "two");
    assert_eq!(label.core.id, WidgetId(0));
    let mut mgr = ManagerState::new(SizeHandle { frame: 1, margin: 0, line_height: 1, char_width: 1 });
    assert!(label.event(&mut mgr, WidgetId(0), Event::Activate).is_unhandled());
    let mut any = AnyWidget::Label(label.with_key_nav(true));
    assert!(any.key_nav());
    assert_eq!(any.cursor_icon(), kas::event::CursorIcon::Default);
    assert_eq!(any.id().index(), 0);
    // a label answers for its own region only
    any.set_rect(&mut mgr, Rect::new(Coord(0, 0), Size(4, 4)), kas::layout::AlignHints::none());
    assert_eq!(any.find_id(Coord(3, 3)), Some(WidgetId(0)));
    assert_eq!(any.find_id(Coord(4, 3)), None);
    assert!(any.event(&mut mgr, WidgetId(0), Event::Activate).is_unhandled());
    let mut drawn = DrawHandle::new();
    any.draw(&mut drawn, &mgr, true);
    match drawn.cmds[0] {
        DrawCmd::Text { id, rect, state } => {
            assert_eq!(id, WidgetId(0));
            assert_eq!(rect, Rect::new(Coord(0, 0), Size(4, 4)));
            assert!(state.disabled);
        }
        _ => panic!("a label is drawn as text"),
    }
}
