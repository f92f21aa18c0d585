use kas::event::{ControlKey, Event, MouseButton, PressSource, Response};
use kas::geom::{Coord, Offset, Rect, Size};
use kas::widget::ScrollComponent;
use kas::TkAction;

fn scroller() -> ScrollComponent {
    let mut s = ScrollComponent::new();
    let action = s.set_sizes(Size(100, 50), Size(300, 40));
    assert_eq!(action, TkAction::Empty);
    s
}

#[test]
fn max_offset_is_content_less_viewport() {
    let s = scroller();
    assert_eq!(s.max_offset(), Offset(200, 0));
    assert_eq!(s.offset(), Offset(0, 0));
}

#[test]
fn set_offset_clamps_each_axis() {
    let mut s = scroller();
    assert_eq!(s.set_offset(Offset(50, 10)), TkAction::RegionMoved);
    assert_eq!(s.offset(), Offset(50, 0));
    assert_eq!(s.set_offset(Offset(-5, -5)), TkAction::RegionMoved);
    assert_eq!(s.offset(), Offset(0, 0));
    assert_eq!(s.set_offset(Offset(1000, 0)), TkAction::RegionMoved);
    assert_eq!(s.offset(), Offset(200, 0));
    assert_eq!(s.set_offset(Offset(200, 7)), TkAction::Empty);
    assert_eq!(s.offset(), Offset(200, 0));
}

#[test]
fn shrinking_content_pulls_the_offset_back() {
    let mut s = scroller();
    s.set_offset(Offset(150, 0));
    assert_eq!(s.set_sizes(Size(100, 50), Size(180, 40)), TkAction::RegionMoved);
    assert_eq!(s.max_offset(), Offset(80, 0));
    assert_eq!(s.offset(), Offset(80, 0));
}

#[test]
fn focus_rect_scrolls_as_little_as_needed() {
    let mut s = scroller();
    let window = Rect::new(Coord(10, 10), Size(100, 50));
    // already in view: nothing moves
    let (r, action) = s.focus_rect(Rect::new(Coord(20, 10), Size(30, 20)), window);
    assert_eq!(action, TkAction::Empty);
    assert_eq!(r, Rect::new(Coord(20, 10), Size(30, 20)));
    // to the right of the view: scroll until its right edge is in view
    let (r, action) = s.focus_rect(Rect::new(Coord(150, 10), Size(30, 20)), window);
    assert_eq!(action, TkAction::RegionMoved);
    assert_eq!(s.offset(), Offset(70, 0));
    assert_eq!(r, Rect::new(Coord(80, 10), Size(30, 20)));
    // to the left of the view: scroll back until its left edge is in view
    let (r, action) = s.focus_rect(Rect::new(Coord(40, 10), Size(30, 20)), window);
    assert_eq!(action, TkAction::RegionMoved);
    assert_eq!(s.offset(), Offset(30, 0));
    assert_eq!(r, Rect::new(Coord(10, 10), Size(30, 20)));
}

#[test]
fn offset_event_moves_press_coordinates_into_the_content() {
    let mut s = scroller();
    s.set_offset(Offset(40, 0));
    let source = PressSource::Mouse(MouseButton::Left);
    assert_eq!(
        s.offset_event(Event::PressStart { source, coord: Coord(5, 6) }),
        Event::PressStart { source, coord: Coord(45, 6) }
    );
    assert_eq!(
        s.offset_event(Event::PressMove { source, coord: Coord(5, 6), delta: Offset(1, 1) }),
        Event::PressMove { source, coord: Coord(45, 6), delta: Offset(1, 1) }
    );
    assert_eq!(s.offset_event(Event::Activate), Event::Activate);
}

#[test]
fn scroll_by_event_uses_keys_wheel_and_drag() {
    let mut s = scroller();
    let size = Size(100, 50);
    let (action, response, press) = s.scroll_by_event(Event::Control(ControlKey::End), size);
    assert_eq!(action, TkAction::RegionMoved);
    assert!(response.is_none());
    assert!(press.is_none());
    assert_eq!(s.offset(), Offset(200, 0));
    let (action, _, _) = s.scroll_by_event(Event::Control(ControlKey::Left), size);
    assert_eq!(action, TkAction::RegionMoved);
    assert_eq!(s.offset(), Offset(170, 0));
    let (action, _, _) = s.scroll_by_event(Event::Scroll(Offset(20, 0)), size);
    assert_eq!(action, TkAction::RegionMoved);
    assert_eq!(s.offset(), Offset(150, 0));
    let source = PressSource::Touch(3);
    let (action, response, _) = s.scroll_by_event(
        Event::PressMove { source, coord: Coord(0, 0), delta: Offset(-10, 0) },
        size,
    );
    assert_eq!(action, TkAction::RegionMoved);
    assert!(response.is_none());
    assert_eq!(s.offset(), Offset(160, 0));
    let (action, _, _) = s.scroll_by_event(Event::Control(ControlKey::Home), size);
    assert_eq!(action, TkAction::RegionMoved);
    assert_eq!(s.offset(), Offset(0, 0));
    // at the limit nothing moves
    let (action, response, _) = s.scroll_by_event(Event::Control(ControlKey::Home), size);
    assert_eq!(action, TkAction::Empty);
    assert!(response.is_none());
}

#[test]
fn scroll_by_event_hands_back_presses_and_other_events() {
    let mut s = scroller();
    let size = Size(100, 50);
    let source = PressSource::Mouse(MouseButton::Left);
    let (action, response, press) =
        s.scroll_by_event(Event::PressStart { source, coord: Coord(1, 2) }, size);
    assert_eq!(action, TkAction::Empty);
    assert!(response.is_none());
    assert_eq!(press, Some((source, Coord(1, 2))));
    let (_, response, press) = s.scroll_by_event(Event::Activate, size);
    assert!(press.is_none());
    match response {
        Response::Unhandled(Event::Activate) => {}
        _ => panic!("an event that does not scroll is not used"),
    }
}
