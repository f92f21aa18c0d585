use kas::geom::{Coord, Offset, Rect, Size};

#[test]
fn rect_contains_is_half_open() {
    let r = Rect::new(Coord(10, 20), Size(5, 4));
    assert!(r.contains(Coord(10, 20)));
    assert!(r.contains(Coord(14, 23)));
    assert!(!r.contains(Coord(15, 20)));
    assert!(!r.contains(Coord(10, 24)));
    assert!(!r.contains(Coord(9, 20)));
    assert!(!r.contains(Coord(10, 19)));
}

#[test]
fn size_subtraction_saturates_at_zero() {
    assert_eq!(Size(3, 10) - Size(5, 4), Size(0, 6));
    let mut s = Size(1, 1);
    s -= Size(2, 0);
    assert_eq!(s, Size(0, 1));
}

#[test]
fn size_addition_saturates() {
    assert_eq!(Size(u32::MAX, 1) + Size(1, 2), Size(u32::MAX, 3));
    assert_eq!(Size::uniform(7), Size(7, 7));
}

#[test]
fn coord_offsets() {
    assert_eq!(Coord(1, 2).offset_by(Offset(-3, 4)), Coord(-2, 6));
    assert_eq!(Coord(5, 5).offset_from(Coord(7, 1)), Offset(-2, 4));
    assert_eq!(Coord(i32::MAX, 0) + Coord(1, 1), Coord(i32::MAX, 1));
    let mut c = Coord(1, 1);
    c += Size(2, 3);
    assert_eq!(c, Coord(3, 4));
    assert_eq!(Coord::from((3, 4)), Coord(3, 4));
}
