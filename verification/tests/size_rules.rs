use kas::layout::{Margins, SizeRules, StretchPolicy};
use kas::TkAction;

fn rules(min: i32, ideal: i32) -> SizeRules {
    SizeRules::new(min, ideal, Margins(0, 0), StretchPolicy::Fixed)
}

#[test]
fn sum_adds_min_and_ideal() {
    let a = SizeRules::new(10, 20, Margins(1, 2), StretchPolicy::Minimal);
    let b = SizeRules::new(5, 15, Margins(3, 1), StretchPolicy::HighUtility);
    let s = a.sum(b);
    assert_eq!(s.min_size(), 15);
    assert_eq!(s.ideal_size(), 35);
    assert_eq!(s.margins(), Margins(3, 2));
    assert_eq!(s.stretch(), StretchPolicy::HighUtility);
    assert_eq!(s, b.sum(a));
}

#[test]
fn max_takes_the_larger_of_each() {
    let a = SizeRules::new(10, 12, Margins(1, 2), StretchPolicy::Maximal);
    let b = SizeRules::new(5, 15, Margins(3, 1), StretchPolicy::Fixed);
    let m = a.max(b);
    assert_eq!(m.min_size(), 10);
    assert_eq!(m.ideal_size(), 15);
    assert_eq!(m.margins(), Margins(3, 2));
    assert_eq!(m.stretch(), StretchPolicy::Maximal);
    assert_eq!(m, b.max(a));
    assert_eq!(a.max(a), a);
}

#[test]
fn sum_saturates() {
    let a = rules(i32::MAX - 1, i32::MAX);
    let b = rules(5, 7);
    let s = a.sum(b);
    assert_eq!(s.min_size(), i32::MAX);
    assert_eq!(s.ideal_size(), i32::MAX);
}

#[test]
fn empty_is_the_identity() {
    let a = SizeRules::new(3, 8, Margins(2, 4), StretchPolicy::Minimal);
    assert_eq!(a.sum(SizeRules::empty()), a);
    assert_eq!(SizeRules::empty().sum(a), a);
    assert_eq!(a.max(SizeRules::empty()), a);
    assert_eq!(SizeRules::empty().min_size(), 0);
    assert_eq!(SizeRules::empty().ideal_size(), 0);
}

#[test]
fn surround_adds_the_frame() {
    let frame = SizeRules::new(3, 6, Margins(4, 4), StretchPolicy::Fixed);
    let content = SizeRules::new(10, 20, Margins(1, 1), StretchPolicy::HighUtility);
    let (whole, offset, size) = frame.surround(content);
    assert_eq!(whole.min_size(), 16);
    assert_eq!(whole.ideal_size(), 26);
    assert_eq!(whole.margins(), Margins(4, 4));
    assert_eq!(whole.stretch(), StretchPolicy::HighUtility);
    assert_eq!(offset, 3);
    assert_eq!(size, 6);
    // the frame and the content are not interchangeable
    assert_ne!(content.surround(frame).0, whole);
}

#[test]
fn multiply_with_margin_repeats() {
    let mut r = SizeRules::new(10, 12, Margins(2, 3), StretchPolicy::Fixed);
    r.multiply_with_margin(2, 5);
    assert_eq!(r.min_size(), 2 * 10 + 3);
    assert_eq!(r.ideal_size(), 5 * 12 + 4 * 3);
    let mut odd = SizeRules::new(10, 12, Margins(0, 0), StretchPolicy::Fixed);
    odd.multiply_with_margin(3, 1);
    assert_eq!(odd.min_size(), 30);
    assert_eq!(odd.ideal_size(), 30);
}

#[test]
fn fixed_and_setters() {
    let mut r = SizeRules::fixed(7, Margins(1, 1));
    assert_eq!(r.min_size(), 7);
    assert_eq!(r.ideal_size(), 7);
    assert_eq!(r.margins_i32(), (1, 1));
    r.set_stretch(StretchPolicy::Maximal);
    assert_eq!(r.stretch(), StretchPolicy::Maximal);
    assert_eq!(StretchPolicy::Minimal.max(StretchPolicy::Fixed), StretchPolicy::Minimal);
    assert!(StretchPolicy::Fixed < StretchPolicy::Minimal);
    assert!(StretchPolicy::HighUtility < StretchPolicy::Maximal);
}

#[test]
fn actions_combine_to_the_greater() {
    let order = [
        TkAction::Empty,
        TkAction::Redraw,
        TkAction::RegionMoved,
        TkAction::SetSize,
        TkAction::Resize,
        TkAction::Reconfigure,
        TkAction::Close,
    ];
    for (i, a) in order.iter().copied().enumerate() {
        assert_eq!(a.level() as usize, i);
        for (j, b) in order.iter().copied().enumerate() {
            let expect = if i >= j { a } else { b };
            assert_eq!(TkAction::max(a, b), expect);
            assert_eq!(TkAction::max(a, b), TkAction::max(b, a));
            assert_eq!(i < j, a < b);
        }
    }
    assert!(TkAction::Empty.is_empty());
    assert!(!TkAction::Redraw.is_empty());
}
