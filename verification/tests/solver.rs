use kas::geom::{Coord, Rect, Size};
use kas::layout::{
    solve_seq, AxisInfo, Margins, RowSetter, RowSolver, RulesSetter, RulesSolver, SizeRules,
    StretchPolicy,
};

fn rules(min: i32, ideal: i32, stretch: StretchPolicy) -> SizeRules {
    SizeRules::new(min, ideal, Margins(0, 0), stretch)
}

#[test]
fn slack_is_split_among_equal_stretchers() {
    // two children in a row of width 40: 5 pixels beyond the ideal sizes
    let row = vec![
        rules(10, 20, StretchPolicy::HighUtility),
        rules(5, 15, StretchPolicy::HighUtility),
    ];
    let sizes = solve_seq(&row, 40);
    assert_eq!(sizes, vec![23, 17]);
    assert_eq!(sizes.iter().sum::<i32>(), 40);
}

#[test]
fn slack_goes_to_the_greatest_policy_only() {
    let row = vec![
        rules(10, 20, StretchPolicy::Minimal),
        rules(5, 15, StretchPolicy::Maximal),
        rules(1, 2, StretchPolicy::Fixed),
    ];
    assert_eq!(solve_seq(&row, 47), vec![20, 25, 2]);
    let fixed = vec![rules(10, 20, StretchPolicy::Fixed), rules(5, 15, StretchPolicy::Fixed)];
    assert_eq!(solve_seq(&fixed, 38), vec![22, 16]);
}

#[test]
fn space_below_the_ideal_fills_in_order() {
    let row = vec![
        rules(10, 20, StretchPolicy::HighUtility),
        rules(5, 15, StretchPolicy::HighUtility),
    ];
    assert_eq!(solve_seq(&row, 35), vec![20, 15]);
    assert_eq!(solve_seq(&row, 30), vec![20, 10]);
    assert_eq!(solve_seq(&row, 22), vec![17, 5]);
    assert_eq!(solve_seq(&row, 16), vec![11, 5]);
}

#[test]
fn space_below_the_minimum_gives_the_minimum() {
    let row = vec![
        rules(10, 20, StretchPolicy::HighUtility),
        rules(5, 15, StretchPolicy::HighUtility),
    ];
    assert_eq!(solve_seq(&row, 15), vec![10, 5]);
    assert_eq!(solve_seq(&row, 3), vec![10, 5]);
    assert_eq!(solve_seq(&Vec::new(), 30), Vec::<i32>::new());
}

#[test]
fn row_solver_sums_along_and_takes_max_across() {
    let a = rules(10, 20, StretchPolicy::Fixed);
    let b = rules(5, 25, StretchPolicy::Minimal);
    let mut along = RowSolver::new(false, AxisInfo::new(false, None));
    along.for_child(a);
    along.for_child(b);
    assert_eq!(along.finish(), a.sum(b));
    let mut across = RowSolver::new(false, AxisInfo::new(true, None));
    across.for_child(a);
    across.for_child(b);
    assert_eq!(across.finish(), a.max(b));
    let nothing = RowSolver::new(true, AxisInfo::new(true, None));
    assert_eq!(nothing.finish(), SizeRules::empty());
}

#[test]
fn row_setter_places_children_one_after_the_other() {
    let row = vec![
        rules(10, 20, StretchPolicy::HighUtility),
        rules(5, 15, StretchPolicy::HighUtility),
    ];
    let setter = RowSetter::new(Rect::new(Coord(100, 50), Size(40, 9)), false, &row);
    assert_eq!(setter.child_rect(0), Rect::new(Coord(100, 50), Size(23, 9)));
    assert_eq!(setter.child_rect(1), Rect::new(Coord(123, 50), Size(17, 9)));
    let column = RowSetter::new(Rect::new(Coord(100, 50), Size(9, 40)), true, &row);
    assert_eq!(column.child_rect(0), Rect::new(Coord(100, 50), Size(9, 23)));
    assert_eq!(column.child_rect(1), Rect::new(Coord(100, 73), Size(9, 17)));
}
