use rusty_sandbox::path::{span, Path, Point};

fn collect(from: Point, to: Point) -> Vec<(i32, i32)> {
    let mut path = Path::new(from, to);
    let mut points = Vec::new();
    while let Some(point) = path.next() {
        points.push((point.x, point.y));
    }
    points
}

fn check_walk(from: Point, to: Point) {
    let points = collect(from, to);
    let dx = (from.x as i64 - to.x as i64).abs();
    let dy = (from.y as i64 - to.y as i64).abs();
    assert_eq!(points.len() as i64, dx.max(dy));
    let mut previous = (from.x, from.y);
    for point in &points {
        assert!((point.0 - previous.0).abs() <= 1);
        assert!((point.1 - previous.1).abs() <= 1);
        previous = *point;
    }
    assert_eq!(previous, (to.x, to.y));
}

#[test]
fn walk_from_origin_to_three_two() {
    let points = collect(Point { x: 0, y: 0 }, Point { x: 3, y: 2 });
    assert_eq!(points, vec![(1, 1), (2, 2), (3, 2)]);
}

#[test]
fn walk_back_from_three_two_to_origin() {
    let points = collect(Point { x: 3, y: 2 }, Point { x: 0, y: 0 });
    assert_eq!(points, vec![(2, 1), (1, 0), (0, 0)]);
}

#[test]
fn walk_to_the_same_point_is_empty() {
    let points = collect(Point { x: 4, y: 4 }, Point { x: 4, y: 4 });
    assert!(points.is_empty());
}

#[test]
fn walk_along_one_axis() {
    assert_eq!(collect(Point { x: 2, y: 5 }, Point { x: 2, y: 8 }), vec![(2, 6), (2, 7), (2, 8)]);
    assert_eq!(collect(Point { x: 2, y: 5 }, Point { x: -1, y: 5 }), vec![(1, 5), (0, 5), (-1, 5)]);
}

#[test]
fn walk_steep_diagonal_moves_both_axes_first() {
    let points = collect(Point { x: 0, y: 0 }, Point { x: -1, y: 4 });
    assert_eq!(points, vec![(-1, 1), (-1, 2), (-1, 3), (-1, 4)]);
}

#[test]
fn walks_are_connected_and_end_at_the_target() {
    check_walk(Point { x: 0, y: 0 }, Point { x: 3, y: 2 });
    check_walk(Point { x: 10, y: -7 }, Point { x: -5, y: 20 });
    check_walk(Point { x: -3, y: -3 }, Point { x: -3, y: -3 });
    check_walk(Point { x: 100, y: 0 }, Point { x: 0, y: 1 });
    check_walk(Point { x: i32::MAX - 3, y: i32::MIN + 2 }, Point { x: i32::MAX, y: i32::MIN });
}

#[test]
fn path_is_not_restartable() {
    let mut path = Path::new(Point { x: 0, y: 0 }, Point { x: 1, y: 0 });
    assert_eq!(path.next(), Some(Point { x: 1, y: 0 }));
    assert_eq!(path.next(), None);
    assert_eq!(path.next(), None);
}

#[test]
fn remaining_counts_the_steps_to_come() {
    let mut path = Path::new(Point { x: 0, y: 0 }, Point { x: 3, y: -5 });
    assert_eq!(path.remaining(), 5);
    path.next();
    assert_eq!(path.remaining(), 4);
    let far = Path::new(Point { x: i32::MIN, y: 0 }, Point { x: i32::MAX, y: 0 });
    assert_eq!(far.remaining(), u32::MAX);
}

#[test]
fn step_toward_moves_each_axis_by_one() {
    let from = Point { x: 0, y: 0 };
    assert_eq!(from.step_toward(&Point { x: 5, y: -5 }), Point { x: 1, y: -1 });
    assert_eq!(from.step_toward(&Point { x: 0, y: 9 }), Point { x: 0, y: 1 });
    assert_eq!(from.step_toward(&from), from);
}

#[test]
fn span_is_the_absolute_difference() {
    assert_eq!(span(3, 10), 7);
    assert_eq!(span(10, 3), 7);
    assert_eq!(span(-4, 4), 8);
    assert_eq!(span(i32::MIN, i32::MAX), u32::MAX);
    assert_eq!(span(6, 6), 0);
}
