use rusty_sandbox::brush::{paint_area, paint_line, paint_point, Brush, Drag, Pointer};
use rusty_sandbox::path::Point;
use rusty_sandbox::{Grid, Particle, ParticleVariant};

fn field(width: usize, height: usize) -> Grid {
    let mut grid = Grid::new();
    grid.ensure_size(width, height);
    grid
}

fn active_slots(grid: &Grid) -> Vec<(usize, usize, ParticleVariant)> {
    let mut slots = Vec::new();
    for x in 0..grid.width() {
        for y in 0..grid.height() {
            let particle = grid.get(x, y);
            if particle.active {
                slots.push((x, y, particle.variant));
            }
        }
    }
    slots
}

fn at(x: i32, y: i32) -> Point {
    Point { x, y }
}

fn pointer(x: i32, y: i32, held: bool, released: bool) -> Pointer {
    Pointer { position: at(x, y), held, released }
}

#[test]
fn paint_area_fills_the_asymmetric_window() {
    let mut grid = field(20, 20);
    paint_area(&mut grid, at(10, 10), 2, ParticleVariant::Water);
    let expected: Vec<(usize, usize, ParticleVariant)> = vec![
        (8, 10, ParticleVariant::Water),
        (8, 11, ParticleVariant::Water),
        (9, 10, ParticleVariant::Water),
        (9, 11, ParticleVariant::Water),
        (10, 10, ParticleVariant::Water),
        (10, 11, ParticleVariant::Water),
        (11, 10, ParticleVariant::Water),
        (11, 11, ParticleVariant::Water),
    ];
    assert_eq!(active_slots(&grid), expected);
}

#[test]
fn paint_area_skips_occupied_slots() {
    let mut grid = field(20, 20);
    let brick = Particle::new(grid.get(9, 11).id, ParticleVariant::Brick, true);
    grid.set(9, 11, brick);
    paint_area(&mut grid, at(10, 10), 2, ParticleVariant::Water);
    assert_eq!(grid.get(9, 11), brick);
    let slots = active_slots(&grid);
    assert_eq!(slots.len(), 8);
    assert_eq!(slots.iter().filter(|slot| slot.2 == ParticleVariant::Water).count(), 7);
}

#[test]
fn paint_area_keeps_the_ids_of_the_slots() {
    let mut grid = field(6, 6);
    let before: Vec<u32> = (0..6).flat_map(|x| (0..6).map(move |y| (x, y))).map(|(x, y)| grid.get(x, y).id).collect();
    paint_area(&mut grid, at(3, 3), 3, ParticleVariant::Dirt);
    let after: Vec<u32> = (0..6).flat_map(|x| (0..6).map(move |y| (x, y))).map(|(x, y)| grid.get(x, y).id).collect();
    assert_eq!(before, after);
    assert_eq!(grid.last_id(), 36);
}

#[test]
fn painting_twice_is_painting_once() {
    let mut grid = field(12, 12);
    paint_area(&mut grid, at(5, 5), 3, ParticleVariant::Sand);
    let once = active_slots(&grid);
    paint_area(&mut grid, at(5, 5), 3, ParticleVariant::Water);
    assert_eq!(active_slots(&grid), once);
    assert_eq!(once.len(), 18);
}

#[test]
fn paint_area_is_cut_at_the_edges() {
    let mut grid = field(4, 3);
    paint_area(&mut grid, at(0, 0), 3, ParticleVariant::Sand);
    let slots: Vec<(usize, usize)> = active_slots(&grid).iter().map(|slot| (slot.0, slot.1)).collect();
    assert_eq!(slots, vec![(0, 0), (0, 1), (0, 2), (1, 0), (1, 1), (1, 2), (2, 0), (2, 1), (2, 2)]);
    let mut grid = field(4, 3);
    paint_area(&mut grid, at(4, 2), 2, ParticleVariant::Sand);
    let slots: Vec<(usize, usize)> = active_slots(&grid).iter().map(|slot| (slot.0, slot.1)).collect();
    assert_eq!(slots, vec![(2, 2), (3, 2)]);
}

#[test]
fn paint_area_outside_the_grid_paints_nothing() {
    let mut grid = field(4, 4);
    paint_area(&mut grid, at(-10, 1), 3, ParticleVariant::Sand);
    paint_area(&mut grid, at(1, -10), 3, ParticleVariant::Sand);
    paint_area(&mut grid, at(50, 1), 3, ParticleVariant::Sand);
    paint_area(&mut grid, at(1, 4), 3, ParticleVariant::Sand);
    paint_area(&mut grid, at(i32::MAX, i32::MAX), u16::MAX, ParticleVariant::Sand);
    paint_area(&mut grid, at(i32::MIN, i32::MIN), u16::MAX, ParticleVariant::Sand);
    assert!(active_slots(&grid).is_empty());
}

#[test]
fn paint_area_with_a_window_above_the_grid_reaches_into_it() {
    let mut grid = field(4, 4);
    paint_area(&mut grid, at(1, -1), 2, ParticleVariant::Dirt);
    let slots: Vec<(usize, usize)> = active_slots(&grid).iter().map(|slot| (slot.0, slot.1)).collect();
    assert_eq!(slots, vec![(0, 0), (1, 0), (2, 0)]);
}

#[test]
fn paint_area_with_radius_zero_paints_nothing() {
    let mut grid = field(4, 4);
    paint_area(&mut grid, at(2, 2), 0, ParticleVariant::Sand);
    assert!(active_slots(&grid).is_empty());
}

#[test]
fn paint_point_fills_only_an_empty_slot_of_the_grid() {
    let mut grid = field(3, 3);
    paint_point(&mut grid, at(1, 1), ParticleVariant::Brick);
    paint_point(&mut grid, at(1, 1), ParticleVariant::Water);
    paint_point(&mut grid, at(-1, 1), ParticleVariant::Water);
    paint_point(&mut grid, at(1, 3), ParticleVariant::Water);
    assert_eq!(active_slots(&grid), vec![(1, 1, ParticleVariant::Brick)]);
    assert_eq!(grid.get(1, 1).id, 5);
}

#[test]
fn paint_line_from_origin_to_three_two() {
    let mut grid = field(6, 6);
    paint_line(&mut grid, at(0, 0), at(3, 2), ParticleVariant::Brick);
    let slots: Vec<(usize, usize)> = active_slots(&grid).iter().map(|slot| (slot.0, slot.1)).collect();
    assert_eq!(slots, vec![(0, 0), (1, 1), (2, 2), (3, 2)]);
}

#[test]
fn paint_line_leaves_no_gap_on_a_long_drag() {
    let mut grid = field(40, 10);
    paint_line(&mut grid, at(2, 8), at(37, 1), ParticleVariant::Brick);
    let slots = active_slots(&grid);
    assert_eq!(slots.len(), 36);
    for x in 2..=37 {
        assert_eq!(slots.iter().filter(|slot| slot.0 == x).count(), 1);
    }
    for pair in slots.windows(2) {
        assert!((pair[0].1 as i32 - pair[1].1 as i32).abs() <= 1);
    }
}

#[test]
fn paint_line_skips_occupied_slots_and_the_outside() {
    let mut grid = field(4, 4);
    let water = Particle::new(grid.get(1, 1).id, ParticleVariant::Water, true);
    grid.set(1, 1, water);
    paint_line(&mut grid, at(-2, -2), at(5, 5), ParticleVariant::Brick);
    assert_eq!(grid.get(1, 1), water);
    let slots = active_slots(&grid);
    assert_eq!(
        slots,
        vec![
            (0, 0, ParticleVariant::Brick),
            (1, 1, ParticleVariant::Water),
            (2, 2, ParticleVariant::Brick),
            (3, 3, ParticleVariant::Brick),
        ]
    );
}

#[test]
fn paint_line_to_the_same_point_paints_that_point() {
    let mut grid = field(4, 4);
    paint_line(&mut grid, at(2, 1), at(2, 1), ParticleVariant::Sand);
    assert_eq!(active_slots(&grid), vec![(2, 1, ParticleVariant::Sand)]);
}

#[test]
fn drag_arms_on_the_first_frame_and_paints_from_the_second() {
    let mut drag = Drag::Idle;
    assert_eq!(drag.advance(pointer(0, 0, true, false)), None);
    assert_eq!(drag, Drag::Dragging { anchor: at(0, 0) });
    assert_eq!(drag.advance(pointer(3, 2, true, false)), Some((at(0, 0), at(3, 2))));
    assert_eq!(drag, Drag::Dragging { anchor: at(3, 2) });
    assert_eq!(drag.advance(pointer(3, 5, true, false)), Some((at(3, 2), at(3, 5))));
    assert_eq!(drag, Drag::Dragging { anchor: at(3, 5) });
}

#[test]
fn drag_resets_on_release() {
    let mut drag = Drag::Dragging { anchor: at(4, 4) };
    assert_eq!(drag.advance(pointer(9, 9, false, true)), None);
    assert_eq!(drag, Drag::Idle);
    assert_eq!(drag.advance(pointer(20, 1, true, false)), None);
    assert_eq!(drag, Drag::Dragging { anchor: at(20, 1) });
}

#[test]
fn drag_paints_a_last_stroke_when_held_and_released_in_one_frame() {
    let mut drag = Drag::Dragging { anchor: at(1, 1) };
    assert_eq!(drag.advance(pointer(2, 2, true, true)), Some((at(1, 1), at(2, 2))));
    assert_eq!(drag, Drag::Idle);
}

#[test]
fn drag_idles_while_nothing_happens() {
    let mut drag = Drag::Idle;
    assert_eq!(drag.advance(pointer(5, 5, false, false)), None);
    assert_eq!(drag, Drag::Idle);
    let mut drag = Drag::Dragging { anchor: at(1, 2) };
    assert_eq!(drag.advance(pointer(5, 5, false, false)), None);
    assert_eq!(drag, Drag::Dragging { anchor: at(1, 2) });
}

#[test]
fn smoothing_paints_the_dragged_path() {
    let mut grid = field(8, 8);
    let mut brush = Brush::new();
    brush.smooth(&mut grid, pointer(0, 0, true, false), ParticleVariant::Brick);
    assert!(active_slots(&grid).is_empty());
    assert_eq!(brush.drag(), Drag::Dragging { anchor: at(0, 0) });
    brush.smooth(&mut grid, pointer(3, 2, true, false), ParticleVariant::Brick);
    let slots: Vec<(usize, usize)> = active_slots(&grid).iter().map(|slot| (slot.0, slot.1)).collect();
    assert_eq!(slots, vec![(0, 0), (1, 1), (2, 2), (3, 2)]);
    brush.smooth(&mut grid, pointer(3, 2, false, true), ParticleVariant::Brick);
    assert_eq!(brush.drag(), Drag::Idle);
    brush.smooth(&mut grid, pointer(7, 7, true, false), ParticleVariant::Brick);
    assert_eq!(active_slots(&grid).len(), 4);
}

#[test]
fn brush_starts_with_radius_one() {
    let brush = Brush::new();
    assert_eq!(brush.radius(), 1);
    assert_eq!(brush.drag(), Drag::Idle);
}

#[test]
fn brush_radius_grows_and_shrinks_but_not_below_one() {
    let mut brush = Brush::new();
    brush.shrink();
    assert_eq!(brush.radius(), 1);
    brush.grow();
    brush.grow();
    assert_eq!(brush.radius(), 3);
    brush.shrink();
    assert_eq!(brush.radius(), 2);
    brush.shrink();
    brush.shrink();
    assert_eq!(brush.radius(), 1);
}

#[test]
fn brush_paints_its_window() {
    let mut grid = field(10, 10);
    let mut brush = Brush::new();
    brush.paint(&mut grid, at(4, 4), ParticleVariant::Sand);
    assert_eq!(active_slots(&grid), vec![(3, 4, ParticleVariant::Sand), (4, 4, ParticleVariant::Sand)]);
    brush.grow();
    brush.paint(&mut grid, at(4, 6), ParticleVariant::Water);
    assert_eq!(active_slots(&grid).len(), 10);
}
