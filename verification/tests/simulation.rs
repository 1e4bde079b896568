use rusty_sandbox::census::{census, Kind};
use rusty_sandbox::guard::Evaluated;
use rusty_sandbox::motion::Draw;
use rusty_sandbox::simulation::{step, step_with, update, update_with};
use rusty_sandbox::{Grid, Particle, ParticleVariant};

fn field(width: usize, height: usize) -> Grid {
    let mut grid = Grid::new();
    grid.ensure_size(width, height);
    grid
}

fn place(grid: &mut Grid, x: usize, y: usize, variant: ParticleVariant) -> Particle {
    let particle = Particle::new(grid.get(x, y).id, variant, true);
    grid.set(x, y, particle);
    particle
}

fn same_draw(grid: &Grid, draw: Draw) -> Vec<Vec<Draw>> {
    vec![vec![draw; grid.height()]; grid.width()]
}

fn active_slots(grid: &Grid) -> Vec<(usize, usize, ParticleVariant)> {
    let mut slots = Vec::new();
    for x in 0..grid.width() {
        for y in 0..grid.height() {
            let particle = grid.get(x, y);
            if particle.active {
                slots.push((x, y, particle.variant));
            }
        }
    }
    slots
}

fn all_ids(grid: &Grid) -> Vec<u32> {
    let mut ids = Vec::new();
    for x in 0..grid.width() {
        for y in 0..grid.height() {
            ids.push(grid.get(x, y).id);
        }
    }
    ids.sort();
    ids
}

fn has_duplicates(ids: &[u32]) -> bool {
    let mut sorted = ids.to_vec();
    sorted.sort();
    sorted.windows(2).any(|pair| pair[0] == pair[1])
}

#[test]
fn evaluated_records_in_order() {
    let mut seen = Evaluated::new();
    assert!(!seen.contains(4));
    seen.record(4);
    seen.record(9);
    assert!(seen.contains(4));
    assert!(seen.contains(9));
    assert!(!seen.contains(5));
    assert_eq!(seen.into_ids(), vec![4, 9]);
}

#[test]
fn sand_falls_one_row_per_frame_until_the_floor() {
    let mut grid = field(10, 6);
    let sand = place(&mut grid, 5, 0, ParticleVariant::Sand);
    for frame in 1..=5 {
        let evaluated = step(&mut grid);
        assert_eq!(evaluated, vec![sand.id]);
        assert_eq!(active_slots(&grid), vec![(5, frame, ParticleVariant::Sand)]);
        assert_eq!(grid.get(5, frame), sand);
    }
    for _ in 0..50 {
        let evaluated = step(&mut grid);
        assert_eq!(evaluated, vec![sand.id]);
        let slots = active_slots(&grid);
        assert_eq!(slots.len(), 1);
        assert_eq!(slots[0].1, 5);
        assert_eq!(slots[0].2, ParticleVariant::Sand);
    }
}

#[test]
fn sand_on_the_floor_stays_without_a_sideways_draw() {
    let mut grid = field(10, 6);
    let sand = place(&mut grid, 5, 0, ParticleVariant::Sand);
    let draws = same_draw(&grid, Draw::still());
    for frame in 1..=5 {
        step_with(&mut grid, &draws);
        assert_eq!(active_slots(&grid), vec![(5, frame, ParticleVariant::Sand)]);
    }
    for _ in 0..5 {
        let evaluated = step_with(&mut grid, &draws);
        assert_eq!(evaluated, vec![sand.id]);
        assert_eq!(active_slots(&grid), vec![(5, 5, ParticleVariant::Sand)]);
        assert_eq!(grid.get(5, 5), sand);
    }
}

#[test]
fn sand_sinks_through_a_water_column_one_row_per_frame() {
    let mut grid = field(3, 6);
    let sand = place(&mut grid, 1, 1, ParticleVariant::Sand);
    for y in 2..6 {
        place(&mut grid, 1, y, ParticleVariant::Water);
    }
    for x in [0, 2] {
        for y in 0..6 {
            place(&mut grid, x, y, ParticleVariant::Brick);
        }
    }
    let draws = same_draw(&grid, Draw { offset: 0, drift: true });
    for frame in 1..=4 {
        step_with(&mut grid, &draws);
        let row = 1 + frame;
        assert_eq!(grid.get(1, row), sand);
        for y in 1..row {
            let above = grid.get(1, y);
            assert!(above.active);
            assert_eq!(above.variant, ParticleVariant::Water);
        }
        assert_eq!(census(&grid, Kind::ActiveOf(ParticleVariant::Water)), 4);
        assert_eq!(census(&grid, Kind::ActiveOf(ParticleVariant::Sand)), 1);
    }
    step_with(&mut grid, &draws);
    assert_eq!(grid.get(1, 5), sand);
    assert!(!grid.get(1, 0).active);
}

#[test]
fn sinking_sand_stops_on_a_solid() {
    let mut grid = field(1, 5);
    let sand = place(&mut grid, 0, 0, ParticleVariant::Sand);
    place(&mut grid, 0, 1, ParticleVariant::Water);
    place(&mut grid, 0, 2, ParticleVariant::Water);
    place(&mut grid, 0, 3, ParticleVariant::Brick);
    let draws = same_draw(&grid, Draw { offset: 0, drift: true });
    step_with(&mut grid, &draws);
    assert_eq!(grid.get(0, 1), sand);
    step_with(&mut grid, &draws);
    assert_eq!(grid.get(0, 2), sand);
    step_with(&mut grid, &draws);
    assert_eq!(grid.get(0, 2), sand);
    assert_eq!(grid.get(0, 0).variant, ParticleVariant::Water);
    assert_eq!(grid.get(0, 1).variant, ParticleVariant::Water);
    assert_eq!(grid.get(0, 3).variant, ParticleVariant::Brick);
}

#[test]
fn a_fallen_particle_is_not_moved_again_in_the_same_frame() {
    let mut grid = field(1, 8);
    let sand = place(&mut grid, 0, 0, ParticleVariant::Sand);
    let evaluated = step(&mut grid);
    assert_eq!(evaluated, vec![sand.id]);
    assert_eq!(grid.get(0, 1), sand);
    assert!(!grid.get(0, 2).active);
}

#[test]
fn a_particle_that_slid_ahead_is_not_moved_again() {
    let mut grid = field(6, 1);
    let water = place(&mut grid, 0, 0, ParticleVariant::Water);
    let draws = same_draw(&grid, Draw { offset: 2, drift: false });
    let evaluated = step_with(&mut grid, &draws);
    assert_eq!(evaluated, vec![water.id]);
    assert_eq!(active_slots(&grid), vec![(2, 0, ParticleVariant::Water)]);
    assert_eq!(grid.get(2, 0), water);
}

#[test]
fn displaced_water_is_skipped_for_the_frame() {
    let mut grid = field(1, 3);
    let sand = place(&mut grid, 0, 0, ParticleVariant::Sand);
    let upper = place(&mut grid, 0, 1, ParticleVariant::Water);
    let lower = place(&mut grid, 0, 2, ParticleVariant::Water);
    let draws = same_draw(&grid, Draw { offset: 0, drift: true });
    let evaluated = step_with(&mut grid, &draws);
    assert_eq!(evaluated, vec![sand.id, lower.id]);
    assert_eq!(grid.get(0, 0), upper);
    assert_eq!(grid.get(0, 1), sand);
    assert_eq!(grid.get(0, 2), lower);
}

#[test]
fn step_evaluates_no_id_twice() {
    let mut grid = field(12, 10);
    for x in 0..12 {
        for y in 0..10 {
            match (x * 7 + y * 3) % 5 {
                0 => {
                    place(&mut grid, x, y, ParticleVariant::Sand);
                },
                1 => {
                    place(&mut grid, x, y, ParticleVariant::Water);
                },
                2 => {
                    place(&mut grid, x, y, ParticleVariant::Dirt);
                },
                3 if y > 6 => {
                    place(&mut grid, x, y, ParticleVariant::Brick);
                },
                _ => {},
            }
        }
    }
    for _ in 0..40 {
        let active: Vec<u32> = {
            let mut ids = Vec::new();
            for x in 0..12 {
                for y in 0..10 {
                    let particle = grid.get(x, y);
                    if particle.active {
                        ids.push(particle.id);
                    }
                }
            }
            ids
        };
        let evaluated = step(&mut grid);
        assert!(!has_duplicates(&evaluated));
        assert!(evaluated.len() <= active.len());
        for id in &evaluated {
            assert!(active.contains(id));
        }
    }
}

#[test]
fn step_conserves_material_and_ids() {
    let mut grid = field(9, 9);
    for x in 0..9 {
        for y in 0..9 {
            match (x + 2 * y) % 4 {
                0 => {
                    place(&mut grid, x, y, ParticleVariant::Water);
                },
                1 => {
                    place(&mut grid, x, y, ParticleVariant::Sand);
                },
                2 if x % 2 == 0 => {
                    place(&mut grid, x, y, ParticleVariant::Dirt);
                },
                _ => {},
            }
        }
    }
    let kinds = [
        Kind::Active,
        Kind::ActiveOf(ParticleVariant::Sand),
        Kind::ActiveOf(ParticleVariant::Dirt),
        Kind::ActiveOf(ParticleVariant::Water),
        Kind::ActiveOf(ParticleVariant::Brick),
    ];
    let before: Vec<usize> = kinds.iter().map(|kind| census(&grid, *kind)).collect();
    let ids = all_ids(&grid);
    let last = grid.last_id();
    for _ in 0..60 {
        step(&mut grid);
        let after: Vec<usize> = kinds.iter().map(|kind| census(&grid, *kind)).collect();
        assert_eq!(before, after);
        assert_eq!(all_ids(&grid), ids);
        assert_eq!(grid.width(), 9);
        assert_eq!(grid.height(), 9);
        assert_eq!(grid.last_id(), last);
    }
}

#[test]
fn water_spreads_over_the_floor() {
    let mut grid = field(9, 4);
    for y in 0..4 {
        place(&mut grid, 4, y, ParticleVariant::Water);
    }
    for _ in 0..400 {
        step(&mut grid);
    }
    let slots = active_slots(&grid);
    assert_eq!(slots.len(), 4);
    for (_, y, variant) in slots {
        assert_eq!(y, 3);
        assert_eq!(variant, ParticleVariant::Water);
    }
}

#[test]
fn brick_is_never_moved_by_a_step() {
    let mut grid = field(5, 5);
    let brick = place(&mut grid, 2, 1, ParticleVariant::Brick);
    for _ in 0..20 {
        let evaluated = step(&mut grid);
        assert_eq!(evaluated, vec![brick.id]);
        assert_eq!(grid.get(2, 1), brick);
    }
}

#[test]
fn step_on_an_empty_grid_does_nothing() {
    let mut grid = Grid::new();
    assert!(step(&mut grid).is_empty());
    let mut grid = field(4, 4);
    assert!(step(&mut grid).is_empty());
    assert!(active_slots(&grid).is_empty());
}

#[test]
fn update_with_moves_and_records() {
    let mut grid = field(3, 3);
    let sand = place(&mut grid, 1, 0, ParticleVariant::Sand);
    let mut seen = Evaluated::new();
    update_with(&mut grid, &mut seen, 1, 0, Draw { offset: 1, drift: true });
    assert_eq!(grid.get(1, 1), sand);
    assert!(seen.contains(sand.id));
    update_with(&mut grid, &mut seen, 1, 1, Draw::still());
    assert_eq!(grid.get(1, 1), sand);
    assert!(!grid.get(1, 2).active);
    assert_eq!(seen.into_ids(), vec![sand.id]);
}

#[test]
fn update_with_passes_over_empty_slots() {
    let mut grid = field(3, 3);
    let mut seen = Evaluated::new();
    update_with(&mut grid, &mut seen, 1, 1, Draw { offset: 1, drift: false });
    assert!(seen.into_ids().is_empty());
    assert!(active_slots(&grid).is_empty());
}

#[test]
fn update_records_a_particle_that_stays() {
    let mut grid = field(3, 3);
    let brick = place(&mut grid, 1, 2, ParticleVariant::Brick);
    let mut seen = Evaluated::new();
    let used = update(&mut grid, &mut seen, 1, 2);
    assert_eq!(used, Draw::still());
    assert_eq!(grid.get(1, 2), brick);
    assert_eq!(seen.into_ids(), vec![brick.id]);
}

#[test]
fn update_rolls_within_range() {
    for _ in 0..300 {
        let mut grid = field(5, 1);
        place(&mut grid, 2, 0, ParticleVariant::Water);
        let mut seen = Evaluated::new();
        let used = update(&mut grid, &mut seen, 2, 0);
        assert!((-2..=2).contains(&used.offset));
        let slots = active_slots(&grid);
        assert_eq!(slots.len(), 1);
        assert_eq!(slots[0].0 as i32, 2 + used.offset);
    }
}

#[test]
fn step_with_no_draws_lets_particles_fall_and_nothing_else() {
    let mut grid = field(5, 4);
    let water = place(&mut grid, 2, 0, ParticleVariant::Water);
    let sand = place(&mut grid, 0, 3, ParticleVariant::Sand);
    let none: Vec<Vec<Draw>> = Vec::new();
    for frame in 1..=3 {
        let evaluated = step_with(&mut grid, &none);
        assert_eq!(evaluated, vec![sand.id, water.id]);
        assert_eq!(grid.get(2, frame), water);
        assert_eq!(grid.get(0, 3), sand);
    }
    step_with(&mut grid, &none);
    assert_eq!(
        active_slots(&grid),
        vec![(0, 3, ParticleVariant::Sand), (2, 3, ParticleVariant::Water)]
    );
}

#[test]
fn step_with_reads_the_draw_of_each_slot() {
    let mut grid = field(5, 1);
    let left = place(&mut grid, 0, 0, ParticleVariant::Water);
    let right = place(&mut grid, 4, 0, ParticleVariant::Water);
    let draws = vec![vec![Draw { offset: 1, drift: false }], vec![], vec![], vec![], vec![Draw { offset: -2, drift: false }]];
    let evaluated = step_with(&mut grid, &draws);
    assert_eq!(evaluated, vec![left.id, right.id]);
    assert_eq!(grid.get(1, 0), left);
    assert_eq!(grid.get(2, 0), right);
    assert_eq!(active_slots(&grid).len(), 2);
}
