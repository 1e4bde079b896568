//! The brush: painting material into the empty slots of a window or of a
//! dragged path, and the state machine behind drag smoothing.

use vstd::prelude::*;
use crate::cells::{in_bounds, put, same_shape, Cells};
use crate::grid::Grid;
use crate::particle::{Particle, ParticleVariant};
use crate::path::{walk, Path, Point};

verus! {

/// The grid after `region` has been painted with `variant`: every empty
/// slot of the region holds active material of that kind under the id it
/// had, and every other slot is as it was.
pub open spec fn painted(cells: Cells, region: Set<(int, int)>, variant: ParticleVariant) -> Cells {
    Seq::new(
        cells.len(),
        |x: int|
            Seq::new(
                cells[x].len(),
                |y: int|
                    if region.contains((x, y)) {
                        cells[x][y].painted(variant)
                    } else {
                        cells[x][y]
                    },
            ),
    )
}

/// The window of a brush of the given radius at `center`: `radius` columns
/// to either side of the center, and `radius` rows from the center's row
/// downwards.
pub open spec fn window(center: Point, radius: int) -> Set<(int, int)> {
    Set::new(
        |slot: (int, int)|
            center.x - radius <= slot.0 < center.x + radius && center.y <= slot.1 < center.y
                + radius,
    )
}

/// The slots that the points of `points` lie on.
pub open spec fn covered(points: Seq<Point>) -> Set<(int, int)> {
    Set::new(
        |slot: (int, int)|
            exists|i: int|
                0 <= i < points.len() && (#[trigger] points[i]).x == slot.0 && points[i].y
                    == slot.1,
    )
}

/// The slots of a stroke from `from` to `to`: the start and every point of
/// the walk between the two.
pub open spec fn stroke(from: Point, to: Point) -> Set<(int, int)> {
    covered(seq![from] + walk(from, to))
}

/// Idempotent painting: painting changes no slot that is active, and no
/// slot outside the painted region.
pub proof fn lemma_paint_fills_empty_only(
    cells: Cells,
    region: Set<(int, int)>,
    variant: ParticleVariant,
    x: int,
    y: int,
)
    requires
        in_bounds(cells, x, y),
        cells[x][y].active || !region.contains((x, y)),
    ensures
        painted(cells, region, variant)[x][y] == cells[x][y],
        painted(painted(cells, region, variant), region, variant) == painted(
            cells,
            region,
            variant,
        ),
{
    assert(painted(painted(cells, region, variant), region, variant) =~~= painted(
        cells,
        region,
        variant,
    ));
}

/// The slots of a sequence of points are the slot of the first and the
/// slots of the rest.
proof fn lemma_covered_first(points: Seq<Point>)
    requires
        points.len() > 0,
    ensures
        covered(points) == covered(points.drop_first()).insert(
            (points[0].x as int, points[0].y as int),
        ),
{
    let rest = points.drop_first();
    let whole = covered(points);
    let parts = covered(rest).insert((points[0].x as int, points[0].y as int));
    assert forall|slot: (int, int)| whole.contains(slot) <==> parts.contains(slot) by {
        if whole.contains(slot) {
            let i = choose|i: int|
                0 <= i < points.len() && (#[trigger] points[i]).x == slot.0 && points[i].y
                    == slot.1;
            if i > 0 {
                assert(rest[i - 1] == points[i]);
            }
        }
        if covered(rest).contains(slot) {
            let i = choose|i: int|
                0 <= i < rest.len() && (#[trigger] rest[i]).x == slot.0 && rest[i].y == slot.1;
            assert(points[i + 1] == rest[i]);
        }
        if slot == (points[0].x as int, points[0].y as int) {
            assert(points[0].x == slot.0);
        }
    }
    assert(whole =~= parts);
}

/// Painting one slot and then a region is painting the region with the slot
/// added to it.
proof fn lemma_paint_in_parts(
    cells: Cells,
    slot: (int, int),
    rest: Set<(int, int)>,
    variant: ParticleVariant,
)
    ensures
        painted(painted(cells, set![slot], variant), rest, variant) == painted(
            cells,
            rest.insert(slot),
            variant,
        ),
{
    assert(painted(painted(cells, set![slot], variant), rest, variant) =~~= painted(
        cells,
        rest.insert(slot),
        variant,
    ));
}

/// Fills the slot `(x, y)` if it is empty.
fn fill(grid: &mut Grid, x: usize, y: usize, variant: ParticleVariant)
    requires
        old(grid).wf(),
        old(grid).has(x as int, y as int),
    ensures
        final(grid).wf(),
        final(grid).spec_height() == old(grid).spec_height(),
        final(grid).spec_last_id() == old(grid).spec_last_id(),
        final(grid)@ == put(
            old(grid)@,
            x as int,
            y as int,
            old(grid)@[x as int][y as int].painted(variant),
        ),
{
    let particle = grid.get(x, y);
    if !particle.active {
        grid.set(x, y, Particle::new(particle.id, variant, true));
    }
    proof {
        assert(grid@ =~~= put(old(grid)@, x as int, y as int, particle.painted(variant)));
    }
}

/// Paints the slot under `point`, if the grid has it and it is empty.
pub fn paint_point(grid: &mut Grid, point: Point, variant: ParticleVariant)
    requires
        old(grid).wf(),
    ensures
        final(grid).wf(),
        final(grid).spec_height() == old(grid).spec_height(),
        final(grid).spec_last_id() == old(grid).spec_last_id(),
        final(grid)@ == painted(old(grid)@, set![(point.x as int, point.y as int)], variant),
{
    if point.x >= 0 && point.y >= 0 {
        let x: usize = point.x as usize;
        let y: usize = point.y as usize;
        if grid.in_bounds(x, y) {
            fill(grid, x, y, variant);
        }
    }
    proof {
        assert(grid@ =~~= painted(
            old(grid)@,
            set![(point.x as int, point.y as int)],
            variant,
        ));
    }
}

/// Paints a stroke from `previous` to `current`: the slot under `previous`
/// and the slot under every point of the walk to `current`, as far as the
/// grid has them and they are empty. A fast drag so leaves no gap.
pub fn paint_line(grid: &mut Grid, previous: Point, current: Point, variant: ParticleVariant)
    requires
        old(grid).wf(),
    ensures
        final(grid).wf(),
        final(grid).spec_height() == old(grid).spec_height(),
        final(grid).spec_last_id() == old(grid).spec_last_id(),
        final(grid)@ == painted(old(grid)@, stroke(previous, current), variant),
{
    let mut path = Path::new(previous, current);
    let ghost goal = painted(old(grid)@, stroke(previous, current), variant);
    paint_point(grid, previous, variant);
    proof {
        let points = seq![previous] + walk(previous, current);
        assert(points.drop_first() =~= walk(previous, current));
        lemma_covered_first(points);
        lemma_paint_in_parts(
            old(grid)@,
            (previous.x as int, previous.y as int),
            covered(path@),
            variant,
        );
    }
    loop
        invariant
            grid.wf(),
            grid.spec_height() == old(grid).spec_height(),
            grid.spec_last_id() == old(grid).spec_last_id(),
            painted(grid@, covered(path@), variant) == goal,
        ensures
            grid@ == goal,
        decreases path@.len(),
    {
        let ghost before = grid@;
        let ghost ahead = path@;
        let next = path.next();
        match next {
            Some(point) => {
                paint_point(grid, point, variant);
                proof {
                    lemma_covered_first(ahead);
                    lemma_paint_in_parts(
                        before,
                        (point.x as int, point.y as int),
                        covered(path@),
                        variant,
                    );
                }
            },
            None => {
                proof {
                    assert(painted(grid@, covered(path@), variant) =~~= grid@);
                }
                break ;
            },
        }
    }
}

/// The smaller of `limit` and `value`, and zero for a negative `value`.
pub open spec fn clamped(value: int, limit: int) -> int {
    if value < 0 {
        0
    } else if value > limit {
        limit
    } else {
        value
    }
}

/// Computes `clamped`.
fn clamp(value: i64, limit: usize) -> (result: usize)
    ensures
        result == clamped(value as int, limit as int),
{
    if value < 0 {
        0
    } else if value as u64 > limit as u64 {
        limit
    } else {
        value as usize
    }
}

/// Paints the window of a brush of the given radius at `center`: every
/// empty slot of the grid in the `radius` columns to either side of the
/// center and in the `radius` rows from the center's row downwards.
pub fn paint_area(grid: &mut Grid, center: Point, radius: u16, variant: ParticleVariant)
    requires
        old(grid).wf(),
    ensures
        final(grid).wf(),
        final(grid).spec_height() == old(grid).spec_height(),
        final(grid).spec_last_id() == old(grid).spec_last_id(),
        final(grid)@ == painted(old(grid)@, window(center, radius as int), variant),
{
    let width: usize = grid.width();
    let height: usize = grid.height();
    let left: usize = clamp(center.x as i64 - radius as i64, width);
    let right: usize = clamp(center.x as i64 + radius as i64, width);
    let top: usize = clamp(center.y as i64, height);
    let bottom: usize = clamp(center.y as i64 + radius as i64, height);
    let ghost region = window(center, radius as int);
    let mut x: usize = left;
    while x < right
        invariant
            grid.wf(),
            old(grid).wf(),
            grid.spec_height() == old(grid).spec_height(),
            grid.spec_last_id() == old(grid).spec_last_id(),
            width == grid.spec_width(),
            height == grid.spec_height(),
            same_shape(old(grid)@, grid@),
            left <= x,
            left == clamped(center.x - radius, width as int),
            right == clamped(center.x + radius, width as int),
            top == clamped(center.y as int, height as int),
            bottom == clamped(center.y + radius, height as int),
            region == window(center, radius as int),
            forall|a: int, b: int|
                in_bounds(old(grid)@, a, b) ==> #[trigger] grid@[a][b] == if a < x
                    && region.contains((a, b)) {
                    old(grid)@[a][b].painted(variant)
                } else {
                    old(grid)@[a][b]
                },
        decreases right - x,
    {
        let mut y: usize = top;
        while y < bottom
            invariant
                grid.wf(),
                old(grid).wf(),
                grid.spec_height() == old(grid).spec_height(),
                grid.spec_last_id() == old(grid).spec_last_id(),
                width == grid.spec_width(),
                height == grid.spec_height(),
                same_shape(old(grid)@, grid@),
                left <= x < right,
                top <= y,
                left == clamped(center.x - radius, width as int),
                right == clamped(center.x + radius, width as int),
                top == clamped(center.y as int, height as int),
                bottom == clamped(center.y + radius, height as int),
                region == window(center, radius as int),
                forall|a: int, b: int|
                    in_bounds(old(grid)@, a, b) ==> #[trigger] grid@[a][b] == if (a < x || (a
                        == x && b < y)) && region.contains((a, b)) {
                        old(grid)@[a][b].painted(variant)
                    } else {
                        old(grid)@[a][b]
                    },
            decreases bottom - y,
        {
            fill(grid, x, y, variant);
            y = y + 1;
        }
        x = x + 1;
    }
    proof {
        assert(grid@ =~~= painted(old(grid)@, region, variant));
    }
}

/// What the pointer does in a frame.
#[derive(Clone, Copy, Debug, PartialEq, Eq, Structural)]
pub struct Pointer {
    /// Where the pointer is, in grid units.
    pub position: Point,
    /// Whether the button is down.
    pub held: bool,
    /// Whether the button was let go in this frame.
    pub released: bool,
}

/// The state of a drag. A drag begins with the first frame in which the
/// button is down; that frame only remembers where the pointer is. Every
/// further frame of the drag paints a stroke from the remembered point to
/// the pointer. Letting the button go ends the drag.
#[derive(Clone, Copy, Debug, PartialEq, Eq, Structural)]
pub enum Drag {
    /// No drag is under way.
    Idle,
    /// A drag is under way, and the pointer was last seen at `anchor`.
    Dragging { anchor: Point },
}

impl Drag {
    /// The stroke to paint in a frame: none unless the button is down and a
    /// drag is under way already, else from the anchor to the pointer.
    pub open spec fn stroke_for(self, pointer: Pointer) -> Option<(Point, Point)> {
        match self {
            Drag::Dragging { anchor } if pointer.held => Some((anchor, pointer.position)),
            _ => None,
        }
    }

    /// The state after a frame: idle when the button was let go, else
    /// dragging with the pointer as the anchor when the button is down, else
    /// as before.
    pub open spec fn after(self, pointer: Pointer) -> Drag {
        if pointer.released {
            Drag::Idle
        } else if pointer.held {
            Drag::Dragging { anchor: pointer.position }
        } else {
            self
        }
    }

    /// Takes the state through one frame and returns the stroke to paint.
    pub fn advance(&mut self, pointer: Pointer) -> (stroke: Option<(Point, Point)>)
        ensures
            stroke == old(self).stroke_for(pointer),
            *final(self) == old(self).after(pointer),
    {
        let stroke = match *self {
            Drag::Dragging { anchor } if pointer.held => Some((anchor, pointer.position)),
            _ => None,
        };
        if pointer.released {
            *self = Drag::Idle;
        } else if pointer.held {
            *self = Drag::Dragging { anchor: pointer.position };
        }
        stroke
    }
}

/// A brush: the radius of its window and the drag it is in.
pub struct Brush {
    radius: u16,
    drag: Drag,
}

impl Brush {
    /// The radius of the brush's window.
    pub closed spec fn spec_radius(&self) -> nat {
        self.radius as nat
    }

    /// The drag that the brush is in.
    pub closed spec fn spec_drag(&self) -> Drag {
        self.drag
    }

    /// The brush's invariant: the radius is at least one.
    pub open spec fn wf(&self) -> bool {
        1 <= self.spec_radius() <= u16::MAX
    }

    /// A brush of radius one that is not dragging.
    pub fn new() -> (brush: Brush)
        ensures
            brush.wf(),
            brush.spec_radius() == 1,
            brush.spec_drag() == Drag::Idle,
    {
        Brush { radius: 1, drag: Drag::Idle }
    }

    /// The radius of the brush's window.
    pub fn radius(&self) -> (radius: u16)
        ensures
            radius == self.spec_radius(),
    {
        self.radius
    }

    /// The drag that the brush is in.
    pub fn drag(&self) -> (drag: Drag)
        ensures
            drag == self.spec_drag(),
    {
        self.drag
    }

    /// Widens the brush by one.
    pub fn grow(&mut self)
        requires
            old(self).wf(),
            old(self).spec_radius() < u16::MAX,
        ensures
            final(self).wf(),
            final(self).spec_radius() == old(self).spec_radius() + 1,
            final(self).spec_drag() == old(self).spec_drag(),
    {
        self.radius = self.radius + 1;
    }

    /// Narrows the brush by one, but not below one.
    pub fn shrink(&mut self)
        requires
            old(self).wf(),
        ensures
            final(self).wf(),
            final(self).spec_radius() == if old(self).spec_radius() > 1 {
                (old(self).spec_radius() - 1) as nat
            } else {
                old(self).spec_radius()
            },
            final(self).spec_drag() == old(self).spec_drag(),
    {
        if self.radius > 1 {
            self.radius = self.radius - 1;
        }
    }

    /// Paints the brush's window at `center`.
    pub fn paint(&self, grid: &mut Grid, center: Point, variant: ParticleVariant)
        requires
            old(grid).wf(),
        ensures
            final(grid).wf(),
            final(grid).spec_height() == old(grid).spec_height(),
            final(grid).spec_last_id() == old(grid).spec_last_id(),
            final(grid)@ == painted(old(grid)@, window(center, self.spec_radius() as int), variant),
    {
        paint_area(grid, center, self.radius, variant);
    }

    /// Takes the brush's drag through one frame and paints the stroke that
    /// the frame asks for, if any.
    pub fn smooth(&mut self, grid: &mut Grid, pointer: Pointer, variant: ParticleVariant)
        requires
            old(grid).wf(),
        ensures
            final(grid).wf(),
            final(grid).spec_height() == old(grid).spec_height(),
            final(grid).spec_last_id() == old(grid).spec_last_id(),
            final(self).spec_radius() == old(self).spec_radius(),
            final(self).spec_drag() == old(self).spec_drag().after(pointer),
            final(grid)@ == match old(self).spec_drag().stroke_for(pointer) {
                Some((from, to)) => painted(old(grid)@, stroke(from, to), variant),
                None => old(grid)@,
            },
    {
        match self.drag.advance(pointer) {
            Some((from, to)) => paint_line(grid, from, to, variant),
            None => {},
        }
    }
}

} // verus!
