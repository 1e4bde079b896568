//! The walk between two points of the plane that the brush follows when the
//! pointer is dragged.

use vstd::prelude::*;

verus! {

/// A point of the plane in grid units. It may lie outside the grid.
#[derive(Clone, Copy, Debug, PartialEq, Eq, Structural)]
pub struct Point {
    pub x: i32,
    pub y: i32,
}

/// The coordinate one unit from `from` in the direction of `to`, or `from`
/// itself where the two are equal.
pub open spec fn toward(from: int, to: int) -> int {
    if from < to {
        from + 1
    } else if from > to {
        from - 1
    } else {
        from
    }
}

/// The distance between two coordinates.
pub open spec fn gap(from: int, to: int) -> nat {
    if from <= to {
        (to - from) as nat
    } else {
        (from - to) as nat
    }
}

/// Computes the distance between two coordinates.
pub fn span(from: i32, to: i32) -> (distance: u32)
    ensures
        distance == gap(from as int, to as int),
{
    if from <= to {
        (to as i64 - from as i64) as u32
    } else {
        (from as i64 - to as i64) as u32
    }
}

impl Point {
    /// The number of steps from `self` to `target` when a step may change
    /// both coordinates: the larger of the two coordinate distances.
    pub open spec fn distance(self, target: Point) -> nat {
        if gap(self.x as int, target.x as int) >= gap(self.y as int, target.y as int) {
            gap(self.x as int, target.x as int)
        } else {
            gap(self.y as int, target.y as int)
        }
    }

    /// The point one step from `self` towards `target`: each coordinate
    /// moves by one unit unless it has reached the target's.
    pub open spec fn stepped(self, target: Point) -> Point {
        Point {
            x: toward(self.x as int, target.x as int) as i32,
            y: toward(self.y as int, target.y as int) as i32,
        }
    }

    /// Whether `other` is `self` or one of its eight neighbours.
    pub open spec fn touches(self, other: Point) -> bool {
        gap(self.x as int, other.x as int) <= 1 && gap(self.y as int, other.y as int) <= 1
    }

    /// Takes one step towards `target`.
    pub fn step_toward(&self, target: &Point) -> (next: Point)
        ensures
            next == self.stepped(*target),
    {
        let x: i32 = if self.x < target.x {
            self.x + 1
        } else if self.x > target.x {
            self.x - 1
        } else {
            self.x
        };
        let y: i32 = if self.y < target.y {
            self.y + 1
        } else if self.y > target.y {
            self.y - 1
        } else {
            self.y
        };
        Point { x, y }
    }
}

/// The points visited on the way from `from` to `to`, `from` itself left
/// out: step after step towards `to` until it is reached.
pub open spec fn walk(from: Point, to: Point) -> Seq<Point>
    decreases from.distance(to),
{
    if from == to {
        Seq::empty()
    } else {
        seq![from.stepped(to)] + walk(from.stepped(to), to)
    }
}

/// Path coverage: the walk has as many points as the larger coordinate
/// distance, it ends at `to`, its first point touches `from`, and each of
/// its points touches the next.
pub proof fn lemma_walk_covers(from: Point, to: Point)
    ensures
        walk(from, to).len() == from.distance(to),
        from != to ==> walk(from, to).last() == to,
        from != to ==> from.touches(walk(from, to)[0]),
        forall|i: int|
            0 <= i < walk(from, to).len() - 1 ==> (#[trigger] walk(from, to)[i]).touches(
                walk(from, to)[i + 1],
            ),
    decreases from.distance(to),
{
    if from != to {
        let next = from.stepped(to);
        let rest = walk(next, to);
        lemma_walk_covers(next, to);
        assert forall|i: int| 0 <= i < walk(from, to).len() - 1 implies (#[trigger] walk(
            from,
            to,
        )[i]).touches(walk(from, to)[i + 1]) by {
            if i > 0 {
                assert(walk(from, to)[i] == rest[i - 1]);
                assert(walk(from, to)[i + 1] == rest[i]);
            } else {
                assert(walk(from, to)[1] == rest[0]);
            }
        }
    }
}

/// A walk in progress: it hands out the points of `walk(from, to)` one by
/// one and cannot be restarted.
pub struct Path {
    at: Point,
    target: Point,
}

impl View for Path {
    type V = Seq<Point>;

    /// The points that are still to come.
    closed spec fn view(&self) -> Seq<Point> {
        walk(self.at, self.target)
    }
}

impl Path {
    /// The walk from `from` to `to`.
    pub fn new(from: Point, to: Point) -> (path: Path)
        ensures
            path@ == walk(from, to),
    {
        Path { at: from, target: to }
    }

    /// The next point of the walk, or `None` once the target is reached.
    pub fn next(&mut self) -> (point: Option<Point>)
        ensures
            match point {
                Some(p) => old(self)@.len() > 0 && p == old(self)@[0] && final(self)@ == old(
                    self,
                )@.drop_first(),
                None => old(self)@.len() == 0 && final(self)@ == old(self)@,
            },
    {
        if self.at == self.target {
            None
        } else {
            let next = self.at.step_toward(&self.target);
            proof {
                assert(walk(self.at, self.target).drop_first() =~= walk(next, self.target));
            }
            self.at = next;
            Some(next)
        }
    }

    /// The number of points that are still to come.
    pub fn remaining(&self) -> (steps: u32)
        ensures
            steps == self@.len(),
    {
        proof {
            lemma_walk_covers(self.at, self.target);
        }
        let dx: u32 = span(self.at.x, self.target.x);
        let dy: u32 = span(self.at.y, self.target.y);
        if dx >= dy {
            dx
        } else {
            dy
        }
    }
}

} // verus!
