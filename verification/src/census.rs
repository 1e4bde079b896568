//! Counting the records of a grid by kind, and how a single write changes
//! the counts.

use vstd::prelude::*;
use crate::cells::{in_bounds, put, rectangular, Cells};
use crate::grid::Grid;
use crate::particle::{Particle, ParticleVariant};

verus! {

/// A kind of record to count.
#[derive(Clone, Copy, Debug, PartialEq, Eq, Structural)]
pub enum Kind {
    /// Every active record.
    Active,
    /// The active records of one material.
    ActiveOf(ParticleVariant),
    /// The records, active or not, that carry one id.
    WithId(u32),
    /// The active records that carry one id.
    ActiveWithId(u32),
}

impl Kind {
    /// Whether `particle` is of this kind.
    pub open spec fn selects(self, particle: Particle) -> bool {
        match self {
            Kind::Active => particle.active,
            Kind::ActiveOf(variant) => particle.active && particle.variant == variant,
            Kind::WithId(id) => particle.id == id,
            Kind::ActiveWithId(id) => particle.active && particle.id == id,
        }
    }

    /// One if `particle` is of this kind, zero if not.
    pub open spec fn weight(self, particle: Particle) -> nat {
        if self.selects(particle) {
            1
        } else {
            0
        }
    }

    /// Tells whether `particle` is of this kind.
    pub fn matches(&self, particle: &Particle) -> (selected: bool)
        ensures
            selected == self.selects(*particle),
    {
        match self {
            Kind::Active => particle.active,
            Kind::ActiveOf(variant) => particle.active && particle.variant == *variant,
            Kind::WithId(id) => particle.id == *id,
            Kind::ActiveWithId(id) => particle.active && particle.id == *id,
        }
    }
}

/// The number of records of `kind` in one column.
pub open spec fn count_column(column: Seq<Particle>, kind: Kind) -> nat
    decreases column.len(),
{
    if column.len() == 0 {
        0
    } else {
        count_column(column.drop_last(), kind) + kind.weight(column.last())
    }
}

/// The number of records of `kind` in the grid.
pub open spec fn count(cells: Cells, kind: Kind) -> nat
    decreases cells.len(),
{
    if cells.len() == 0 {
        0
    } else {
        count(cells.drop_last(), kind) + count_column(cells.last(), kind)
    }
}

/// A column holds no more records of a kind than it has rows.
pub proof fn lemma_count_column_bound(column: Seq<Particle>, kind: Kind)
    ensures
        count_column(column, kind) <= column.len(),
    decreases column.len(),
{
    if column.len() > 0 {
        lemma_count_column_bound(column.drop_last(), kind);
    }
}

/// A rectangular grid holds no more records of a kind than it has slots.
pub proof fn lemma_count_bound(cells: Cells, height: nat, kind: Kind)
    requires
        rectangular(cells, height),
    ensures
        count(cells, kind) <= cells.len() * height,
    decreases cells.len(),
{
    if cells.len() > 0 {
        lemma_count_bound(cells.drop_last(), height, kind);
        lemma_count_column_bound(cells.last(), kind);
        assert(cells.drop_last().len() * height + height == cells.len() * height)
            by (nonlinear_arith)
            requires
                cells.drop_last().len() + 1 == cells.len(),
        ;
    } else {
        assert(cells.len() * height == 0) by (nonlinear_arith)
            requires
                cells.len() == 0,
        ;
    }
}

/// A column holds at least the record in any of its rows.
pub proof fn lemma_count_column_holds(column: Seq<Particle>, y: int, kind: Kind)
    requires
        0 <= y < column.len(),
    ensures
        count_column(column, kind) >= kind.weight(column[y]),
    decreases column.len(),
{
    if y < column.len() - 1 {
        lemma_count_column_holds(column.drop_last(), y, kind);
    }
}

/// A grid holds at least the record in any of its slots.
pub proof fn lemma_count_holds(cells: Cells, x: int, y: int, kind: Kind)
    requires
        in_bounds(cells, x, y),
    ensures
        count(cells, kind) >= kind.weight(cells[x][y]),
    decreases cells.len(),
{
    if x < cells.len() - 1 {
        lemma_count_holds(cells.drop_last(), x, y, kind);
    } else {
        lemma_count_column_holds(cells[x], y, kind);
    }
}

/// Replacing one record of a column moves the count by the weights of the
/// old and the new record.
pub proof fn lemma_count_column_update(column: Seq<Particle>, y: int, particle: Particle, kind: Kind)
    requires
        0 <= y < column.len(),
    ensures
        count_column(column.update(y, particle), kind) + kind.weight(column[y]) == count_column(
            column,
            kind,
        ) + kind.weight(particle),
    decreases column.len(),
{
    let updated = column.update(y, particle);
    if y == column.len() - 1 {
        assert(updated.drop_last() =~= column.drop_last());
    } else {
        assert(updated.drop_last() =~= column.drop_last().update(y, particle));
        lemma_count_column_update(column.drop_last(), y, particle, kind);
    }
}

/// Replacing one column of a grid moves the count by the counts of the old
/// and the new column.
pub proof fn lemma_count_replace_column(cells: Cells, x: int, column: Seq<Particle>, kind: Kind)
    requires
        0 <= x < cells.len(),
    ensures
        count(cells.update(x, column), kind) + count_column(cells[x], kind) == count(cells, kind)
            + count_column(column, kind),
    decreases cells.len(),
{
    let updated = cells.update(x, column);
    if x == cells.len() - 1 {
        assert(updated.drop_last() =~= cells.drop_last());
    } else {
        assert(updated.drop_last() =~= cells.drop_last().update(x, column));
        lemma_count_replace_column(cells.drop_last(), x, column, kind);
    }
}

/// Replacing one record of a grid moves the count by the weights of the old
/// and the new record.
pub proof fn lemma_count_put(cells: Cells, x: int, y: int, particle: Particle, kind: Kind)
    requires
        in_bounds(cells, x, y),
    ensures
        count(put(cells, x, y, particle), kind) + kind.weight(cells[x][y]) == count(cells, kind)
            + kind.weight(particle),
{
    lemma_count_column_update(cells[x], y, particle, kind);
    lemma_count_replace_column(cells, x, cells[x].update(y, particle), kind);
}

/// A prefix of a column holds no more records of a kind than the column.
pub proof fn lemma_count_column_take(column: Seq<Particle>, rows: int, kind: Kind)
    requires
        0 <= rows <= column.len(),
    ensures
        count_column(column.take(rows), kind) <= count_column(column, kind),
    decreases column.len(),
{
    if rows == column.len() {
        assert(column.take(rows) =~= column);
    } else {
        assert(column.drop_last().take(rows) =~= column.take(rows));
        lemma_count_column_take(column.drop_last(), rows, kind);
    }
}

/// Counts the records of `kind` in the grid.
pub fn census(grid: &Grid, kind: Kind) -> (total: usize)
    requires
        grid.wf(),
    ensures
        total == count(grid@, kind),
{
    let width: usize = grid.width();
    let height: usize = grid.height();
    let mut total: usize = 0;
    let mut x: usize = 0;
    while x < width
        invariant
            grid.wf(),
            width == grid.spec_width(),
            height == grid.spec_height(),
            x <= width,
            total == count(grid@.take(x as int), kind),
        decreases width - x,
    {
        let mut y: usize = 0;
        let ghost before = total;
        proof {
            lemma_count_bound(grid@.take(x as int + 1), height as nat, kind);
            assert(grid@.take(x as int + 1).drop_last() =~= grid@.take(x as int));
            assert((x + 1) * height <= width * height) by (nonlinear_arith)
                requires
                    x + 1 <= width,
            ;
        }
        while y < height
            invariant
                grid.wf(),
                width == grid.spec_width(),
                height == grid.spec_height(),
                x < width,
                y <= height,
                total == before + count_column(grid@[x as int].take(y as int), kind),
                before + count_column(grid@[x as int], kind) <= usize::MAX,
            decreases height - y,
        {
            let particle = grid.get(x, y);
            proof {
                let column = grid@[x as int];
                assert(column.take(y as int + 1).drop_last() =~= column.take(y as int));
                lemma_count_column_take(column, y as int + 1, kind);
            }
            if kind.matches(&particle) {
                total = total + 1;
            }
            y = y + 1;
        }
        proof {
            assert(grid@[x as int].take(height as int) =~= grid@[x as int]);
        }
        x = x + 1;
    }
    proof {
        assert(grid@.take(width as int) =~= grid@);
    }
    total
}

} // verus!
