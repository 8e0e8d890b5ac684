use vstd::prelude::*;

verus! {

/// The state of one grid cell.
#[derive(Clone, Copy, Debug, PartialEq, Eq, Structural)]
pub enum Cell {
    Dead,
    Alive,
}

/// The opposite state of a cell.
pub open spec fn flipped(c: Cell) -> Cell {
    match c {
        Cell::Dead => Cell::Alive,
        Cell::Alive => Cell::Dead,
    }
}

/// The standard birth/survival rule, applied to one cell with its live
/// neighbor count: a live cell survives with two or three live neighbors
/// and dies otherwise; a dead cell is born with exactly three.
pub open spec fn next_cell(c: Cell, live_neighbors: nat) -> Cell {
    match c {
        Cell::Alive => if 2 <= live_neighbors && live_neighbors <= 3 {
            Cell::Alive
        } else {
            Cell::Dead
        },
        Cell::Dead => if live_neighbors == 3 {
            Cell::Alive
        } else {
            Cell::Dead
        },
    }
}

impl Cell {
    /// Flip this cell between `Alive` and `Dead`.
    pub fn toggle(&mut self)
        ensures
            *final(self) == flipped(*old(self)),
    {
        *self = match *self {
            Cell::Dead => Cell::Alive,
            Cell::Alive => Cell::Dead,
        };
    }
}

/// Underpopulation: a live cell with fewer than two live neighbors dies.
pub proof fn lemma_underpopulation(c: Cell, live_neighbors: nat)
    requires
        c is Alive,
        live_neighbors < 2,
    ensures
        next_cell(c, live_neighbors) is Dead,
{
}

/// Survival: a live cell with exactly two or three live neighbors stays alive.
pub proof fn lemma_survival(c: Cell, live_neighbors: nat)
    requires
        c is Alive,
        2 <= live_neighbors && live_neighbors <= 3,
    ensures
        next_cell(c, live_neighbors) is Alive,
{
}

/// Overpopulation: a live cell with four or more live neighbors dies.
pub proof fn lemma_overpopulation(c: Cell, live_neighbors: nat)
    requires
        c is Alive,
        live_neighbors >= 4,
    ensures
        next_cell(c, live_neighbors) is Dead,
{
}

/// Birth: a dead cell with exactly three live neighbors becomes alive.
pub proof fn lemma_birth(c: Cell, live_neighbors: nat)
    requires
        c is Dead,
        live_neighbors == 3,
    ensures
        next_cell(c, live_neighbors) is Alive,
{
}

/// Stasis: a dead cell with any live neighbor count other than three stays dead.
pub proof fn lemma_dead_stasis(c: Cell, live_neighbors: nat)
    requires
        c is Dead,
        live_neighbors != 3,
    ensures
        next_cell(c, live_neighbors) is Dead,
{
}

} // verus!
