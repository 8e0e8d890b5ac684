use vstd::prelude::*;
use vstd::string::StringExecFns;

use crate::cell::flipped;
use crate::cell::next_cell;
use crate::cell::Cell;

verus! {

/// Row-major position of the cell at `(row, column)` in a grid `width` wide.
pub open spec fn cell_index(width: nat, row: nat, column: nat) -> nat {
    row * width + column
}

/// A row-major cell index is within a `width * height` grid when the
/// coordinates are.
pub proof fn lemma_cell_index_in_range(width: nat, height: nat, row: nat, column: nat)
    requires
        row < height,
        column < width,
    ensures
        cell_index(width, row, column) < width * height,
{
    assert(row * width + column < width * height) by (nonlinear_arith)
        requires
            row < height,
            column < width,
    ;
}

/// Every cell of a row before `rows` sits, row-major, before all of row
/// `rows`.
pub proof fn lemma_row_major_prefix(width: nat, row: nat, column: nat, rows: nat)
    requires
        row < rows,
        column < width,
    ensures
        cell_index(width, row, column) < rows * width,
{
    assert(row * width + column < rows * width) by (nonlinear_arith)
        requires
            row < rows,
            column < width,
    ;
}

/// The coordinate one step before `i` on a ring of `n` positions.
pub open spec fn wrap_dec(i: nat, n: nat) -> nat
    recommends
        n >= 1,
        i < n,
{
    if i == 0 {
        (n - 1) as nat
    } else {
        (i - 1) as nat
    }
}

/// The coordinate one step after `i` on a ring of `n` positions.
pub open spec fn wrap_inc(i: nat, n: nat) -> nat
    recommends
        n >= 1,
        i < n,
{
    if i + 1 == n {
        0
    } else {
        i + 1
    }
}

/// One if the cell at `(row, column)` is alive, zero otherwise.
pub open spec fn alive_at(cells: Seq<Cell>, width: nat, row: nat, column: nat) -> nat {
    if cells[cell_index(width, row, column) as int] is Alive {
        1
    } else {
        0
    }
}

/// The number of live cells among the eight toroidal neighbors of
/// `(row, column)`: all offsets `(dr, dc)` in `{-1, 0, 1}` except `(0, 0)`,
/// each taken modulo the grid dimensions. On a one- or two-wide ring two
/// offsets can land on the same cell, which is then counted once per offset.
#[verifier::opaque]
pub open spec fn live_neighbors(
    cells: Seq<Cell>,
    width: nat,
    height: nat,
    row: nat,
    column: nat,
) -> nat {
    let up = wrap_dec(row, height);
    let down = wrap_inc(row, height);
    let left = wrap_dec(column, width);
    let right = wrap_inc(column, width);
    alive_at(cells, width, up, left) + alive_at(cells, width, up, column) + alive_at(
        cells,
        width,
        up,
        right,
    ) + alive_at(cells, width, row, left) + alive_at(cells, width, row, right) + alive_at(
        cells,
        width,
        down,
        left,
    ) + alive_at(cells, width, down, column) + alive_at(cells, width, down, right)
}

/// Whether one of the first `n` coordinate pairs in `coords` names the cell
/// at row-major index `i` of a grid `width` wide.
pub open spec fn hit_within(coords: Seq<(u32, u32)>, width: nat, n: int, i: int) -> bool {
    exists|k: int|
        0 <= k < n && #[trigger] cell_index(width, coords[k].0 as nat, coords[k].1 as nat) == i
}

/// The visual symbol for one cell: a filled square when alive, a hollow one
/// when dead.
pub open spec fn symbol_of(c: Cell) -> char {
    if c is Alive {
        '◼'
    } else {
        '◻'
    }
}

/// The row-major symbol stream for a whole cell sequence, with no row
/// separators.
pub open spec fn rendering(cells: Seq<Cell>) -> Seq<char> {
    cells.map_values(|c: Cell| symbol_of(c))
}

/// Toroidal wrap across rows: a live cell in the last row is counted as a
/// neighbor of the cell in row zero of the same column.
pub proof fn lemma_toroidal_wrap_rows(cells: Seq<Cell>, width: nat, height: nat, column: nat)
    requires
        width >= 1,
        height >= 1,
        column < width,
        cells.len() == width * height,
        cells[cell_index(width, (height - 1) as nat, column) as int] is Alive,
    ensures
        live_neighbors(cells, width, height, 0, column) >= 1,
{
    reveal(live_neighbors);
    assert(wrap_dec(0, height) == (height - 1) as nat);
    assert(alive_at(cells, width, (height - 1) as nat, column) == 1);
}

/// Toroidal wrap across columns: a live cell in the last column is counted as
/// a neighbor of the cell in column zero of the same row.
pub proof fn lemma_toroidal_wrap_columns(cells: Seq<Cell>, width: nat, height: nat, row: nat)
    requires
        width >= 1,
        height >= 1,
        row < height,
        cells.len() == width * height,
        cells[cell_index(width, row, (width - 1) as nat) as int] is Alive,
    ensures
        live_neighbors(cells, width, height, row, 0) >= 1,
{
    reveal(live_neighbors);
    assert(wrap_dec(0, width) == (width - 1) as nat);
    assert(alive_at(cells, width, row, (width - 1) as nat) == 1);
}

fn wrap_dec_u32(i: u32, n: u32) -> (r: u32)
    requires
        n >= 1,
        i < n,
    ensures
        r as nat == wrap_dec(i as nat, n as nat),
        r < n,
{
    if i == 0 {
        n - 1
    } else {
        i - 1
    }
}

fn wrap_inc_u32(i: u32, n: u32) -> (r: u32)
    requires
        n >= 1,
        i < n,
    ensures
        r as nat == wrap_inc(i as nat, n as nat),
        r < n,
{
    if i + 1 == n {
        0
    } else {
        i + 1
    }
}

/// The toroidal grid of cells.
pub struct Universe {
    width: u32,
    height: u32,
    cells: Vec<Cell>,
}

impl Universe {
    pub closed spec fn spec_width(&self) -> u32 {
        self.width
    }

    pub closed spec fn spec_height(&self) -> u32 {
        self.height
    }

    pub closed spec fn spec_cells(&self) -> Seq<Cell> {
        self.cells@
    }

    /// Both dimensions are positive, the cell count fits in a `u32`, and the
    /// cell sequence has exactly `width * height` entries.
    pub open spec fn well_formed(&self) -> bool {
        &&& self.spec_width() >= 1
        &&& self.spec_height() >= 1
        &&& self.spec_width() * self.spec_height() <= u32::MAX
        &&& self.spec_cells().len() == self.spec_width() * self.spec_height()
    }

    pub fn width(&self) -> (w: u32)
        ensures
            w == self.spec_width(),
    {
        self.width
    }

    pub fn height(&self) -> (h: u32)
        ensures
            h == self.spec_height(),
    {
        self.height
    }

    /// Read-only view of the full cell sequence, row-major.
    pub fn get_cells(&self) -> (cells: &[Cell])
        ensures
            cells@ == self.spec_cells(),
    {
        self.cells.as_slice()
    }

    fn get_index(&self, row: u32, column: u32) -> (i: usize)
        requires
            self.well_formed(),
            row < self.height,
            column < self.width,
        ensures
            i == cell_index(self.spec_width() as nat, row as nat, column as nat),
            i < self.spec_cells().len(),
    {
        proof {
            lemma_cell_index_in_range(
                self.width as nat,
                self.height as nat,
                row as nat,
                column as nat,
            );
        }
        (row * self.width + column) as usize
    }

    fn is_alive(&self, row: u32, column: u32) -> (b: bool)
        requires
            self.well_formed(),
            row < self.spec_height(),
            column < self.spec_width(),
        ensures
            b == (alive_at(self.spec_cells(), self.spec_width() as nat, row as nat, column as nat)
                == 1),
    {
        let index = self.get_index(row, column);
        self.cells[index] == Cell::Alive
    }

    fn live_neighbor_count(&self, row: u32, column: u32) -> (count: u8)
        requires
            self.well_formed(),
            row < self.spec_height(),
            column < self.spec_width(),
        ensures
            count as nat == live_neighbors(
                self.spec_cells(),
                self.spec_width() as nat,
                self.spec_height() as nat,
                row as nat,
                column as nat,
            ),
    {
        proof {
            reveal(live_neighbors);
        }
        let up = wrap_dec_u32(row, self.height);
        let down = wrap_inc_u32(row, self.height);
        let left = wrap_dec_u32(column, self.width);
        let right = wrap_inc_u32(column, self.width);
        let mut count: u8 = 0;
        if self.is_alive(up, left) {
            count = count + 1;
        }
        if self.is_alive(up, column) {
            count = count + 1;
        }
        if self.is_alive(up, right) {
            count = count + 1;
        }
        if self.is_alive(row, left) {
            count = count + 1;
        }
        if self.is_alive(row, right) {
            count = count + 1;
        }
        if self.is_alive(down, left) {
            count = count + 1;
        }
        if self.is_alive(down, column) {
            count = count + 1;
        }
        if self.is_alive(down, right) {
            count = count + 1;
        }
        count
    }

    /// Build a grid whose initial cell states are given, row-major, as plain
    /// flags (`true` for `Alive`). The host supplies the flags, typically
    /// drawn from its uniform random source.
    pub fn new(width: u32, height: u32, alive: &[bool]) -> (u: Universe)
        requires
            width >= 1,
            height >= 1,
            width * height <= u32::MAX,
            alive@.len() == width * height,
        ensures
            u.well_formed(),
            u.spec_width() == width,
            u.spec_height() == height,
            forall|i: int|
                0 <= i < alive@.len() ==> u.spec_cells()[i] == (if alive@[i] {
                    Cell::Alive
                } else {
                    Cell::Dead
                }),
    {
        let mut cells: Vec<Cell> = Vec::new();
        let n = alive.len();
        let mut i: usize = 0;
        while i < n
            invariant
                i <= n,
                n == alive@.len(),
                cells@.len() == i,
                forall|j: int|
                    0 <= j < i ==> cells@[j] == (if alive@[j] {
                        Cell::Alive
                    } else {
                        Cell::Dead
                    }),
            decreases n - i,
        {
            if alive[i] {
                cells.push(Cell::Alive);
            } else {
                cells.push(Cell::Dead);
            }
            i = i + 1;
        }
        Universe { width, height, cells }
    }

    /// Replace the cell sequence by `width * height` `Dead` cells.
    fn make_all_cells_dead(&mut self)
        requires
            old(self).spec_width() >= 1,
            old(self).spec_height() >= 1,
            old(self).spec_width() * old(self).spec_height() <= u32::MAX,
        ensures
            final (self).well_formed(),
            final (self).spec_width() == old(self).spec_width(),
            final (self).spec_height() == old(self).spec_height(),
            forall|i: int|
                0 <= i < final (self).spec_cells().len() ==> final (self).spec_cells()[i]
                    is Dead,
    {
        let n = (self.width * self.height) as usize;
        let mut cells: Vec<Cell> = Vec::new();
        let mut i: usize = 0;
        while i < n
            invariant
                i <= n,
                cells@.len() == i,
                forall|j: int| 0 <= j < i ==> cells@[j] is Dead,
            decreases n - i,
        {
            cells.push(Cell::Dead);
            i = i + 1;
        }
        self.cells = cells;
    }

    /// Advance the grid by one generation. Every cell's next state is the
    /// standard rule applied to its pre-tick state and its pre-tick live
    /// neighbor count: the whole generation is computed from a snapshot of
    /// the current one, never from partially updated cells.
    pub fn tick(&mut self)
        requires
            old(self).well_formed(),
        ensures
            final (self).well_formed(),
            final (self).spec_width() == old(self).spec_width(),
            final (self).spec_height() == old(self).spec_height(),
            forall|r: nat, c: nat|
                r < old(self).spec_height() as nat && c < old(self).spec_width() as nat
                    ==> final (self).spec_cells()[#[trigger] cell_index(
                    old(self).spec_width() as nat,
                    r,
                    c,
                ) as int] == next_cell(
                    old(self).spec_cells()[cell_index(old(self).spec_width() as nat, r, c) as int],
                    live_neighbors(
                        old(self).spec_cells(),
                        old(self).spec_width() as nat,
                        old(self).spec_height() as nat,
                        r,
                        c,
                    ),
                ),
    {
        let ghost w = self.spec_width() as nat;
        let ghost h = self.spec_height() as nat;
        let ghost before = self.spec_cells();
        let mut next: Vec<Cell> = Vec::new();
        let mut row: u32 = 0;
        while row < self.height
            invariant
                self.well_formed(),
                *self == *old(self),
                w == self.spec_width() as nat,
                h == self.spec_height() as nat,
                before == self.spec_cells(),
                row as nat <= h,
                next@.len() == row as nat * w,
                forall|r: nat, c: nat|
                    r < row as nat && c < w ==> next@[#[trigger] cell_index(w, r, c) as int]
                        == next_cell(
                        before[cell_index(w, r, c) as int],
                        live_neighbors(before, w, h, r, c),
                    ),
            decreases h - row as nat,
        {
            let mut column: u32 = 0;
            while column < self.width
                invariant
                    self.well_formed(),
                    *self == *old(self),
                    w == self.spec_width() as nat,
                    h == self.spec_height() as nat,
                    before == self.spec_cells(),
                    row < self.height,
                    column as nat <= w,
                    next@.len() == row as nat * w + column as nat,
                    forall|r: nat, c: nat|
                        r < row as nat && c < w ==> next@[#[trigger] cell_index(w, r, c) as int]
                            == next_cell(
                            before[cell_index(w, r, c) as int],
                            live_neighbors(before, w, h, r, c),
                        ),
                    forall|c: nat|
                        c < column as nat ==> next@[#[trigger] cell_index(w, row as nat, c) as int]
                            == next_cell(
                            before[cell_index(w, row as nat, c) as int],
                            live_neighbors(before, w, h, row as nat, c),
                        ),
                decreases w - column as nat,
            {
                let index = self.get_index(row, column);
                let cell = self.cells[index];
                let live = self.live_neighbor_count(row, column);
                let cell_next_state = if cell == Cell::Alive {
                    if live < 2 {
                        Cell::Dead
                    } else if live <= 3 {
                        Cell::Alive
                    } else {
                        Cell::Dead
                    }
                } else {
                    if live == 3 {
                        Cell::Alive
                    } else {
                        Cell::Dead
                    }
                };
                next.push(cell_next_state);
                proof {
                    assert forall|r: nat, c: nat| r < row as nat && c < w implies next@[
                        #[trigger] cell_index(w, r, c) as int] == next_cell(
                        before[cell_index(w, r, c) as int],
                        live_neighbors(before, w, h, r, c),
                    ) by {
                        lemma_row_major_prefix(w, r, c, row as nat);
                    }
                }
                column = column + 1;
            }
            proof {
                assert((row as nat + 1) * w == row as nat * w + w) by (nonlinear_arith);
            }
            row = row + 1;
        }
        proof {
            assert(next@.len() == h * w);
            assert(h * w == w * h) by (nonlinear_arith);
        }
        self.cells = next;
    }

    /// Set a new width and reset every cell to `Dead`.
    pub fn set_width(&mut self, width: u32)
        requires
            old(self).well_formed(),
            width >= 1,
            width * old(self).spec_height() <= u32::MAX,
        ensures
            final (self).well_formed(),
            final (self).spec_width() == width,
            final (self).spec_height() == old(self).spec_height(),
            forall|i: int|
                0 <= i < final (self).spec_cells().len() ==> final (self).spec_cells()[i]
                    is Dead,
    {
        self.width = width;
        self.make_all_cells_dead();
    }

    /// Set a new height and reset every cell to `Dead`.
    pub fn set_height(&mut self, height: u32)
        requires
            old(self).well_formed(),
            height >= 1,
            old(self).spec_width() * height <= u32::MAX,
        ensures
            final (self).well_formed(),
            final (self).spec_width() == old(self).spec_width(),
            final (self).spec_height() == height,
            forall|i: int|
                0 <= i < final (self).spec_cells().len() ==> final (self).spec_cells()[i]
                    is Dead,
    {
        self.height = height;
        self.make_all_cells_dead();
    }

    /// Set every listed `(row, column)` cell to `Alive`, leaving all other
    /// cells as they are.
    pub fn set_cells_alive(&mut self, cells: &[(u32, u32)])
        requires
            old(self).well_formed(),
            forall|k: int|
                0 <= k < cells@.len() ==> (#[trigger] cells@[k]).0 < old(self).spec_height()
                    && cells@[k].1 < old(self).spec_width(),
        ensures
            final (self).well_formed(),
            final (self).spec_width() == old(self).spec_width(),
            final (self).spec_height() == old(self).spec_height(),
            forall|i: int|
                0 <= i < old(self).spec_cells().len() ==> final (self).spec_cells()[i] == (if
                hit_within(cells@, old(self).spec_width() as nat, cells@.len() as int, i) {
                    Cell::Alive
                } else {
                    old(self).spec_cells()[i]
                }),
    {
        let ghost w = self.spec_width() as nat;
        let ghost before = self.spec_cells();
        let n = cells.len();
        let mut k: usize = 0;
        while k < n
            invariant
                self.well_formed(),
                self.spec_width() == old(self).spec_width(),
                self.spec_height() == old(self).spec_height(),
                w == self.spec_width() as nat,
                before == old(self).spec_cells(),
                self.spec_cells().len() == before.len(),
                k <= n,
                n == cells@.len(),
                forall|j: int|
                    0 <= j < cells@.len() ==> (#[trigger] cells@[j]).0 < self.spec_height()
                        && cells@[j].1 < self.spec_width(),
                forall|i: int|
                    0 <= i < before.len() ==> self.spec_cells()[i] == (if hit_within(
                        cells@,
                        w,
                        k as int,
                        i,
                    ) {
                        Cell::Alive
                    } else {
                        before[i]
                    }),
            decreases n - k,
        {
            let (row, column) = cells[k];
            let index = self.get_index(row, column);
            self.cells.set(index, Cell::Alive);
            proof {
                let ghost j = cell_index(w, cells@[k as int].0 as nat, cells@[k as int].1 as nat);
                assert forall|i: int| 0 <= i < before.len() implies self.spec_cells()[i] == (if
                hit_within(cells@, w, k as int + 1, i) {
                    Cell::Alive
                } else {
                    before[i]
                }) by {
                    if i == j {
                        assert(hit_within(cells@, w, k as int + 1, i));
                    } else {
                        if hit_within(cells@, w, k as int + 1, i) {
                            let k0 = choose|k0: int|
                                0 <= k0 < k as int + 1 && #[trigger] cell_index(
                                    w,
                                    cells@[k0].0 as nat,
                                    cells@[k0].1 as nat,
                                ) == i;
                            assert(k0 < k as int);
                            assert(hit_within(cells@, w, k as int, i));
                        }
                    }
                }
            }
            k = k + 1;
        }
    }

    /// Produce the symbol stream for the whole grid, row-major: one filled
    /// square per live cell, one hollow square per dead cell, with no row
    /// separators.
    pub fn render(&self) -> (text: String)
        ensures
            text@ == rendering(self.spec_cells()),
    {
        let mut text = String::new();
        let n = self.cells.len();
        let mut i: usize = 0;
        while i < n
            invariant
                i <= n,
                n == self.spec_cells().len(),
                text@ == rendering(self.spec_cells()).take(i as int),
            decreases n - i,
        {
            if self.cells[i] == Cell::Alive {
                text.append("◼");
            } else {
                text.append("◻");
            }
            proof {
                reveal_strlit("◼");
                reveal_strlit("◻");
                assert(text@ =~= rendering(self.spec_cells()).take(i as int + 1));
            }
            i = i + 1;
        }
        proof {
            assert(rendering(self.spec_cells()).take(n as int) =~= rendering(self.spec_cells()));
        }
        text
    }

    /// Flip the one cell at `(row, column)`; every other cell is unchanged.
    pub fn toggle_cell(&mut self, row: u32, column: u32)
        requires
            old(self).well_formed(),
            row < old(self).spec_height(),
            column < old(self).spec_width(),
        ensures
            final (self).well_formed(),
            final (self).spec_width() == old(self).spec_width(),
            final (self).spec_height() == old(self).spec_height(),
            final (self).spec_cells() == old(self).spec_cells().update(
                cell_index(old(self).spec_width() as nat, row as nat, column as nat) as int,
                flipped(
                    old(self).spec_cells()[cell_index(
                        old(self).spec_width() as nat,
                        row as nat,
                        column as nat,
                    ) as int],
                ),
            ),
    {
        let index = self.get_index(row, column);
        let mut cell = self.cells[index];
        cell.toggle();
        self.cells.set(index, cell);
    }
}

} // verus!
