//! The grid engine: a `width` by `height` torus of cells held one bit per
//! cell, row-major, and advanced one generation at a time.
use fixedbitset::FixedBitSet;
use vstd::prelude::*;

use crate::bitset::{bits_of, block_bit};
use crate::rules::{
    all_dead, glyph, idx, lemma_index_in_range, lemma_index_row_col, lines, neighbor_count,
    next_generation, next_state, rendered, row_text, seeded, wrap_next, wrap_prev,
};

verus! {

/// A Game of Life grid on a torus.
pub struct Universe {
    width: u32,
    height: u32,
    cells: FixedBitSet,
}

/// The B3/S23 rule on one cell.
fn next_cell_state(alive: bool, count: u8) -> (r: bool)
    ensures
        r == next_state(alive, count as int),
{
    match (alive, count) {
        (true, x) if x < 2 => false,
        (true, 2) | (true, 3) => true,
        (true, x) if x > 3 => false,
        (false, 3) => true,
        (otherwise, _) => otherwise,
    }
}

impl Universe {
    /// The number of columns.
    pub closed spec fn grid_width(&self) -> int {
        self.width as int
    }

    /// The number of rows.
    pub closed spec fn grid_height(&self) -> int {
        self.height as int
    }

    /// The cells, row-major, `true` for live.
    pub closed spec fn grid(&self) -> Seq<bool> {
        bits_of(self.cells)
    }

    /// One cell per position, and the cell count fits in a `usize`.
    pub closed spec fn wf(&self) -> bool {
        &&& self.grid().len() == self.width * self.height
        &&& self.width * self.height <= usize::MAX
    }

    /// Row-major index of `(row, column)`.
    pub fn get_index(&self, row: u32, column: u32) -> (r: usize)
        requires
            self.wf(),
            row < self.grid_height(),
            column < self.grid_width(),
        ensures
            r == idx(self.grid_width(), row as int, column as int),
            r < self.grid().len(),
    {
        proof {
            lemma_index_in_range(self.width as int, self.height as int, row as int, column as int);
        }
        row as usize * self.width as usize + column as usize
    }

    /// How many of the eight wrapped neighbours of `(row, column)` are live.
    pub fn live_neighbor_count(&self, row: u32, column: u32) -> (r: u8)
        requires
            self.wf(),
            row < self.grid_height(),
            column < self.grid_width(),
        ensures
            r == neighbor_count(
                self.grid(),
                self.grid_width(),
                self.grid_height(),
                row as int,
                column as int,
            ),
    {
        let mut count: u8 = 0;
        let north = if row == 0 {
            self.height - 1
        } else {
            row - 1
        };
        let south = if row == self.height - 1 {
            0
        } else {
            row + 1
        };
        let west = if column == 0 {
            self.width - 1
        } else {
            column - 1
        };
        let east = if column == self.width - 1 {
            0
        } else {
            column + 1
        };
        assert(north == wrap_prev(row as int, self.height as int));
        assert(south == wrap_next(row as int, self.height as int));
        assert(west == wrap_prev(column as int, self.width as int));
        assert(east == wrap_next(column as int, self.width as int));

        let nw = self.get_index(north, west);
        if self.cells.contains(nw) {
            count += 1;
        }
        let n = self.get_index(north, column);
        if self.cells.contains(n) {
            count += 1;
        }
        let ne = self.get_index(north, east);
        if self.cells.contains(ne) {
            count += 1;
        }
        let w = self.get_index(row, west);
        if self.cells.contains(w) {
            count += 1;
        }
        let e = self.get_index(row, east);
        if self.cells.contains(e) {
            count += 1;
        }
        let sw = self.get_index(south, west);
        if self.cells.contains(sw) {
            count += 1;
        }
        let s = self.get_index(south, column);
        if self.cells.contains(s) {
            count += 1;
        }
        let se = self.get_index(south, east);
        if self.cells.contains(se) {
            count += 1;
        }
        count
    }

    /// Advances the grid by one generation, every cell computed from the
    /// generation before.
    pub fn tick(&mut self)
        requires
            old(self).wf(),
        ensures
            final(self).wf(),
            final(self).grid_width() == old(self).grid_width(),
            final(self).grid_height() == old(self).grid_height(),
            final(self).grid() == next_generation(
                old(self).grid(),
                old(self).grid_width(),
                old(self).grid_height(),
            ),
    {
        let ghost cur = self.grid();
        let ghost w = self.width as int;
        let ghost h = self.height as int;
        let ghost target = next_generation(cur, w, h);
        let mut next = self.cells.clone();
        let mut row: u32 = 0;
        while row < self.height
            invariant
                *self == *old(self),
                self.wf(),
                cur == self.grid(),
                w == self.width,
                h == self.height,
                target == next_generation(cur, w, h),
                0 <= row <= h,
                bits_of(next).len() == cur.len(),
                forall|i: int| 0 <= i < idx(w, row as int, 0) ==> bits_of(next)[i] == target[i],
            decreases h - row,
        {
            let mut col: u32 = 0;
            while col < self.width
                invariant
                    *self == *old(self),
                    self.wf(),
                    cur == self.grid(),
                    w == self.width,
                    h == self.height,
                    target == next_generation(cur, w, h),
                    0 <= row < h,
                    0 <= col <= w,
                    bits_of(next).len() == cur.len(),
                    forall|i: int|
                        0 <= i < idx(w, row as int, col as int) ==> bits_of(next)[i] == target[i],
                decreases w - col,
            {
                let i = self.get_index(row, col);
                let cell = self.cells.contains(i);
                let live_neighbors = self.live_neighbor_count(row, col);
                proof {
                    lemma_index_row_col(w, row as int, col as int);
                }
                next.set(i, next_cell_state(cell, live_neighbors));
                col += 1;
            }
            assert(idx(w, row as int, w) == idx(w, row + 1, 0)) by (nonlinear_arith);
            row += 1;
        }
        assert(idx(w, h, 0) == cur.len()) by (nonlinear_arith)
            requires
                cur.len() == w * h,
        ;
        assert(bits_of(next) =~= target);
        self.cells = next;
    }

    /// A grid of `width` by `height` cells, cell `i` (row-major) live exactly
    /// when `draws[i]` is `true`; the caller supplies the draws, random or not.
    pub fn new(width: u32, height: u32, draws: &[bool]) -> (r: Universe)
        requires
            draws@.len() == width * height,
        ensures
            r.wf(),
            r.grid_width() == width,
            r.grid_height() == height,
            r.grid() == draws@,
    {
        let size = draws.len();
        let mut u = Universe { width, height, cells: FixedBitSet::with_capacity(size) };
        u.random_seed(draws);
        u
    }

    /// Redraws every cell from `draws`, dimensions unchanged.
    pub fn random_seed(&mut self, draws: &[bool])
        requires
            old(self).wf(),
            draws@.len() == old(self).grid().len(),
        ensures
            final(self).wf(),
            final(self).grid_width() == old(self).grid_width(),
            final(self).grid_height() == old(self).grid_height(),
            final(self).grid() == draws@,
    {
        let size = draws.len();
        let mut i: usize = 0;
        while i < size
            invariant
                self.wf(),
                self.width == old(self).width,
                self.height == old(self).height,
                size == draws@.len() == self.grid().len(),
                0 <= i <= size,
                forall|j: int| 0 <= j < i ==> self.grid()[j] == draws@[j],
            decreases size - i,
        {
            self.cells.set(i, draws[i]);
            i += 1;
        }
        assert(self.grid() =~= draws@);
    }

    /// The grid as text: one glyph per cell, rows separated by a newline.
    pub fn render(&self) -> (r: String)
        requires
            self.wf(),
        ensures
            r@ == rendered(self.grid(), self.grid_width(), self.grid_height()),
    {
        let mut s = String::new();
        if self.width == 0 || self.height == 0 {
            return s;
        }
        let ghost g = self.grid();
        let ghost w = self.width as int;
        let mut row: u32 = 0;
        while row < self.height
            invariant
                self.wf(),
                g == self.grid(),
                w == self.width,
                w >= 1,
                0 <= row <= self.height,
                s@ == lines(g, w, row as nat),
            decreases self.height - row,
        {
            if row > 0 {
                s.append("\n");
                proof {
                    reveal_strlit("\n");
                }
            }
            let ghost before = s@;
            let mut col: u32 = 0;
            while col < self.width
                invariant
                    self.wf(),
                    g == self.grid(),
                    w == self.width,
                    0 <= row < self.height,
                    0 <= col <= w,
                    s@ == before + row_text(g, w, row as int).take(col as int),
                decreases w - col,
            {
                let i = self.get_index(row, col);
                if self.cells.contains(i) {
                    s.append("\u{25FB}");
                    proof {
                        reveal_strlit("\u{25FB}");
                    }
                } else {
                    s.append("\u{25FC}");
                    proof {
                        reveal_strlit("\u{25FC}");
                    }
                }
                assert(row_text(g, w, row as int).take(col + 1) =~= row_text(g, w, row as int).take(
                    col as int,
                ).push(glyph(g[i as int])));
                col += 1;
            }
            assert(row_text(g, w, row as int).take(w) =~= row_text(g, w, row as int));
            row += 1;
        }
        s
    }

    /// The number of columns.
    pub fn width(&self) -> (r: u32)
        ensures
            r == self.grid_width(),
    {
        self.width
    }

    /// The number of rows.
    pub fn height(&self) -> (r: u32)
        ensures
            r == self.grid_height(),
    {
        self.height
    }

    /// Sets the number of columns; the grid is reallocated with every cell dead.
    pub fn set_width(&mut self, width: u32)
        requires
            width * old(self).grid_height() <= usize::MAX,
        ensures
            final(self).wf(),
            final(self).grid_width() == width,
            final(self).grid_height() == old(self).grid_height(),
            final(self).grid() == all_dead((width * old(self).grid_height()) as nat),
    {
        self.width = width;
        let size = self.width as usize * self.height as usize;
        self.cells = FixedBitSet::with_capacity(size);
    }

    /// Sets the number of rows; the grid is reallocated with every cell dead.
    pub fn set_height(&mut self, height: u32)
        requires
            old(self).grid_width() * height <= usize::MAX,
        ensures
            final(self).wf(),
            final(self).grid_width() == old(self).grid_width(),
            final(self).grid_height() == height,
            final(self).grid() == all_dead((old(self).grid_width() * height) as nat),
    {
        self.height = height;
        let size = self.width as usize * self.height as usize;
        self.cells = FixedBitSet::with_capacity(size);
    }

    /// The packed storage, read-only and without copying: cell `i` is bit
    /// `i % 32` of block `i / 32`.
    pub fn cells(&self) -> (r: &[u32])
        ensures
            r@.len() == (self.grid().len() + 31) / 32,
            forall|i: int| 0 <= i < self.grid().len() ==> #[trigger] self.grid()[i] == block_bit(r@, i),
    {
        self.cells.as_slice()
    }

    /// Makes every cell dead, dimensions unchanged.
    pub fn clear(&mut self)
        requires
            old(self).wf(),
        ensures
            final(self).wf(),
            final(self).grid_width() == old(self).grid_width(),
            final(self).grid_height() == old(self).grid_height(),
            final(self).grid() == all_dead(old(self).grid().len()),
    {
        self.cells.clear();
    }

    /// Flips the cell at `(row, column)`.
    pub fn toggle_cell(&mut self, row: u32, column: u32)
        requires
            old(self).wf(),
            row < old(self).grid_height(),
            column < old(self).grid_width(),
        ensures
            final(self).wf(),
            final(self).grid_width() == old(self).grid_width(),
            final(self).grid_height() == old(self).grid_height(),
            final(self).grid() == old(self).grid().update(
                idx(old(self).grid_width(), row as int, column as int),
                !old(self).grid()[idx(old(self).grid_width(), row as int, column as int)],
            ),
    {
        let i = self.get_index(row, column);
        let alive = self.cells.contains(i);
        self.cells.set(i, !alive);
    }

    /// Makes the cell at `(row, column)` dead.
    pub fn turn_cell_off(&mut self, row: u32, column: u32)
        requires
            old(self).wf(),
            row < old(self).grid_height(),
            column < old(self).grid_width(),
        ensures
            final(self).wf(),
            final(self).grid_width() == old(self).grid_width(),
            final(self).grid_height() == old(self).grid_height(),
            final(self).grid() == old(self).grid().update(
                idx(old(self).grid_width(), row as int, column as int),
                false,
            ),
    {
        let i = self.get_index(row, column);
        self.cells.set(i, false);
    }

    /// Makes the cell at `(row, column)` live.
    pub fn turn_cell_on(&mut self, row: u32, column: u32)
        requires
            old(self).wf(),
            row < old(self).grid_height(),
            column < old(self).grid_width(),
        ensures
            final(self).wf(),
            final(self).grid_width() == old(self).grid_width(),
            final(self).grid_height() == old(self).grid_height(),
            final(self).grid() == old(self).grid().update(
                idx(old(self).grid_width(), row as int, column as int),
                true,
            ),
    {
        let i = self.get_index(row, column);
        self.cells.set(i, true);
    }

    /// The bit set that stores the cells.
    pub fn get_cells(&self) -> (r: &FixedBitSet)
        ensures
            bits_of(*r) == self.grid(),
    {
        &self.cells
    }

    /// Makes every listed `(row, column)` live and leaves every other cell as
    /// it was.
    pub fn set_cells(&mut self, cells: &[(u32, u32)])
        requires
            old(self).wf(),
            forall|k: int|
                0 <= k < cells@.len() ==> (#[trigger] cells@[k]).0 < old(self).grid_height()
                    && cells@[k].1 < old(self).grid_width(),
        ensures
            final(self).wf(),
            final(self).grid_width() == old(self).grid_width(),
            final(self).grid_height() == old(self).grid_height(),
            final(self).grid() == seeded(old(self).grid(), old(self).grid_width(), cells@),
    {
        let ghost g = self.grid();
        let ghost w = self.width as int;
        let mut k: usize = 0;
        while k < cells.len()
            invariant
                self.wf(),
                self.width == old(self).width,
                self.height == old(self).height,
                g == old(self).grid(),
                w == self.width,
                0 <= k <= cells@.len(),
                forall|j: int|
                    0 <= j < cells@.len() ==> (#[trigger] cells@[j]).0 < self.height
                        && cells@[j].1 < self.width,
                self.grid() == seeded(g, w, cells@.take(k as int)),
            decreases cells@.len() - k,
        {
            let (row, col) = cells[k];
            let i = self.get_index(row, col);
            self.cells.set(i, true);
            proof {
                let prev = cells@.take(k as int);
                let next = cells@.take(k + 1);
                assert(next[k as int] == (row, col));
                assert forall|j: int| 0 <= j < g.len() implies self.grid()[j] == seeded(g, w, next)[j] by {
                    if j != i {
                        if seeded(g, w, next)[j] && !g[j] {
                            let m = choose|m: int|
                                0 <= m < next.len() && idx(w, next[m].0 as int, next[m].1 as int) == j;
                            assert(prev[m] == next[m]);
                        }
                        if seeded(g, w, prev)[j] && !g[j] {
                            let m = choose|m: int|
                                0 <= m < prev.len() && idx(w, prev[m].0 as int, prev[m].1 as int) == j;
                            assert(prev[m] == next[m]);
                        }
                    }
                }
                assert(self.grid() =~= seeded(g, w, next));
            }
            k += 1;
        }
        assert(cells@.take(cells@.len() as int) =~= cells@);
    }
}

} // verus!
