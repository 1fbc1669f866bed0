//! The mathematical model of the automaton: row-major cells on a torus and
//! the B3/S23 transition rule.
use vstd::arithmetic::div_mod::lemma_fundamental_div_mod_converse;
use vstd::prelude::*;

verus! {

/// Row-major position of `(row, col)` in a grid `w` cells wide.
pub open spec fn idx(w: int, row: int, col: int) -> int {
    row * w + col
}

/// A position inside a `w` by `h` grid lies before its end.
pub proof fn lemma_index_in_range(w: int, h: int, row: int, col: int)
    requires
        0 <= row < h,
        0 <= col < w,
    ensures
        0 <= idx(w, row, col) < w * h,
{
    assert(0 <= row * w + col < w * h) by (nonlinear_arith)
        requires
            0 <= row < h,
            0 <= col < w,
    ;
}

/// The row-major position of a cell gives its row and column back.
pub proof fn lemma_index_row_col(w: int, row: int, col: int)
    requires
        0 <= col < w,
    ensures
        idx(w, row, col) / w == row,
        idx(w, row, col) % w == col,
{
    lemma_fundamental_div_mod_converse(row * w + col, w, row, col);
}

/// The coordinate before `i` on a ring of `n` positions.
pub open spec fn wrap_prev(i: int, n: int) -> int {
    if i == 0 {
        n - 1
    } else {
        i - 1
    }
}

/// The coordinate after `i` on a ring of `n` positions.
pub open spec fn wrap_next(i: int, n: int) -> int {
    if i == n - 1 {
        0
    } else {
        i + 1
    }
}

/// 1 for a live cell, 0 for a dead one.
pub open spec fn live(cells: Seq<bool>, w: int, row: int, col: int) -> int {
    if cells[idx(w, row, col)] {
        1
    } else {
        0
    }
}

/// The number of live cells among the eight wrapped neighbours of `(row, col)`;
/// a neighbour that the wrap makes alias another is counted once per offset.
pub open spec fn neighbor_count(cells: Seq<bool>, w: int, h: int, row: int, col: int) -> int {
    let n = wrap_prev(row, h);
    let s = wrap_next(row, h);
    let west = wrap_prev(col, w);
    let east = wrap_next(col, w);
    live(cells, w, n, west) + live(cells, w, n, col) + live(cells, w, n, east) + live(
        cells,
        w,
        row,
        west,
    ) + live(cells, w, row, east) + live(cells, w, s, west) + live(cells, w, s, col) + live(
        cells,
        w,
        s,
        east,
    )
}

/// B3/S23: a live cell stays live with two or three live neighbours, a dead
/// cell comes alive with exactly three.
pub open spec fn next_state(alive: bool, count: int) -> bool {
    if alive {
        count == 2 || count == 3
    } else {
        count == 3
    }
}

/// The whole next generation of a `w` by `h` grid, every cell computed from
/// the current one.
pub open spec fn next_generation(cells: Seq<bool>, w: int, h: int) -> Seq<bool> {
    Seq::new(
        cells.len(),
        |i: int| next_state(cells[i], neighbor_count(cells, w, h, i / w, i % w)),
    )
}

/// The grid after `n` generations.
pub open spec fn generations(cells: Seq<bool>, w: int, h: int, n: nat) -> Seq<bool>
    decreases n,
{
    if n == 0 {
        cells
    } else {
        next_generation(generations(cells, w, h, (n - 1) as nat), w, h)
    }
}

/// A grid of `len` dead cells.
pub open spec fn all_dead(len: nat) -> Seq<bool> {
    Seq::new(len, |i: int| false)
}

} // verus!

verus! {

/// The glyph drawn for a cell: a white square for live, a black one for dead.
pub open spec fn glyph(alive: bool) -> char {
    if alive {
        '\u{25FB}'
    } else {
        '\u{25FC}'
    }
}

/// The `w` glyphs of row `r`.
pub open spec fn row_text(cells: Seq<bool>, w: int, r: int) -> Seq<char> {
    Seq::new(w as nat, |c: int| glyph(cells[idx(w, r, c)]))
}

/// The first `n` rows, one newline between each two.
pub open spec fn lines(cells: Seq<bool>, w: int, n: nat) -> Seq<char>
    decreases n,
{
    if n == 0 {
        Seq::empty()
    } else if n == 1 {
        row_text(cells, w, 0)
    } else {
        lines(cells, w, (n - 1) as nat) + seq!['\n'] + row_text(cells, w, n - 1)
    }
}

/// The text of a `w` by `h` grid: its rows separated by newlines, and nothing
/// for a grid without cells.
pub open spec fn rendered(cells: Seq<bool>, w: int, h: int) -> Seq<char> {
    if w <= 0 || h <= 0 {
        Seq::empty()
    } else {
        lines(cells, w, h as nat)
    }
}

/// `cells` with every listed coordinate made live.
pub open spec fn seeded(cells: Seq<bool>, w: int, coords: Seq<(u32, u32)>) -> Seq<bool> {
    Seq::new(
        cells.len(),
        |i: int|
            cells[i] || exists|k: int|
                0 <= k < coords.len() && idx(w, coords[k].0 as int, coords[k].1 as int) == i,
    )
}

} // verus!
