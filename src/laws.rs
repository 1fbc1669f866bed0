//! Properties of the model that hold across operations and generations.
use vstd::arithmetic::div_mod::lemma_fundamental_div_mod;
use vstd::prelude::*;

use crate::rules::{
    all_dead, generations, glyph, idx, lemma_index_in_range, lines, neighbor_count, next_generation, next_state,
    rendered, row_text, seeded, wrap_next, wrap_prev,
};

verus! {

/// Whether `(row, col)` is one of the four cells of the 2x2 block whose
/// top-left cell is `(r, c)`, on a `w` by `h` torus (the block may wrap
/// across an edge).
pub open spec fn in_block(w: int, h: int, r: int, c: int, row: int, col: int) -> bool {
    (row == r || row == wrap_next(r, h)) && (col == c || col == wrap_next(c, w))
}

/// Whether the live cells of a `w` by `h` grid are exactly the 2x2 block at
/// `(r, c)`.
pub open spec fn is_lone_block(cells: Seq<bool>, w: int, h: int, r: int, c: int) -> bool {
    &&& cells.len() == w * h
    &&& forall|row: int, col: int|
        0 <= row < h && 0 <= col < w ==> #[trigger] cells[idx(w, row, col)] == in_block(
            w,
            h,
            r,
            c,
            row,
            col,
        )
}

proof fn lemma_block_cell(cells: Seq<bool>, w: int, h: int, r: int, c: int, x: int, y: int)
    requires
        w >= 4,
        h >= 4,
        0 <= r < h,
        0 <= c < w,
        is_lone_block(cells, w, h, r, c),
        0 <= x < h,
        0 <= y < w,
    ensures
        next_state(cells[idx(w, x, y)], neighbor_count(cells, w, h, x, y)) == cells[idx(w, x, y)],
{
    let n = wrap_prev(x, h);
    let s = wrap_next(x, h);
    let west = wrap_prev(y, w);
    let east = wrap_next(y, w);
    assert(cells[idx(w, n, west)] == in_block(w, h, r, c, n, west));
    assert(cells[idx(w, n, y)] == in_block(w, h, r, c, n, y));
    assert(cells[idx(w, n, east)] == in_block(w, h, r, c, n, east));
    assert(cells[idx(w, x, west)] == in_block(w, h, r, c, x, west));
    assert(cells[idx(w, x, y)] == in_block(w, h, r, c, x, y));
    assert(cells[idx(w, x, east)] == in_block(w, h, r, c, x, east));
    assert(cells[idx(w, s, west)] == in_block(w, h, r, c, s, west));
    assert(cells[idx(w, s, y)] == in_block(w, h, r, c, s, y));
    assert(cells[idx(w, s, east)] == in_block(w, h, r, c, s, east));
}

/// A 2x2 block that is the only life on a torus of at least 4 by 4 cells is a
/// still life: it is its own next generation, and any number of generations
/// leaves it as it is.
pub proof fn lemma_block_still_life(cells: Seq<bool>, w: int, h: int, r: int, c: int, n: nat)
    requires
        w >= 4,
        h >= 4,
        0 <= r < h,
        0 <= c < w,
        is_lone_block(cells, w, h, r, c),
    ensures
        next_generation(cells, w, h) == cells,
        generations(cells, w, h, n) == cells,
    decreases n,
{
    assert forall|i: int| 0 <= i < cells.len() implies next_generation(cells, w, h)[i]
        == cells[i] by {
        lemma_fundamental_div_mod(i, w);
        let x = i / w;
        let y = i % w;
        assert(0 <= x < h) by (nonlinear_arith)
            requires
                0 <= i < w * h,
                w >= 4,
                i == w * x + y,
                0 <= y < w,
        ;
        assert(i == idx(w, x, y)) by (nonlinear_arith)
            requires
                i == w * x + y,
        ;
        lemma_block_cell(cells, w, h, r, c, x, y);
    }
    assert(next_generation(cells, w, h) =~= cells);
    if n > 0 {
        lemma_block_still_life(cells, w, h, r, c, (n - 1) as nat);
    }
}

proof fn lemma_lines_shape(cells: Seq<bool>, w: int, n: nat)
    requires
        w >= 1,
        n >= 1,
    ensures
        lines(cells, w, n).len() == n * (w + 1) - 1,
        forall|r: int, c: int|
            0 <= r < n && 0 <= c < w ==> #[trigger] lines(cells, w, n)[r * (w + 1) + c] == glyph(
                cells[idx(w, r, c)],
            ),
        forall|r: int| 0 <= r < n - 1 ==> #[trigger] lines(cells, w, n)[r * (w + 1) + w] == '\n',
    decreases n,
{
    if n == 1 {
        assert forall|r: int, c: int| 0 <= r < n && 0 <= c < w implies #[trigger] lines(
            cells,
            w,
            n,
        )[r * (w + 1) + c] == glyph(cells[idx(w, r, c)]) by {
            assert(r * (w + 1) + c == c) by (nonlinear_arith)
                requires
                    r == 0,
            ;
        }
    } else {
        let m = (n - 1) as nat;
        lemma_lines_shape(cells, w, m);
        let prev = lines(cells, w, m);
        let cur = lines(cells, w, n);
        assert(cur == prev + seq!['\n'] + row_text(cells, w, m as int));
        assert(prev.len() == m * (w + 1) - 1);
        assert(n * (w + 1) - 1 == m * (w + 1) - 1 + 1 + w) by (nonlinear_arith)
            requires
                m == n - 1,
        ;
        assert forall|r: int, c: int| 0 <= r < n && 0 <= c < w implies #[trigger] cur[r * (w + 1)
            + c] == glyph(cells[idx(w, r, c)]) by {
            if r < m {
                assert(r * (w + 1) + c < m * (w + 1) - 1) by (nonlinear_arith)
                    requires
                        0 <= r < m,
                        0 <= c < w,
                ;
            } else {
                assert(r * (w + 1) + c == prev.len() + 1 + c) by (nonlinear_arith)
                    requires
                        r == m,
                        prev.len() == m * (w + 1) - 1,
                ;
            }
        }
        assert forall|r: int| 0 <= r < n - 1 implies #[trigger] cur[r * (w + 1) + w] == '\n' by {
            if r < m - 1 {
                assert(r * (w + 1) + w < m * (w + 1) - 1) by (nonlinear_arith)
                    requires
                        0 <= r < m - 1,
                        w >= 1,
                ;
            } else {
                assert(r * (w + 1) + w == prev.len()) by (nonlinear_arith)
                    requires
                        r == m - 1,
                        prev.len() == m * (w + 1) - 1,
                ;
            }
        }
    }
}

/// The text of a `w` by `h` grid has exactly `h` lines of exactly `w` glyphs:
/// its length is `h * (w + 1) - 1`, position `r * (w + 1) + c` holds the glyph
/// of cell `(r, c)`, and a newline ends every row but the last. The two
/// glyphs differ from each other and from the newline.
pub proof fn lemma_render_shape(cells: Seq<bool>, w: int, h: int)
    requires
        w >= 1,
        h >= 1,
    ensures
        rendered(cells, w, h).len() == h * (w + 1) - 1,
        forall|r: int, c: int|
            0 <= r < h && 0 <= c < w ==> #[trigger] rendered(cells, w, h)[r * (w + 1) + c]
                == glyph(cells[idx(w, r, c)]),
        forall|r: int|
            0 <= r < h - 1 ==> #[trigger] rendered(cells, w, h)[r * (w + 1) + w] == '\n',
        glyph(true) != glyph(false),
        glyph(true) != '\n',
        glyph(false) != '\n',
{
    lemma_lines_shape(cells, w, h as nat);
}

/// Clearing a cleared grid changes nothing: once or twice, every cell is dead
/// and the cell count is kept.
pub proof fn lemma_clear_idempotent(cells: Seq<bool>)
    ensures
        all_dead(all_dead(cells.len()).len()) == all_dead(cells.len()),
        all_dead(cells.len()).len() == cells.len(),
        forall|i: int| 0 <= i < cells.len() ==> !#[trigger] all_dead(cells.len())[i],
{
}

/// Seeding is additive: each listed cell becomes live, a cell that was live
/// stays live, and a cell that is not listed keeps its state.
pub proof fn lemma_seeding_additive(cells: Seq<bool>, w: int, h: int, coords: Seq<(u32, u32)>)
    requires
        w >= 0,
        cells.len() == w * h,
        forall|k: int|
            0 <= k < coords.len() ==> (#[trigger] coords[k]).0 < h && coords[k].1 < w,
    ensures
        seeded(cells, w, coords).len() == cells.len(),
        forall|k: int|
            0 <= k < coords.len() ==> #[trigger] seeded(cells, w, coords)[idx(
                w,
                coords[k].0 as int,
                coords[k].1 as int,
            )],
        forall|i: int| 0 <= i < cells.len() && cells[i] ==> #[trigger] seeded(cells, w, coords)[i],
        forall|i: int|
            0 <= i < cells.len() && (forall|k: int|
                0 <= k < coords.len() ==> idx(w, coords[k].0 as int, coords[k].1 as int) != i)
                ==> #[trigger] seeded(cells, w, coords)[i] == cells[i],
{
    assert forall|k: int| 0 <= k < coords.len() implies #[trigger] seeded(cells, w, coords)[idx(
        w,
        coords[k].0 as int,
        coords[k].1 as int,
    )] by {
        lemma_index_in_range(w, h, coords[k].0 as int, coords[k].1 as int);
    }
}

} // verus!
