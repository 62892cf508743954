//! Known patterns and what the rule does to them over many generations.
use vstd::prelude::*;
use crate::cell::Cell;
use crate::grid::{alive_at, lemma_index_in_range, next_generation, valid_dims, wrap_next, wrap_prev};

verus! {

/// The generation reached from `g` after `n` steps.
pub open spec fn generations(g: Seq<Cell>, width: int, height: int, n: nat) -> Seq<Cell>
    decreases n,
{
    if n == 0 {
        g
    } else {
        next_generation(generations(g, width, height, (n - 1) as nat), width, height)
    }
}

/// True when `(r, c)` is one of the four cells of the 2 by 2 square whose
/// top-left cell is `(row, col)`, wrapping across the edges.
pub open spec fn in_block(width: int, height: int, row: int, col: int, r: int, c: int) -> bool {
    (r == row || r == wrap_next(height, row)) && (c == col || c == wrap_next(width, col))
}

/// The grid whose only live cells are the 2 by 2 square with top-left cell
/// `(row, col)`.
pub open spec fn block(width: int, height: int, row: int, col: int) -> Seq<Cell> {
    Seq::new(
        (width * height) as nat,
        |i: int|
            if in_block(width, height, row, col, i / width, i % width) {
                Cell::Alive
            } else {
                Cell::Dead
            },
    )
}

proof fn lemma_block_at(width: int, height: int, row: int, col: int, r: int, c: int)
    requires
        valid_dims(width, height),
        0 <= r < height,
        0 <= c < width,
    ensures
        alive_at(block(width, height, row, col), width, r, c) == if in_block(
            width,
            height,
            row,
            col,
            r,
            c,
        ) {
            1int
        } else {
            0
        },
{
    lemma_index_in_range(width, height, r, c);
}

/// The 2 by 2 block is a still life: on a grid of at least 3 by 3, the
/// generation after a block is the same block.
pub proof fn lemma_block_is_still(width: int, height: int, row: int, col: int)
    requires
        valid_dims(width, height),
        3 <= width,
        3 <= height,
        0 <= row < height,
        0 <= col < width,
    ensures
        next_generation(block(width, height, row, col), width, height) == block(
            width,
            height,
            row,
            col,
        ),
{
    let g = block(width, height, row, col);
    let ng = next_generation(g, width, height);
    assert forall|i: int| 0 <= i < width * height implies ng[i] == g[i] by {
        let r = i / width;
        let c = i % width;
        assert(0 <= r < height && 0 <= c < width) by {
            vstd::arithmetic::div_mod::lemma_fundamental_div_mod(i, width);
            assert(i == width * r + c);
            assert(0 <= r < height) by (nonlinear_arith)
                requires
                    i == width * r + c,
                    0 <= c < width,
                    0 <= i < width * height,
            ;
        }
        let n = wrap_prev(height, r);
        let s = wrap_next(height, r);
        let w = wrap_prev(width, c);
        let e = wrap_next(width, c);
        lemma_block_at(width, height, row, col, n, w);
        lemma_block_at(width, height, row, col, n, c);
        lemma_block_at(width, height, row, col, n, e);
        lemma_block_at(width, height, row, col, r, w);
        lemma_block_at(width, height, row, col, r, e);
        lemma_block_at(width, height, row, col, s, w);
        lemma_block_at(width, height, row, col, s, c);
        lemma_block_at(width, height, row, col, s, e);
    }
    assert(ng =~= g);
}

/// A block stays the same block after any number of generations.
pub proof fn lemma_block_stays(width: int, height: int, row: int, col: int, n: nat)
    requires
        valid_dims(width, height),
        3 <= width,
        3 <= height,
        0 <= row < height,
        0 <= col < width,
    ensures
        generations(block(width, height, row, col), width, height, n) == block(
            width,
            height,
            row,
            col,
        ),
    decreases n,
{
    if n > 0 {
        lemma_block_stays(width, height, row, col, (n - 1) as nat);
        lemma_block_is_still(width, height, row, col);
    }
}

} // verus!
