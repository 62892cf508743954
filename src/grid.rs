//! Row-major grids of cells on a torus: indexing, neighbour counting and the
//! computation of one generation from another.
use vstd::prelude::*;
use crate::cell::{Cell, rule};
use vstd::arithmetic::div_mod::lemma_fundamental_div_mod_converse;

verus! {

/// The flat position of `(row, col)` in a row-major grid `width` cells wide.
pub open spec fn index_of(width: int, row: int, col: int) -> int {
    row * width + col
}

/// The dimensions that a grid may have: both positive, and the cell count
/// small enough that every index fits in a `u32`.
pub open spec fn valid_dims(width: int, height: int) -> bool {
    0 < width && 0 < height && width * height <= u32::MAX
}

/// The line before `x` on a ring of `n` lines: line 0 is preceded by line `n - 1`.
pub open spec fn wrap_prev(n: int, x: int) -> int {
    if x == 0 {
        n - 1
    } else {
        x - 1
    }
}

/// The line after `x` on a ring of `n` lines: line `n - 1` is followed by line 0.
pub open spec fn wrap_next(n: int, x: int) -> int {
    if x == n - 1 {
        0
    } else {
        x + 1
    }
}

/// 1 when the cell at `(row, col)` of `g` is alive, else 0.
pub open spec fn alive_at(g: Seq<Cell>, width: int, row: int, col: int) -> int {
    g[index_of(width, row, col)].value()
}

/// How many of the eight toroidal neighbours of `(row, col)` are alive.
pub open spec fn neighbor_count(g: Seq<Cell>, width: int, height: int, row: int, col: int) -> int {
    let north = wrap_prev(height, row);
    let south = wrap_next(height, row);
    let west = wrap_prev(width, col);
    let east = wrap_next(width, col);
    alive_at(g, width, north, west) + alive_at(g, width, north, col) + alive_at(
        g,
        width,
        north,
        east,
    ) + alive_at(g, width, row, west) + alive_at(g, width, row, east) + alive_at(
        g,
        width,
        south,
        west,
    ) + alive_at(g, width, south, col) + alive_at(g, width, south, east)
}

/// The generation that follows `g`: each cell takes the state that the rule
/// gives for its current state and its live neighbours in `g`.
pub open spec fn next_generation(g: Seq<Cell>, width: int, height: int) -> Seq<Cell> {
    Seq::new(
        (width * height) as nat,
        |i: int| rule(g[i], neighbor_count(g, width, height, i / width, i % width)),
    )
}

/// A position inside the grid has an index inside the grid, and the index
/// gives the position back.
pub proof fn lemma_index_in_range(width: int, height: int, row: int, col: int)
    requires
        0 < width,
        0 <= row < height,
        0 <= col < width,
    ensures
        0 <= index_of(width, row, col) < width * height,
        index_of(width, row, col) / width == row,
        index_of(width, row, col) % width == col,
{
    assert(0 <= row * width + col < width * height) by (nonlinear_arith)
        requires
            0 < width,
            0 <= row < height,
            0 <= col < width,
    ;
    lemma_fundamental_div_mod_converse(index_of(width, row, col), width, row, col);
}

/// Distinct positions inside the grid have distinct indices.
pub proof fn lemma_index_injective(
    width: int,
    height: int,
    row1: int,
    col1: int,
    row2: int,
    col2: int,
)
    requires
        valid_dims(width, height),
        0 <= row1 < height,
        0 <= col1 < width,
        0 <= row2 < height,
        0 <= col2 < width,
        index_of(width, row1, col1) == index_of(width, row2, col2),
    ensures
        row1 == row2,
        col1 == col2,
{
    lemma_index_in_range(width, height, row1, col1);
    lemma_index_in_range(width, height, row2, col2);
}

/// The line `d` steps from `x` on a ring of `n` lines.
pub open spec fn wrap_step(n: int, x: int, d: int) -> int {
    (x + d) % n
}

/// The ring neighbours agree with arithmetic modulo the ring's size.
proof fn lemma_wrap_is_mod(n: int, x: int)
    requires
        0 <= x < n,
    ensures
        wrap_step(n, x, -1) == wrap_prev(n, x),
        wrap_step(n, x, 0) == x,
        wrap_step(n, x, 1) == wrap_next(n, x),
{
    if x == 0 {
        lemma_fundamental_div_mod_converse(x - 1, n, -1, n - 1);
    } else {
        lemma_fundamental_div_mod_converse(x - 1, n, 0, x - 1);
    }
    lemma_fundamental_div_mod_converse(x, n, 0, x);
    if x == n - 1 {
        lemma_fundamental_div_mod_converse(x + 1, n, 1, 0);
    } else {
        lemma_fundamental_div_mod_converse(x + 1, n, 0, x + 1);
    }
}

/// Every one of the eight cells around `(row, col)` on the torus counts
/// toward its live neighbour count, across the edges as well: on a grid of at
/// least 3 by 3, the cell `dr` rows and `dc` columns away (each step taken
/// modulo the grid's size, so that (0, 0) sees (height - 1, width - 1))
/// raises the count by exactly one when it is alive rather than dead.
pub proof fn lemma_neighbor_counted(
    g: Seq<Cell>,
    width: int,
    height: int,
    row: int,
    col: int,
    dr: int,
    dc: int,
)
    requires
        valid_dims(width, height),
        3 <= width,
        3 <= height,
        g.len() == width * height,
        0 <= row < height,
        0 <= col < width,
        -1 <= dr <= 1,
        -1 <= dc <= 1,
        dr != 0 || dc != 0,
    ensures
        ({
            let t = index_of(width, wrap_step(height, row, dr), wrap_step(width, col, dc));
            neighbor_count(g.update(t, Cell::Alive), width, height, row, col) == neighbor_count(
                g.update(t, Cell::Dead),
                width,
                height,
                row,
                col,
            ) + 1
        }),
{
    lemma_wrap_is_mod(height, row);
    lemma_wrap_is_mod(width, col);
    let tr = wrap_step(height, row, dr);
    let tc = wrap_step(width, col, dc);
    let t = index_of(width, tr, tc);
    let rows = seq![wrap_prev(height, row), row, wrap_next(height, row)];
    let cols = seq![wrap_prev(width, col), col, wrap_next(width, col)];
    let ga = g.update(t, Cell::Alive);
    let gd = g.update(t, Cell::Dead);
    lemma_index_in_range(width, height, tr, tc);
    assert forall|a: int, b: int| 0 <= a < 3 && 0 <= b < 3 implies {
        let p = index_of(width, #[trigger] rows[a], #[trigger] cols[b]);
        &&& alive_at(ga, width, rows[a], cols[b]) == alive_at(gd, width, rows[a], cols[b]) + if a
            == dr + 1 && b == dc + 1 {
            1int
        } else {
            0
        }
    } by {
        lemma_index_in_range(width, height, rows[a], cols[b]);
        if index_of(width, rows[a], cols[b]) == t {
            lemma_index_injective(width, height, rows[a], cols[b], tr, tc);
        }
    }
    assert(rows[0] == wrap_prev(height, row) && rows[1] == row && rows[2] == wrap_next(height, row));
    assert(cols[0] == wrap_prev(width, col) && cols[1] == col && cols[2] == wrap_next(width, col));
}

/// The flat index of `(row, column)` in a grid of the given dimensions.
pub fn get_index(width: u32, height: u32, row: u32, column: u32) -> (r: usize)
    requires
        valid_dims(width as int, height as int),
        row < height,
        column < width,
    ensures
        r as int == index_of(width as int, row as int, column as int),
        r < width * height,
{
    proof {
        lemma_index_in_range(width as int, height as int, row as int, column as int);
    }
    row as usize * width as usize + column as usize
}

/// 1 when the cell at `(row, column)` of `cells` is alive, else 0.
fn alive_value(cells: &[Cell], width: u32, height: u32, row: u32, column: u32) -> (r: u8)
    requires
        valid_dims(width as int, height as int),
        cells@.len() == width * height,
        row < height,
        column < width,
    ensures
        r as int == alive_at(cells@, width as int, row as int, column as int),
        r <= 1,
{
    cells[get_index(width, height, row, column)].as_u8()
}

/// How many of the eight toroidal neighbours of `(row, column)` in `cells`
/// are alive.
pub fn live_neighbor_count(cells: &[Cell], width: u32, height: u32, row: u32, column: u32) -> (r: u8)
    requires
        valid_dims(width as int, height as int),
        cells@.len() == width * height,
        row < height,
        column < width,
    ensures
        r as int == neighbor_count(cells@, width as int, height as int, row as int, column as int),
        r <= 8,
{
    let north: u32 = if row == 0 { height - 1 } else { row - 1 };
    let south: u32 = if row == height - 1 { 0 } else { row + 1 };
    let west: u32 = if column == 0 { width - 1 } else { column - 1 };
    let east: u32 = if column == width - 1 { 0 } else { column + 1 };
    let ghost g = cells@;
    let ghost w = width as int;
    let ghost h = height as int;
    assert(north == wrap_prev(h, row as int) && south == wrap_next(h, row as int));
    assert(west == wrap_prev(w, column as int) && east == wrap_next(w, column as int));
    let nw = alive_value(cells, width, height, north, west);
    let n = alive_value(cells, width, height, north, column);
    let ne = alive_value(cells, width, height, north, east);
    let we = alive_value(cells, width, height, row, west);
    let ea = alive_value(cells, width, height, row, east);
    let sw = alive_value(cells, width, height, south, west);
    let s = alive_value(cells, width, height, south, column);
    let se = alive_value(cells, width, height, south, east);
    assert(nw + n + ne + we + ea + sw + s + se == neighbor_count(g, w, h, row as int, column as int));
    nw + n + ne + we + ea + sw + s + se
}

/// Writes into `next` the generation that follows `cells`. `cells` is only
/// read, so every new cell is computed from the old generation alone.
pub fn next_generation_into(cells: &[Cell], next: &mut Vec<Cell>, width: u32, height: u32)
    requires
        valid_dims(width as int, height as int),
        cells@.len() == width * height,
        old(next)@.len() == width * height,
    ensures
        final(next)@ == next_generation(cells@, width as int, height as int),
{
    let ghost w = width as int;
    let ghost h = height as int;
    let ghost target = next_generation(cells@, w, h);
    let mut row: u32 = 0;
    while row < height
        invariant
            valid_dims(w, h),
            w == width,
            h == height,
            cells@.len() == w * h,
            next@.len() == w * h,
            target == next_generation(cells@, w, h),
            row <= height,
            forall|i: int| 0 <= i < row * w ==> next@[i] == target[i],
        decreases height - row,
    {
        let mut column: u32 = 0;
        while column < width
            invariant
                valid_dims(w, h),
                w == width,
                h == height,
                cells@.len() == w * h,
                next@.len() == w * h,
                target == next_generation(cells@, w, h),
                row < height,
                column <= width,
                forall|i: int| 0 <= i < row * w + column ==> next@[i] == target[i],
            decreases width - column,
        {
            let idx = get_index(width, height, row, column);
            let live = live_neighbor_count(cells, width, height, row, column);
            let cell = cells[idx].next_state(live);
            proof {
                lemma_index_in_range(w, h, row as int, column as int);
            }
            next.set(idx, cell);
            column = column + 1;
        }
        assert((row + 1) * w == row * w + w) by (nonlinear_arith);
        row = row + 1;
    }
    assert(next@ =~= target);
}

} // verus!
