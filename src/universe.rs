//! A universe: two grid buffers of equal size, one of which is current.
use vstd::prelude::*;
use crate::cell::Cell;
use crate::grid::{get_index, index_of, next_generation, next_generation_into, valid_dims};
use crate::grid;

verus! {

/// The default number of columns.
pub const WIDTH: u32 = 256;

/// The default number of rows.
pub const HEIGHT: u32 = 128;

/// What a universe is, abstractly: its dimensions, the current generation,
/// the scratch buffer that the next step writes, and which buffer is current.
pub struct UniverseView {
    pub width: nat,
    pub height: nat,
    pub cells: Seq<Cell>,
    pub scratch: Seq<Cell>,
    pub buffer: nat,
}

/// A toroidal grid of cells, double-buffered: a step reads the current buffer
/// and writes the other, then makes the other current.
pub struct Universe {
    width: u32,
    height: u32,
    buffer_0: Vec<Cell>,
    buffer_1: Vec<Cell>,
    buffer: u8,
}

/// The seeding pattern: the cell at flat index `i` is alive exactly when `i`
/// is even or a multiple of 7.
pub open spec fn seed(i: int) -> Cell {
    if i % 2 == 0 || i % 7 == 0 {
        Cell::Alive
    } else {
        Cell::Dead
    }
}

/// A grid of `len` dead cells.
pub open spec fn all_dead(len: nat) -> Seq<Cell> {
    Seq::new(len, |i: int| Cell::Dead)
}

/// True when `(row, col)` is one of `coords`, as an index of a grid `width` wide.
pub open spec fn listed(coords: Seq<(u32, u32)>, width: int, i: int) -> bool {
    exists|k: int|
        0 <= k < coords.len() && index_of(width, coords[k].0 as int, coords[k].1 as int) == i
}

impl View for Universe {
    type V = UniverseView;

    closed spec fn view(&self) -> UniverseView {
        UniverseView {
            width: self.width as nat,
            height: self.height as nat,
            cells: if self.buffer == 0 {
                self.buffer_0@
            } else {
                self.buffer_1@
            },
            scratch: if self.buffer == 0 {
                self.buffer_1@
            } else {
                self.buffer_0@
            },
            buffer: self.buffer as nat,
        }
    }
}

impl Universe {
    /// Both buffers hold one cell per position, the dimensions are valid, and
    /// the selector names one of the two buffers.
    pub open spec fn wf(&self) -> bool {
        &&& valid_dims(self@.width as int, self@.height as int)
        &&& self@.cells.len() == self@.width * self@.height
        &&& self@.scratch.len() == self@.width * self@.height
        &&& self@.buffer <= 1
    }

    /// A universe of the default size with every cell dead, buffer 0 current.
    pub fn new() -> (u: Universe)
        ensures
            u.wf(),
            u@.width == WIDTH,
            u@.height == HEIGHT,
            u@.cells == all_dead((WIDTH * HEIGHT) as nat),
            u@.scratch == all_dead((WIDTH * HEIGHT) as nat),
            u@.buffer == 0,
    {
        Universe::with_size(WIDTH, HEIGHT)
    }

    /// A universe of `width` columns and `height` rows with every cell dead,
    /// buffer 0 current.
    pub fn with_size(width: u32, height: u32) -> (u: Universe)
        requires
            valid_dims(width as int, height as int),
        ensures
            u.wf(),
            u@.width == width,
            u@.height == height,
            u@.cells == all_dead((width * height) as nat),
            u@.scratch == all_dead((width * height) as nat),
            u@.buffer == 0,
    {
        let len = width as usize * height as usize;
        let buffer_0 = dead_buffer(len);
        let buffer_1 = dead_buffer(len);
        Universe { width, height, buffer_0, buffer_1, buffer: 0 }
    }

    /// The number of columns.
    pub fn width(&self) -> (r: u32)
        ensures
            r == self@.width,
    {
        self.width
    }

    /// The number of rows.
    pub fn height(&self) -> (r: u32)
        ensures
            r == self@.height,
    {
        self.height
    }

    /// The flat index of `(row, column)` in this universe's grid.
    pub fn get_index(&self, row: u32, column: u32) -> (r: usize)
        requires
            self.wf(),
            row < self@.height,
            column < self@.width,
        ensures
            r as int == index_of(self@.width as int, row as int, column as int),
            r < self@.cells.len(),
    {
        get_index(self.width, self.height, row, column)
    }

    /// How many of the eight toroidal neighbours of `(row, column)` are alive
    /// in the current generation.
    pub fn live_neighbor_count(&self, row: u32, column: u32) -> (r: u8)
        requires
            self.wf(),
            row < self@.height,
            column < self@.width,
        ensures
            r as int == grid::neighbor_count(
                self@.cells,
                self@.width as int,
                self@.height as int,
                row as int,
                column as int,
            ),
    {
        grid::live_neighbor_count(self.get_cells(), self.width, self.height, row, column)
    }

    /// The current generation, row by row.
    pub fn get_cells(&self) -> (r: &[Cell])
        ensures
            r@ == self@.cells,
    {
        if self.buffer == 0 {
            self.buffer_0.as_slice()
        } else {
            self.buffer_1.as_slice()
        }
    }

    /// Advances the universe by one generation. The next generation is
    /// computed from the current buffer alone and written into the scratch
    /// buffer, which then becomes current; the old current buffer becomes the
    /// scratch buffer of the following step.
    pub fn tick(&mut self)
        requires
            old(self).wf(),
        ensures
            final(self).wf(),
            final(self)@.width == old(self)@.width,
            final(self)@.height == old(self)@.height,
            final(self)@.cells == next_generation(
                old(self)@.cells,
                old(self)@.width as int,
                old(self)@.height as int,
            ),
            final(self)@.scratch == old(self)@.cells,
            final(self)@.buffer == 1 - old(self)@.buffer,
    {
        if self.buffer == 0 {
            next_generation_into(self.buffer_0.as_slice(), &mut self.buffer_1, self.width, self.height);
            self.buffer = 1;
        } else {
            next_generation_into(self.buffer_1.as_slice(), &mut self.buffer_0, self.width, self.height);
            self.buffer = 0;
        }
    }

    /// Seeds the current generation: the cell at flat index `i` becomes alive
    /// exactly when `i` is even or a multiple of 7, and dead otherwise.
    pub fn initialize(&mut self)
        requires
            old(self).wf(),
        ensures
            final(self).wf(),
            final(self)@ == (UniverseView {
                cells: Seq::new(old(self)@.cells.len(), |i: int| seed(i)),
                ..old(self)@
            }),
    {
        if self.buffer == 0 {
            seed_cells(&mut self.buffer_0);
        } else {
            seed_cells(&mut self.buffer_1);
        }
    }

    /// Makes each cell listed in `cells`, given as `(row, column)`, alive in
    /// the current generation. Other cells keep their state; a position listed
    /// twice is set once.
    pub fn set_cells(&mut self, cells: &[(u32, u32)])
        requires
            old(self).wf(),
            forall|k: int|
                0 <= k < cells@.len() ==> cells@[k].0 < old(self)@.height && cells@[k].1
                    < old(self)@.width,
        ensures
            final(self).wf(),
            final(self)@ == (UniverseView {
                cells: Seq::new(
                    old(self)@.cells.len(),
                    |i: int|
                        if listed(cells@, old(self)@.width as int, i) {
                            Cell::Alive
                        } else {
                            old(self)@.cells[i]
                        },
                ),
                ..old(self)@
            }),
    {
        if self.buffer == 0 {
            set_alive(&mut self.buffer_0, cells, self.width, self.height);
        } else {
            set_alive(&mut self.buffer_1, cells, self.width, self.height);
        }
    }

    /// Flips the cell at `(row, column)` of the current generation.
    pub fn toggle_cell(&mut self, row: u32, column: u32)
        requires
            old(self).wf(),
            row < old(self)@.height,
            column < old(self)@.width,
        ensures
            final(self).wf(),
            final(self)@ == (UniverseView {
                cells: old(self)@.cells.update(
                    index_of(old(self)@.width as int, row as int, column as int),
                    old(self)@.cells[index_of(
                        old(self)@.width as int,
                        row as int,
                        column as int,
                    )].toggled(),
                ),
                ..old(self)@
            }),
    {
        let idx = get_index(self.width, self.height, row, column);
        if self.buffer == 0 {
            toggle_at(&mut self.buffer_0, idx);
        } else {
            toggle_at(&mut self.buffer_1, idx);
        }
    }
}

/// Sets every cell of `cells` to the seeding pattern.
fn seed_cells(cells: &mut Vec<Cell>)
    ensures
        final(cells)@ == Seq::new(old(cells)@.len(), |i: int| seed(i)),
{
    let ghost len = cells@.len();
    let mut i: usize = 0;
    while i < cells.len()
        invariant
            cells@.len() == len,
            i <= len,
            forall|j: int| 0 <= j < i ==> cells@[j] == seed(j),
        decreases len - i,
    {
        let c = if i % 2 == 0 || i % 7 == 0 {
            Cell::Alive
        } else {
            Cell::Dead
        };
        cells.set(i, c);
        i = i + 1;
    }
    assert(cells@ =~= Seq::new(len, |i: int| seed(i)));
}

/// Makes alive, in a grid `width` cells wide, each cell listed in `coords`.
fn set_alive(cells: &mut Vec<Cell>, coords: &[(u32, u32)], width: u32, height: u32)
    requires
        valid_dims(width as int, height as int),
        old(cells)@.len() == width * height,
        forall|k: int| 0 <= k < coords@.len() ==> coords@[k].0 < height && coords@[k].1 < width,
    ensures
        final(cells)@ == Seq::new(
            old(cells)@.len(),
            |i: int|
                if listed(coords@, width as int, i) {
                    Cell::Alive
                } else {
                    old(cells)@[i]
                },
        ),
{
    let ghost start = cells@;
    let mut k: usize = 0;
    while k < coords.len()
        invariant
            valid_dims(width as int, height as int),
            cells@.len() == start.len(),
            start.len() == width * height,
            k <= coords@.len(),
            forall|j: int| 0 <= j < coords@.len() ==> coords@[j].0 < height && coords@[j].1 < width,
            forall|i: int|
                0 <= i < start.len() ==> cells@[i] == if listed(coords@.take(k as int), width as int, i) {
                    Cell::Alive
                } else {
                    start[i]
                },
        decreases coords@.len() - k,
    {
        let (row, column) = coords[k];
        let idx = get_index(width, height, row, column);
        cells.set(idx, Cell::Alive);
        proof {
            assert forall|i: int| 0 <= i < start.len() implies cells@[i] == if listed(
                coords@.take(k + 1),
                width as int,
                i,
            ) {
                Cell::Alive
            } else {
                start[i]
            } by {
                let prev = coords@.take(k as int);
                let next = coords@.take(k + 1);
                if listed(prev, width as int, i) {
                    let m = choose|m: int|
                        0 <= m < prev.len() && index_of(width as int, prev[m].0 as int, prev[m].1 as int) == i;
                    assert(next[m] == prev[m]);
                }
                if i == idx {
                    assert(next[k as int] == coords@[k as int]);
                }
                if listed(next, width as int, i) && i != idx {
                    let m = choose|m: int|
                        0 <= m < next.len() && index_of(width as int, next[m].0 as int, next[m].1 as int) == i;
                    assert(m != k);
                    assert(prev[m] == next[m]);
                }
            }
        }
        k = k + 1;
    }
    assert(coords@.take(coords@.len() as int) =~= coords@);
    assert(cells@ =~= Seq::new(
        start.len(),
        |i: int|
            if listed(coords@, width as int, i) {
                Cell::Alive
            } else {
                start[i]
            },
    ));
}

/// Flips the cell at flat index `idx`.
fn toggle_at(cells: &mut Vec<Cell>, idx: usize)
    requires
        idx < old(cells)@.len(),
    ensures
        final(cells)@ == old(cells)@.update(idx as int, old(cells)@[idx as int].toggled()),
{
    let mut c = cells[idx];
    c.toggle();
    cells.set(idx, c);
}


/// A buffer of `len` dead cells.
fn dead_buffer(len: usize) -> (r: Vec<Cell>)
    ensures
        r@ == all_dead(len as nat),
{
    let mut v: Vec<Cell> = Vec::with_capacity(len);
    let mut i: usize = 0;
    while i < len
        invariant
            i <= len,
            v@ == all_dead(i as nat),
        decreases len - i,
    {
        v.push(Cell::Dead);
        i = i + 1;
        assert(v@ =~= all_dead(i as nat));
    }
    v
}

} // verus!
