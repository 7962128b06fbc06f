//! The game board: a toroidal grid of cells, advanced one generation at a time.

use crate::bitset::{
    bits_of, bitset_clear, bitset_get, bitset_set, bitset_toggle, bitset_with_capacity,
};
use crate::cell::Cell;
use crate::rules::{
    alive_at, coords_in_range, covers, default_pattern, flat_index, glyph, is_make_alive_of,
    is_step_of, lemma_flat_index_bound, lemma_flat_index_distinct, next_cell, spec_num_neighbours,
    spec_render, spec_render_upto, stepped_at, BoardView,
};
use vstd::prelude::*;
use vstd::string::StringExecFns;

verus! {

/// A rectangular grid of cells on a torus, stored one bit per cell in
/// row-major order. The dimensions never change after construction.
pub struct Board {
    /// Number of columns.
    width: u32,
    /// Number of rows.
    height: u32,
    /// Cell state array, one bit per cell, `true` for alive.
    cells: fixedbitset::FixedBitSet,
}

impl View for Board {
    type V = BoardView;

    closed spec fn view(&self) -> BoardView {
        BoardView {
            width: self.width as nat,
            height: self.height as nat,
            cells: bits_of(self.cells),
        }
    }
}

impl Board {
    /// The board's invariant: positive dimensions, a cell for every grid
    /// position, and a grid small enough to index with `usize`.
    pub open spec fn wf(&self) -> bool {
        &&& self@.consistent()
        &&& self@.width * self@.height <= usize::MAX as nat
    }

    /// Construct a board of the given size with every cell dead.
    fn new_sized(width: u32, height: u32) -> (r: Board)
        requires
            width >= 1,
            height >= 1,
            width as int * height as int <= usize::MAX as int,
        ensures
            r.wf(),
            r@.width == width,
            r@.height == height,
            forall|i: int| 0 <= i < r@.cells.len() ==> !r@.cells[i],
    {
        let total: usize = (width as usize) * (height as usize);
        Board { width, height, cells: bitset_with_capacity(total) }
    }

    /// Construct a new instance, seeded with the default pattern: the cell at
    /// flat index `i` starts alive exactly when `i` is a multiple of two or
    /// of seven.
    pub fn new(width: u32, height: u32) -> (r: Board)
        requires
            width >= 1,
            height >= 1,
            width as int * height as int <= usize::MAX as int,
        ensures
            r.wf(),
            r@.width == width,
            r@.height == height,
            forall|i: int| 0 <= i < r@.cells.len() ==> #[trigger] r@.cells[i] == default_pattern(i),
    {
        let mut board = Self::new_sized(width, height);
        let total: usize = (width as usize) * (height as usize);
        let mut i: usize = 0;
        while i < total
            invariant
                board.wf(),
                board@.width == width,
                board@.height == height,
                board@.cells.len() == total,
                i <= total,
                forall|j: int| 0 <= j < i ==> board@.cells[j] == default_pattern(j),
            decreases total - i,
        {
            let alive = i % 2 == 0 || i % 7 == 0;
            bitset_set(&mut board.cells, i, alive);
            i += 1;
        }
        board
    }

    /// Construct a board with exactly the listed coordinates alive and every
    /// other cell dead. Every pair must name a cell on the board.
    pub fn with_alive(width: u32, height: u32, coords: &Vec<(u32, u32)>) -> (r: Board)
        requires
            width >= 1,
            height >= 1,
            width as int * height as int <= usize::MAX as int,
            coords_in_range(width as nat, height as nat, coords@),
        ensures
            r.wf(),
            r@.width == width,
            r@.height == height,
            forall|i: int|
                0 <= i < r@.cells.len() ==> #[trigger] r@.cells[i] == covers(
                    width as nat,
                    coords@,
                    i,
                ),
    {
        let mut board = Self::new_sized(width, height);
        board.make_alive(coords);
        board
    }

    /// Retrieve the board width.
    pub fn width(&self) -> (r: u32)
        ensures
            r == self@.width,
    {
        self.width
    }

    /// Retrieve the board height.
    pub fn height(&self) -> (r: u32)
        ensures
            r == self@.height,
    {
        self.height
    }

    /// Get the linear index corresponding to the two-dimensional position.
    fn get_index(&self, row: u32, col: u32) -> (r: usize)
        requires
            self.wf(),
            row < self@.height,
            col < self@.width,
        ensures
            r == flat_index(self@.width, row as nat, col as nat),
            r < self@.cells.len(),
    {
        proof {
            lemma_flat_index_bound(self@.width, self@.height, row as nat, col as nat);
        }
        (row as usize) * (self.width as usize) + (col as usize)
    }

    /// The state of the cell at `(row, col)`. Coordinates must be in range:
    /// direct access does not wrap around.
    pub fn get_cell(&self, row: u32, col: u32) -> (r: Cell)
        requires
            self.wf(),
            row < self@.height,
            col < self@.width,
        ensures
            r.spec_alive() == alive_at(self@, row as nat, col as nat),
    {
        let index = self.get_index(row, col);
        if bitset_get(&self.cells, index) {
            Cell::Alive
        } else {
            Cell::Dead
        }
    }

    /// A copy of the flat cell buffer, row-major, one `Cell` per grid cell.
    pub fn cells(&self) -> (r: Vec<Cell>)
        requires
            self.wf(),
        ensures
            r@.len() == self@.cells.len(),
            forall|i: int|
                0 <= i < r@.len() ==> (#[trigger] r@[i]).spec_alive() == self@.cells[i],
    {
        let total: usize = (self.width as usize) * (self.height as usize);
        let mut out: Vec<Cell> = Vec::new();
        let mut i: usize = 0;
        while i < total
            invariant
                self.wf(),
                total == self@.cells.len(),
                i <= total,
                out@.len() == i,
                forall|j: int|
                    0 <= j < i ==> (#[trigger] out@[j]).spec_alive() == self@.cells[j],
            decreases total - i,
        {
            let cell = if bitset_get(&self.cells, i) {
                Cell::Alive
            } else {
                Cell::Dead
            };
            out.push(cell);
            i += 1;
        }
        out
    }

    /// Calculate the number of live cells among the 8 toroidally adjacent
    /// cells of `(row, col)`. On degenerate sizes a cell can be counted more
    /// than once, or be its own neighbour: that is the wraparound semantics.
    #[verifier::rlimit(100)]
    #[verifier::spinoff_prover]
    pub fn num_neighbours(&self, row: u32, col: u32) -> (r: u8)
        requires
            self.wf(),
            row < self@.height,
            col < self@.width,
        ensures
            r == spec_num_neighbours(self@, row as nat, col as nat),
            r <= 8,
    {
        let north = if row == 0 { self.height - 1 } else { row - 1 };
        let south = if row == self.height - 1 { 0 } else { row + 1 };
        let west = if col == 0 { self.width - 1 } else { col - 1 };
        let east = if col == self.width - 1 { 0 } else { col + 1 };

        let mut count: u8 = 0;
        if bitset_get(&self.cells, self.get_index(north, west)) {
            count += 1;
        }
        if bitset_get(&self.cells, self.get_index(north, col)) {
            count += 1;
        }
        if bitset_get(&self.cells, self.get_index(north, east)) {
            count += 1;
        }
        if bitset_get(&self.cells, self.get_index(row, west)) {
            count += 1;
        }
        if bitset_get(&self.cells, self.get_index(row, east)) {
            count += 1;
        }
        if bitset_get(&self.cells, self.get_index(south, west)) {
            count += 1;
        }
        if bitset_get(&self.cells, self.get_index(south, col)) {
            count += 1;
        }
        if bitset_get(&self.cells, self.get_index(south, east)) {
            count += 1;
        }
        count
    }

    /// Iterate the board forward a single step: every cell's next state is
    /// computed from the pre-tick grid alone, into a separate buffer that
    /// replaces the grid only once every cell has been evaluated.
    #[verifier::rlimit(100)]
    #[verifier::spinoff_prover]
    pub fn tick(&mut self)
        requires
            old(self).wf(),
        ensures
            final(self).wf(),
            is_step_of(old(self)@, final(self)@),
    {
        let total: usize = (self.width as usize) * (self.height as usize);
        let mut next = bitset_with_capacity(total);
        let mut row: u32 = 0;
        while row < self.height
            invariant
                *self == *old(self),
                self.wf(),
                row <= self@.height,
                total == self@.width * self@.height,
                bits_of(next).len() == total,
                forall|r: nat, c: nat|
                    r < row && c < self@.width ==> #[trigger] stepped_at(self@, bits_of(next), r, c),
            decreases self@.height - row,
        {
            let mut col: u32 = 0;
            while col < self.width
                invariant
                    *self == *old(self),
                    self.wf(),
                    row < self@.height,
                    col <= self@.width,
                    total == self@.width * self@.height,
                    bits_of(next).len() == total,
                    forall|r: nat, c: nat|
                        r < row && c < self@.width ==> #[trigger] stepped_at(
                            self@,
                            bits_of(next),
                            r,
                            c,
                        ),
                    forall|c: nat|
                        c < col ==> #[trigger] stepped_at(self@, bits_of(next), row as nat, c),
                decreases self@.width - col,
            {
                let index = self.get_index(row, col);
                let alive = bitset_get(&self.cells, index);
                let neighbours = self.num_neighbours(row, col);
                let status = if alive {
                    neighbours == 2 || neighbours == 3
                } else {
                    neighbours == 3
                };
                let ghost before = bits_of(next);
                bitset_set(&mut next, index, status);
                proof {
                    let w = self@.width;
                    assert(status == next_cell(
                        alive_at(self@, row as nat, col as nat),
                        spec_num_neighbours(self@, row as nat, col as nat),
                    ));
                    assert(stepped_at(self@, bits_of(next), row as nat, col as nat));
                    assert forall|r: nat, c: nat|
                        r < row && c < w implies #[trigger] stepped_at(
                        self@,
                        bits_of(next),
                        r,
                        c,
                    ) by {
                        lemma_flat_index_bound(w, self@.height, r, c);
                        lemma_flat_index_distinct(w, r, c, row as nat, col as nat);
                        assert(stepped_at(self@, before, r, c));
                    }
                    assert forall|c: nat|
                        c < col implies #[trigger] stepped_at(
                        self@,
                        bits_of(next),
                        row as nat,
                        c,
                    ) by {
                        lemma_flat_index_bound(w, self@.height, row as nat, c);
                        lemma_flat_index_distinct(w, row as nat, c, row as nat, col as nat);
                        assert(stepped_at(self@, before, row as nat, c));
                    }
                }
                col += 1;
            }
            row += 1;
        }
        self.cells = next;
        proof {
            assert forall|r: nat, c: nat|
                r < old(self)@.height && c < old(self)@.width implies #[trigger] alive_at(
                self@,
                r,
                c,
            ) == next_cell(
                alive_at(old(self)@, r, c),
                spec_num_neighbours(old(self)@, r, c),
            ) by {
                assert(stepped_at(old(self)@, bits_of(self.cells), r, c));
            }
        }
    }

    /// Toggle the status of the cell at `(row, col)`. Coordinates must be in
    /// range: direct access does not wrap around.
    pub fn toggle_cell(&mut self, row: u32, col: u32)
        requires
            old(self).wf(),
            row < old(self)@.height,
            col < old(self)@.width,
        ensures
            final(self).wf(),
            final(self)@.width == old(self)@.width,
            final(self)@.height == old(self)@.height,
            final(self)@.cells == old(self)@.cells.update(
                flat_index(old(self)@.width, row as nat, col as nat) as int,
                !old(self)@.cells[flat_index(old(self)@.width, row as nat, col as nat) as int],
            ),
    {
        let index = self.get_index(row, col);
        bitset_toggle(&mut self.cells, index);
    }

    /// Kill all the cells.
    pub fn nuke(&mut self)
        requires
            old(self).wf(),
        ensures
            final(self).wf(),
            final(self)@.width == old(self)@.width,
            final(self)@.height == old(self)@.height,
            final(self)@.cells.len() == old(self)@.cells.len(),
            forall|i: int| 0 <= i < final(self)@.cells.len() ==> !final(self)@.cells[i],
    {
        bitset_clear(&mut self.cells);
    }

    /// Overwrite the whole grid from one uniform draw per cell: the cell at
    /// flat index `i` becomes alive exactly when `draws[i] < threshold`.
    /// With draws uniform over the `u32` range, a cell turns out alive with
    /// probability `threshold / 2^32`, so a threshold of zero clears the
    /// board and a threshold of `2^32` or more fills it.
    pub fn randomise(&mut self, threshold: u64, draws: &Vec<u32>)
        requires
            old(self).wf(),
            draws@.len() == old(self)@.cells.len(),
        ensures
            final(self).wf(),
            final(self)@.width == old(self)@.width,
            final(self)@.height == old(self)@.height,
            final(self)@.cells.len() == old(self)@.cells.len(),
            forall|i: int|
                0 <= i < final(self)@.cells.len() ==> #[trigger] final(self)@.cells[i] == ((
                draws@[i] as u64) < threshold),
            forall|i: int|
                threshold == 0 && 0 <= i < final(self)@.cells.len() ==> !final(self)@.cells[i],
            forall|i: int|
                threshold >= 0x1_0000_0000 && 0 <= i < final(self)@.cells.len()
                    ==> final(self)@.cells[i],
    {
        let total: usize = (self.width as usize) * (self.height as usize);
        let mut i: usize = 0;
        while i < total
            invariant
                self.wf(),
                self@.width == old(self)@.width,
                self@.height == old(self)@.height,
                self@.cells.len() == old(self)@.cells.len(),
                total == self@.cells.len(),
                draws@.len() == total,
                i <= total,
                forall|j: int|
                    0 <= j < i ==> #[trigger] self@.cells[j] == ((draws@[j] as u64) < threshold),
                forall|j: int| i <= j < total ==> self@.cells[j] == old(self)@.cells[j],
            decreases total - i,
        {
            let status = (draws[i] as u64) < threshold;
            bitset_set(&mut self.cells, i, status);
            i += 1;
        }
    }

    /// Set every listed coordinate alive, leaving all other cells at their
    /// prior state. Every pair must name a cell on the board.
    pub fn make_alive(&mut self, coords: &Vec<(u32, u32)>)
        requires
            old(self).wf(),
            coords_in_range(old(self)@.width, old(self)@.height, coords@),
        ensures
            final(self).wf(),
            is_make_alive_of(old(self)@, final(self)@, coords@),
    {
        let ghost w = old(self)@.width;
        let mut k: usize = 0;
        while k < coords.len()
            invariant
                self.wf(),
                self@.width == old(self)@.width,
                self@.height == old(self)@.height,
                self@.cells.len() == old(self)@.cells.len(),
                coords_in_range(w, old(self)@.height, coords@),
                w == old(self)@.width,
                k <= coords@.len(),
                forall|i: int|
                    0 <= i < old(self)@.cells.len() ==> #[trigger] self@.cells[i] == (old(
                        self,
                    )@.cells[i] || covers(w, coords@.take(k as int), i)),
            decreases coords@.len() - k,
        {
            let (row, col) = coords[k];
            let index = self.get_index(row, col);
            let ghost prev = self@.cells;
            bitset_set(&mut self.cells, index, true);
            proof {
                assert forall|i: int| 0 <= i < old(self)@.cells.len() implies #[trigger] self@
                    .cells[i] == (old(self)@.cells[i] || covers(
                    w,
                    coords@.take(k + 1 as int),
                    i,
                )) by {
                    if i == index {
                        assert(coords@.take(k + 1 as int)[k as int] == (row, col));
                        assert(covers(w, coords@.take(k + 1 as int), i));
                    } else {
                        assert(self@.cells[i] == prev[i]);
                        if covers(w, coords@.take(k as int), i) {
                            let k0 = choose|k0: int|
                                0 <= k0 < coords@.take(k as int).len() && flat_index(
                                    w,
                                    #[trigger] coords@.take(k as int)[k0].0 as nat,
                                    coords@.take(k as int)[k0].1 as nat,
                                ) == i;
                            assert(coords@.take(k + 1 as int)[k0] == coords@.take(k as int)[k0]);
                            assert(covers(w, coords@.take(k + 1 as int), i));
                        }
                        if covers(w, coords@.take(k + 1 as int), i) {
                            let k0 = choose|k0: int|
                                0 <= k0 < coords@.take(k + 1 as int).len() && flat_index(
                                    w,
                                    #[trigger] coords@.take(k + 1 as int)[k0].0 as nat,
                                    coords@.take(k + 1 as int)[k0].1 as nat,
                                ) == i;
                            if k0 == k {
                                assert(coords@.take(k + 1 as int)[k0] == (row, col));
                                assert(false);
                            } else {
                                assert(coords@.take(k as int)[k0] == coords@.take(k + 1 as int)[k0]);
                                assert(covers(w, coords@.take(k as int), i));
                            }
                        }
                    }
                }
            }
            k += 1;
        }
        proof {
            assert(coords@.take(coords@.len() as int) =~= coords@);
        }
    }

    /// Produce the textual rendering: one line per row, top to bottom, one
    /// glyph per cell, with distinct glyphs for live and dead cells.
    pub fn render(&self) -> (r: String)
        requires
            self.wf(),
        ensures
            r@ == spec_render(self@),
    {
        let mut out = String::new();
        let mut row: u32 = 0;
        while row < self.height
            invariant
                self.wf(),
                row <= self@.height,
                out@ =~= spec_render_upto(self@, row as nat),
            decreases self@.height - row,
        {
            let mut col: u32 = 0;
            while col < self.width
                invariant
                    self.wf(),
                    row < self@.height,
                    col <= self@.width,
                    out@ =~= spec_render_upto(self@, row as nat) + Seq::new(
                        col as nat,
                        |c: int| glyph(alive_at(self@, row as nat, c as nat)),
                    ),
                decreases self@.width - col,
            {
                let ghost prefix = out@;
                if bitset_get(&self.cells, self.get_index(row, col)) {
                    out.append("◼");
                } else {
                    out.append("◻");
                }
                proof {
                    reveal_strlit("◼");
                    reveal_strlit("◻");
                    assert(out@ =~= prefix.push(glyph(alive_at(self@, row as nat, col as nat))));
                    assert(spec_render_upto(self@, row as nat) + Seq::new(
                        col as nat + 1,
                        |c: int| glyph(alive_at(self@, row as nat, c as nat)),
                    ) =~= prefix.push(glyph(alive_at(self@, row as nat, col as nat))));
                }
                col += 1;
            }
            out.append("\n");
            proof {
                reveal_strlit("\n");
                assert(out@ =~= spec_render_upto(self@, row as nat + 1));
            }
            row += 1;
        }
        out
    }
}

impl Default for Board {
    /// Equivalent to `Board::new(64, 64)`.
    fn default() -> (r: Board)
        ensures
            r.wf(),
            r@.width == 64,
            r@.height == 64,
            forall|i: int| 0 <= i < r@.cells.len() ==> #[trigger] r@.cells[i] == default_pattern(i),
    {
        Board::new(64, 64)
    }
}

} // verus!
