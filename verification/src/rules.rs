//! The mathematical model of the grid and of the Game of Life rule.

use vstd::prelude::*;

verus! {

/// The abstract state of a board: its dimensions and the flat, row-major
/// sequence of cell states (`true` is alive).
pub ghost struct BoardView {
    pub width: nat,
    pub height: nat,
    pub cells: Seq<bool>,
}

impl BoardView {
    /// A view is consistent when both dimensions are positive and the cell
    /// sequence has exactly `width * height` entries.
    pub open spec fn consistent(self) -> bool {
        &&& self.width > 0
        &&& self.height > 0
        &&& self.cells.len() == self.width * self.height
    }
}

/// Row-major flat index of the cell at `(row, col)`.
pub open spec fn flat_index(width: nat, row: nat, col: nat) -> nat {
    row * width + col
}

/// Whether the cell at `(row, col)` is alive.
pub open spec fn alive_at(b: BoardView, row: nat, col: nat) -> bool {
    b.cells[flat_index(b.width, row, col) as int]
}

/// `(i - 1) mod n`, for `i < n`: the cyclic predecessor.
pub open spec fn prev_wrap(i: nat, n: nat) -> nat {
    if i == 0 {
        (n - 1) as nat
    } else {
        (i - 1) as nat
    }
}

/// `(i + 1) mod n`, for `i < n`: the cyclic successor.
pub open spec fn next_wrap(i: nat, n: nat) -> nat {
    if i + 1 == n {
        0
    } else {
        i + 1
    }
}

/// One if the cell at `(row, col)` is alive, zero otherwise.
pub open spec fn alive_count(b: BoardView, row: nat, col: nat) -> nat {
    if alive_at(b, row, col) {
        1
    } else {
        0
    }
}

/// The number of live cells among the 8 toroidally adjacent cells of
/// `(row, col)`. On degenerate sizes a cell can be its own neighbour, and
/// one live cell can be counted through several offsets.
pub open spec fn spec_num_neighbours(b: BoardView, row: nat, col: nat) -> nat {
    let north = prev_wrap(row, b.height);
    let south = next_wrap(row, b.height);
    let west = prev_wrap(col, b.width);
    let east = next_wrap(col, b.width);
    alive_count(b, north, west) + alive_count(b, north, col) + alive_count(b, north, east)
        + alive_count(b, row, west) + alive_count(b, row, east) + alive_count(b, south, west)
        + alive_count(b, south, col) + alive_count(b, south, east)
}

/// The Game of Life rule: a live cell survives with two or three live
/// neighbours, a dead cell is born with exactly three, all else dies or
/// stays dead.
pub open spec fn next_cell(alive: bool, neighbours: nat) -> bool {
    if alive {
        neighbours == 2 || neighbours == 3
    } else {
        neighbours == 3
    }
}

/// `post` is the generation after `pre`: same dimensions, and every cell's
/// state follows by the rule from `pre` alone.
pub open spec fn is_step_of(pre: BoardView, post: BoardView) -> bool {
    &&& post.width == pre.width
    &&& post.height == pre.height
    &&& post.cells.len() == pre.cells.len()
    &&& forall|row: nat, col: nat|
        row < pre.height && col < pre.width ==> #[trigger] alive_at(post, row, col)
            == next_cell(alive_at(pre, row, col), spec_num_neighbours(pre, row, col))
}

/// The buffer `post_bits` holds, at `(row, col)`, the successor of the cell
/// of `pre` there: the working predicate of a generation step in progress.
pub open spec fn stepped_at(pre: BoardView, post_bits: Seq<bool>, row: nat, col: nat) -> bool {
    post_bits[flat_index(pre.width, row, col) as int] == next_cell(
        alive_at(pre, row, col),
        spec_num_neighbours(pre, row, col),
    )
}

/// Whether some coordinate pair in `coords` maps to the flat index `i`.
pub open spec fn covers(width: nat, coords: Seq<(u32, u32)>, i: int) -> bool {
    exists|k: int|
        0 <= k < coords.len() && flat_index(
            width,
            #[trigger] coords[k].0 as nat,
            coords[k].1 as nat,
        ) == i
}

/// Whether `coords` lists the coordinate pair `(row, col)`.
pub open spec fn listed(coords: Seq<(u32, u32)>, row: u32, col: u32) -> bool {
    exists|k: int| 0 <= k < coords.len() && #[trigger] coords[k] == (row, col)
}

/// Whether every pair in `coords` is a valid coordinate on a board of the
/// given dimensions.
pub open spec fn coords_in_range(width: nat, height: nat, coords: Seq<(u32, u32)>) -> bool {
    forall|k: int|
        0 <= k < coords.len() ==> (#[trigger] coords[k]).0 < height && coords[k].1 < width
}

/// `post` is `pre` with every listed coordinate set alive and every other
/// cell unchanged.
pub open spec fn is_make_alive_of(pre: BoardView, post: BoardView, coords: Seq<(u32, u32)>) -> bool {
    &&& post.width == pre.width
    &&& post.height == pre.height
    &&& post.cells.len() == pre.cells.len()
    &&& forall|i: int|
        0 <= i < pre.cells.len() ==> #[trigger] post.cells[i] == (pre.cells[i] || covers(
            pre.width,
            coords,
            i,
        ))
}

/// The glyph that renders one cell.
pub open spec fn glyph(alive: bool) -> char {
    if alive {
        '◼'
    } else {
        '◻'
    }
}

/// The characters of one rendered row: one glyph per column, then a newline.
pub open spec fn spec_render_row(b: BoardView, row: nat) -> Seq<char> {
    Seq::new(b.width as nat, |c: int| glyph(alive_at(b, row, c as nat))).push('\n')
}

/// The first `rows` rendered rows, concatenated in top-to-bottom order.
pub open spec fn spec_render_upto(b: BoardView, rows: nat) -> Seq<char>
    decreases rows,
{
    if rows == 0 {
        Seq::empty()
    } else {
        spec_render_upto(b, (rows - 1) as nat) + spec_render_row(b, (rows - 1) as nat)
    }
}

/// The full textual rendering: `height` lines of `width` glyphs each.
pub open spec fn spec_render(b: BoardView) -> Seq<char> {
    spec_render_upto(b, b.height)
}

/// The default seed pattern: the cell at flat index `i` starts alive exactly
/// when `i` is a multiple of two or of seven.
pub open spec fn default_pattern(i: int) -> bool {
    i % 2 == 0 || i % 7 == 0
}

/// Row-major flat indices of in-range coordinates stay below the cell count.
pub proof fn lemma_flat_index_bound(width: nat, height: nat, row: nat, col: nat)
    requires
        row < height,
        col < width,
    ensures
        flat_index(width, row, col) < width * height,
{
    assert(row * width + col < width * height) by (nonlinear_arith)
        requires
            row < height,
            col < width,
    ;
}

/// Distinct in-range coordinates have distinct flat indices.
pub proof fn lemma_flat_index_distinct(width: nat, r1: nat, c1: nat, r2: nat, c2: nat)
    requires
        c1 < width,
        c2 < width,
        !(r1 == r2 && c1 == c2),
    ensures
        flat_index(width, r1, c1) != flat_index(width, r2, c2),
{
    assert(r1 * width + c1 != r2 * width + c2) by (nonlinear_arith)
        requires
            c1 < width,
            c2 < width,
            !(r1 == r2 && c1 == c2),
    ;
}

/// On a fixed width, the flat index is injective over in-range columns.
pub proof fn lemma_flat_index_injective(width: nat)
    ensures
        forall|r1: nat, c1: nat, r2: nat, c2: nat|
            c1 < width && c2 < width ==> ((#[trigger] flat_index(width, r1, c1)
                == #[trigger] flat_index(width, r2, c2)) <==> (r1 == r2 && c1 == c2)),
{
    assert forall|r1: nat, c1: nat, r2: nat, c2: nat|
        c1 < width && c2 < width implies ((#[trigger] flat_index(width, r1, c1)
        == #[trigger] flat_index(width, r2, c2)) <==> (r1 == r2 && c1 == c2)) by {
        assert(flat_index(width, r1, c1) == flat_index(width, r2, c2) ==> (r1 == r2 && c1 == c2))
            by (nonlinear_arith)
            requires
                c1 < width,
                c2 < width,
        ;
    }
}

} // verus!
