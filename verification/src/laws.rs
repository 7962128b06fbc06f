//! General laws of the grid model, stated and proved once for all boards.

use crate::rules::{
    alive_at, coords_in_range, covers, flat_index, is_make_alive_of, is_step_of,
    lemma_flat_index_bound, lemma_flat_index_injective, listed, next_cell, next_wrap, prev_wrap,
    spec_num_neighbours, BoardView,
};
use vstd::prelude::*;

verus! {

/// On any board, every cell has between zero and eight live neighbours.
pub proof fn lemma_num_neighbours_bound(b: BoardView, row: nat, col: nat)
    ensures
        spec_num_neighbours(b, row, col) <= 8,
{
}

/// Toroidal wraparound: a live cell at `(0, 0)` counts as a neighbour of all
/// eight cells that touch it around the torus, corners and edges included.
pub proof fn lemma_toroidal_wraparound(b: BoardView)
    requires
        b.width >= 2,
        b.height >= 2,
        alive_at(b, 0, 0),
    ensures
        spec_num_neighbours(b, (b.height - 1) as nat, (b.width - 1) as nat) >= 1,
        spec_num_neighbours(b, (b.height - 1) as nat, 0) >= 1,
        spec_num_neighbours(b, (b.height - 1) as nat, 1) >= 1,
        spec_num_neighbours(b, 0, (b.width - 1) as nat) >= 1,
        spec_num_neighbours(b, 0, 1) >= 1,
        spec_num_neighbours(b, 1, (b.width - 1) as nat) >= 1,
        spec_num_neighbours(b, 1, 0) >= 1,
        spec_num_neighbours(b, 1, 1) >= 1,
{
    assert(next_wrap((b.height - 1) as nat, b.height) == 0);
    assert(next_wrap((b.width - 1) as nat, b.width) == 0);
    assert(prev_wrap(0, b.height) == (b.height - 1) as nat);
    assert(prev_wrap(0, b.width) == (b.width - 1) as nat);
    assert(prev_wrap(1, b.height) == 0);
    assert(prev_wrap(1, b.width) == 0);
}

/// A board holds the still-life block pattern when exactly the four cells
/// `(1,1)`, `(1,2)`, `(2,1)` and `(2,2)` are alive.
pub open spec fn block_pattern(b: BoardView) -> bool {
    forall|r: nat, c: nat|
        r < b.height && c < b.width ==> (#[trigger] alive_at(b, r, c) == (1 <= r && r <= 2 && 1
            <= c && c <= 2))
}

/// A 2-by-2 block of live cells with every other cell dead, on a board of at
/// least 4-by-4, is unchanged by a generation step: each live cell has
/// exactly three live neighbours, and no dead cell has exactly three.
#[verifier::rlimit(100)]
#[verifier::spinoff_prover]
pub proof fn lemma_block_still_life(pre: BoardView, post: BoardView)
    requires
        pre.width >= 4,
        pre.height >= 4,
        block_pattern(pre),
        is_step_of(pre, post),
    ensures
        forall|r: nat, c: nat|
            r < pre.height && c < pre.width ==> #[trigger] alive_at(post, r, c) == alive_at(
                pre,
                r,
                c,
            ),
{
    assert forall|r: nat, c: nat|
        r < pre.height && c < pre.width implies #[trigger] alive_at(post, r, c) == alive_at(
        pre,
        r,
        c,
    ) by {
        let h = pre.height;
        let w = pre.width;
        let north = prev_wrap(r, h);
        let south = next_wrap(r, h);
        let west = prev_wrap(c, w);
        let east = next_wrap(c, w);
        assert(north < h && south < h && west < w && east < w);
        assert(alive_at(post, r, c) == next_cell(
            alive_at(pre, r, c),
            spec_num_neighbours(pre, r, c),
        ));
    }
}

/// On a board of the given dimensions, a set of in-range coordinates covers
/// the flat index of `(row, col)` exactly when it lists that pair.
proof fn lemma_covers_iff_listed(
    width: nat,
    height: nat,
    coords: Seq<(u32, u32)>,
    row: u32,
    col: u32,
)
    requires
        coords_in_range(width, height, coords),
        row < height,
        col < width,
    ensures
        covers(width, coords, flat_index(width, row as nat, col as nat) as int) <==> listed(
            coords,
            row,
            col,
        ),
{
    let i = flat_index(width, row as nat, col as nat) as int;
    if covers(width, coords, i) {
        let k = choose|k: int|
            0 <= k < coords.len() && flat_index(
                width,
                #[trigger] coords[k].0 as nat,
                coords[k].1 as nat,
            ) == i;
        lemma_flat_index_injective(width);
        assert(coords[k] == (row, col));
        assert(listed(coords, row, col));
    }
    if listed(coords, row, col) {
        let k = choose|k: int| 0 <= k < coords.len() && #[trigger] coords[k] == (row, col);
        assert(flat_index(width, coords[k].0 as nat, coords[k].1 as nat) == i);
        assert(covers(width, coords, i));
    }
}

/// A chain of boards where each is the generation after the one before:
/// the shape of a run of consecutive steps.
pub open spec fn is_step_chain(views: Seq<BoardView>) -> bool {
    forall|i: int| 0 <= i < views.len() - 1 ==> is_step_of(#[trigger] views[i], views[i + 1])
}

/// The dimensions a board is constructed with are unchanged by any number of
/// generation steps.
pub proof fn lemma_dimensions_fixed(views: Seq<BoardView>, i: int)
    requires
        is_step_chain(views),
        0 <= i < views.len(),
    ensures
        views[i].width == views[0].width,
        views[i].height == views[0].height,
    decreases i,
{
    if i > 0 {
        lemma_dimensions_fixed(views, i - 1);
        assert(is_step_of(views[i - 1], views[i]));
    }
}

/// Making the cells of one coordinate list alive and then those of a second,
/// disjoint list leaves the cells of both lists alive and every other cell
/// at its prior state.
pub proof fn lemma_make_alive_additive(
    b0: BoardView,
    b1: BoardView,
    b2: BoardView,
    first: Seq<(u32, u32)>,
    second: Seq<(u32, u32)>,
)
    requires
        b0.consistent(),
        coords_in_range(b0.width, b0.height, first),
        coords_in_range(b0.width, b0.height, second),
        is_make_alive_of(b0, b1, first),
        is_make_alive_of(b1, b2, second),
        forall|k1: int, k2: int|
            0 <= k1 < first.len() && 0 <= k2 < second.len() ==> #[trigger] first[k1]
                != #[trigger] second[k2],
    ensures
        forall|row: u32, col: u32|
            row < b0.height && col < b0.width ==> #[trigger] alive_at(b2, row as nat, col as nat)
                == (alive_at(b0, row as nat, col as nat) || listed(first, row, col) || listed(
                second,
                row,
                col,
            )),
{
    assert forall|row: u32, col: u32|
        row < b0.height && col < b0.width implies #[trigger] alive_at(b2, row as nat, col as nat)
        == (alive_at(b0, row as nat, col as nat) || listed(first, row, col) || listed(
        second,
        row,
        col,
    )) by {
        lemma_flat_index_bound(b0.width, b0.height, row as nat, col as nat);
        lemma_covers_iff_listed(b0.width, b0.height, first, row, col);
        lemma_covers_iff_listed(b0.width, b0.height, second, row, col);
        let i = flat_index(b0.width, row as nat, col as nat) as int;
        assert(b2.cells[i] == (b1.cells[i] || covers(b1.width, second, i)));
        assert(b1.cells[i] == (b0.cells[i] || covers(b0.width, first, i)));
    }
}

} // verus!
