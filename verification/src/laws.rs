//! Laws of the automaton, proved once over the model in `rules`: delta and
//! snapshot consistency, disjointness of the two delta directions, toggle
//! symmetry, and the behavior of the block still-life and the blinker.

use vstd::prelude::*;

verus! {

use crate::rules::{Cell, born, died, in_bounds, lives_next, next_gen, toggled};

/// The rule, stated pointwise for one lattice cell: it is live in the next
/// generation iff it is live with two or three live neighbors, or dead with
/// exactly three.
pub proof fn lemma_rule_correctness(s: Set<Cell>, cell: Cell, width: u32, height: u32)
    requires
        in_bounds(cell, width, height),
    ensures
        next_gen(s, width, height).contains(cell) == lives_next(s, cell, width, height),
{
}

/// Applying a tick's delta to the pre-tick generation reproduces the
/// post-tick generation: inserting every born cell and then removing every
/// died cell turns `s` into `next_gen(s, width, height)`.
pub proof fn lemma_delta_snapshot_consistency(s: Set<Cell>, width: u32, height: u32)
    ensures
        s.union(born(s, width, height)).difference(died(s, width, height)) == next_gen(
            s,
            width,
            height,
        ),
{
    assert(s.union(born(s, width, height)).difference(died(s, width, height)) =~= next_gen(
        s,
        width,
        height,
    ));
}

/// The two delta directions of a single tick never share a cell.
pub proof fn lemma_delta_disjoint(s: Set<Cell>, width: u32, height: u32)
    ensures
        born(s, width, height).disjoint(died(s, width, height)),
{
}

/// The four cells of the two-by-two "block" still-life whose upper-left
/// corner stands at `(row, col)`.
pub open spec fn block(row: u32, col: u32) -> Set<Cell> {
    set![
        (row, col),
        (row, (col + 1) as u32),
        ((row + 1) as u32, col),
        ((row + 1) as u32, (col + 1) as u32),
    ]
}

/// A block placed away from every grid edge is a still-life: one tick leaves
/// the live set unchanged, and both delta directions are empty.
#[verifier::rlimit(80)]
pub proof fn lemma_block_still_life(row: u32, col: u32, width: u32, height: u32)
    requires
        1 <= row,
        row + 2 < height,
        1 <= col,
        col + 2 < width,
    ensures
        next_gen(block(row, col), width, height) == block(row, col),
        born(block(row, col), width, height) == Set::<Cell>::empty(),
        died(block(row, col), width, height) == Set::<Cell>::empty(),
{
    let b = block(row, col);
    assert forall|cell: Cell| next_gen(b, width, height).contains(cell) == b.contains(cell) by {
        if !in_bounds(cell, width, height) {
            assert(!b.contains(cell));
        }
    }
    assert(next_gen(b, width, height) =~= b);
    assert(born(b, width, height) =~= Set::<Cell>::empty());
    assert(died(b, width, height) =~= Set::<Cell>::empty());
}

/// The three cells of a horizontal "blinker" centered at `(row, col)`.
pub open spec fn horizontal_blinker(row: u32, col: u32) -> Set<Cell>
    recommends
        1 <= col,
{
    set![(row, (col - 1) as u32), (row, col), (row, (col + 1) as u32)]
}

/// The three cells of a vertical "blinker" centered at `(row, col)`.
pub open spec fn vertical_blinker(row: u32, col: u32) -> Set<Cell>
    recommends
        1 <= row,
{
    set![((row - 1) as u32, col), (row, col), ((row + 1) as u32, col)]
}

/// A blinker placed away from every grid edge is a period-2 oscillator: one
/// tick turns the horizontal form into the vertical one, and a second tick
/// turns it back.
#[verifier::rlimit(80)]
pub proof fn lemma_blinker_oscillates(row: u32, col: u32, width: u32, height: u32)
    requires
        2 <= row,
        row + 2 < height,
        2 <= col,
        col + 2 < width,
    ensures
        next_gen(horizontal_blinker(row, col), width, height) == vertical_blinker(row, col),
        next_gen(vertical_blinker(row, col), width, height) == horizontal_blinker(row, col),
{
    let hb = horizontal_blinker(row, col);
    let vb = vertical_blinker(row, col);
    assert forall|cell: Cell| next_gen(hb, width, height).contains(cell) == vb.contains(cell) by {
        if !in_bounds(cell, width, height) {
            assert(!vb.contains(cell));
        }
    }
    assert(next_gen(hb, width, height) =~= vb);
    assert forall|cell: Cell| next_gen(vb, width, height).contains(cell) == hb.contains(cell) by {
        if !in_bounds(cell, width, height) {
            assert(!hb.contains(cell));
        }
    }
    assert(next_gen(vb, width, height) =~= hb);
}

/// Toggling the same cell twice restores the original live set.
pub proof fn lemma_toggle_twice(s: Set<Cell>, cell: Cell)
    ensures
        toggled(toggled(s, cell), cell) == s,
{
    assert(toggled(toggled(s, cell), cell) =~= s);
}

} // verus!
