//! The mathematical model of the automaton: the lattice, the toroidal
//! neighborhood, the B3/S23 transition rule, and the encoding of the
//! interleaved row/column delta buffers.

use vstd::prelude::*;

verus! {

/// A grid position, written as (row, column).
pub type Cell = (u32, u32);

/// True when `cell` lies on the `width` x `height` lattice.
pub open spec fn in_bounds(cell: Cell, width: u32, height: u32) -> bool {
    cell.0 < height && cell.1 < width
}

/// The coordinate one step down, wrapping from 0 to `bound - 1`.
pub open spec fn wrap_dec(x: u32, bound: u32) -> u32
    recommends
        1 <= bound,
        x < bound,
{
    if x == 0 {
        (bound - 1) as u32
    } else {
        (x - 1) as u32
    }
}

/// The coordinate one step up, wrapping from `bound - 1` to 0.
pub open spec fn wrap_inc(x: u32, bound: u32) -> u32
    recommends
        1 <= bound,
        x < bound,
{
    if x + 1 == bound {
        0u32
    } else {
        (x + 1) as u32
    }
}

/// 1 if `cell` is live in `s`, else 0.
pub open spec fn occ(s: Set<Cell>, cell: Cell) -> int {
    if s.contains(cell) {
        1
    } else {
        0
    }
}

/// The number of live cells among the eight Moore-neighborhood positions of
/// `cell`, with toroidal wrap. On degenerate grids (width or height below 3)
/// distinct offsets can land on the same position, which then contributes
/// once per offset, exactly as a scan of the eight positions counts it.
pub open spec fn live_neighbors(s: Set<Cell>, cell: Cell, width: u32, height: u32) -> int
    recommends
        1 <= width,
        1 <= height,
        in_bounds(cell, width, height),
{
    let north = wrap_dec(cell.0, height);
    let south = wrap_inc(cell.0, height);
    let west = wrap_dec(cell.1, width);
    let east = wrap_inc(cell.1, width);
    occ(s, (north, west)) + occ(s, (north, cell.1)) + occ(s, (north, east)) + occ(
        s,
        (cell.0, west),
    ) + occ(s, (cell.0, east)) + occ(s, (south, west)) + occ(s, (south, cell.1)) + occ(
        s,
        (south, east),
    )
}

/// The B3/S23 rule for one cell: a live cell survives with two or three live
/// neighbors; a dead cell is born with exactly three.
pub open spec fn lives_next(s: Set<Cell>, cell: Cell, width: u32, height: u32) -> bool {
    let n = live_neighbors(s, cell, width, height);
    if s.contains(cell) {
        n == 2 || n == 3
    } else {
        n == 3
    }
}

/// The next generation of `s`: every lattice cell that the rule keeps or
/// brings alive.
pub open spec fn next_gen(s: Set<Cell>, width: u32, height: u32) -> Set<Cell> {
    Set::new(|cell: Cell| in_bounds(cell, width, height) && lives_next(s, cell, width, height))
}

/// The cells dead in `s` and live in the next generation.
pub open spec fn born(s: Set<Cell>, width: u32, height: u32) -> Set<Cell> {
    next_gen(s, width, height).difference(s)
}

/// The cells live in `s` and dead in the next generation.
pub open spec fn died(s: Set<Cell>, width: u32, height: u32) -> Set<Cell> {
    s.difference(next_gen(s, width, height))
}

/// The effect of flipping one cell's liveness.
pub open spec fn toggled(s: Set<Cell>, cell: Cell) -> Set<Cell> {
    if s.contains(cell) {
        s.remove(cell)
    } else {
        s.insert(cell)
    }
}

/// The cells encoded in an interleaved row/column delta buffer: two
/// consecutive entries form one coordinate pair.
pub open spec fn pairs(buf: Seq<u32>) -> Seq<Cell>
    decreases buf.len(),
{
    if buf.len() < 2 {
        Seq::empty()
    } else {
        pairs(buf.drop_last().drop_last()).push((buf[buf.len() - 2], buf[buf.len() - 1]))
    }
}

/// Appending one coordinate pair to a buffer appends one cell to its decoding.
pub proof fn lemma_pairs_push2(buf: Seq<u32>, row: u32, col: u32)
    ensures
        pairs(buf.push(row).push(col)) == pairs(buf).push((row, col)),
{
    let ext = buf.push(row).push(col);
    assert(ext.drop_last() =~= buf.push(row));
    assert(ext.drop_last().drop_last() =~= buf);
    assert(ext[ext.len() - 2] == row);
    assert(ext[ext.len() - 1] == col);
}

/// An even-length buffer decodes to one cell per two entries.
pub proof fn lemma_pairs_len(buf: Seq<u32>)
    requires
        buf.len() % 2 == 0,
    ensures
        pairs(buf).len() == buf.len() / 2,
    decreases buf.len(),
{
    if buf.len() >= 2 {
        lemma_pairs_len(buf.drop_last().drop_last());
    }
}

/// The k-th decoded cell is the pair at offsets 2k and 2k + 1.
pub proof fn lemma_pairs_index(buf: Seq<u32>, k: int)
    requires
        buf.len() % 2 == 0,
        0 <= k < buf.len() / 2,
    ensures
        pairs(buf)[k] == (buf[2 * k], buf[2 * k + 1]),
    decreases buf.len(),
{
    lemma_pairs_len(buf);
    let pre = buf.drop_last().drop_last();
    if k < buf.len() / 2 - 1 {
        lemma_pairs_index(pre, k);
        lemma_pairs_len(pre);
    }
}

/// Pushing an element absent from a duplicate-free sequence keeps it
/// duplicate-free.
pub proof fn lemma_push_keeps_no_duplicates(s: Seq<Cell>, x: Cell)
    requires
        s.no_duplicates(),
        !s.contains(x),
    ensures
        s.push(x).no_duplicates(),
{
    assert forall|i: int, j: int|
        0 <= i < s.push(x).len() && 0 <= j < s.push(x).len() && i != j implies s.push(x)[i]
        != s.push(x)[j] by {
        if j == s.len() && s[i] == x {
            assert(s.contains(x));
        }
        if i == s.len() && s[j] == x {
            assert(s.contains(x));
        }
    }
}

} // verus!
