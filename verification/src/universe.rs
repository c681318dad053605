//! The simulation engine: a `Universe` owns the grid dimensions, the live
//! cells of the current generation, and the delta buffers of the most recent
//! step or toggles.

use vstd::prelude::*;

verus! {

use crate::rules::Cell;
use crate::rules::{born, died, in_bounds, live_neighbors, next_gen, pairs, toggled, wrap_dec, wrap_inc};
use crate::rules::{
    lemma_pairs_index, lemma_pairs_len, lemma_pairs_push2, lemma_push_keeps_no_duplicates,
};

/// True when a row-major scan standing at `(row, col)` has already visited
/// `cell`.
pub open spec fn scanned(cell: Cell, row: u32, col: u32) -> bool {
    cell.0 < row || (cell.0 == row && cell.1 < col)
}

/// The members of `target` that a row-major scan standing at `(row, col)`
/// has already visited.
pub open spec fn scanned_delta(target: Set<Cell>, row: u32, col: u32) -> Set<Cell> {
    Set::new(|cell: Cell| target.contains(cell) && scanned(cell, row, col))
}

/// Every live cell of a well-formed universe lies on its lattice.
pub proof fn lemma_live_in_bounds(u: Universe)
    requires
        u.wf(),
    ensures
        forall|cell: Cell| #[trigger] u.live_set().contains(cell) ==> in_bounds(cell, u.width, u.height),
{
    assert forall|cell: Cell| #[trigger] u.live_set().contains(cell) implies in_bounds(
        cell,
        u.width,
        u.height,
    ) by {
        let k = choose|k: int| 0 <= k < u.alive_cells@.len() && u.alive_cells@[k] == cell;
        assert(in_bounds(u.alive_cells@[k], u.width, u.height));
    }
}

/// A Game of Life universe on a toroidal `width` x `height` grid.
pub struct Universe {
    /// Number of columns; at least 1.
    pub width: u32,
    /// Number of rows; at least 1.
    pub height: u32,
    /// The live cells of the current generation, without duplicates.
    pub alive_cells: Vec<Cell>,
    /// Interleaved row/column pairs of cells that became live in the most
    /// recent tick, or were toggled live since the deltas were last cleared.
    pub new_alive: Vec<u32>,
    /// Interleaved row/column pairs of cells that died in the most recent
    /// tick, or were toggled dead since the deltas were last cleared.
    pub new_dead: Vec<u32>,
}

impl Universe {
    /// The live cells of the current generation, as a set.
    pub open spec fn live_set(self) -> Set<Cell> {
        self.alive_cells@.to_set()
    }

    /// Well-formedness: positive dimensions, a duplicate-free live list whose
    /// cells all lie on the lattice, and delta buffers of even length.
    pub open spec fn wf(self) -> bool {
        &&& 1 <= self.width
        &&& 1 <= self.height
        &&& self.alive_cells@.no_duplicates()
        &&& forall|i: int|
            0 <= i < self.alive_cells@.len() ==> in_bounds(
                #[trigger] self.alive_cells@[i],
                self.width,
                self.height,
            )
        &&& self.new_alive@.len() % 2 == 0
        &&& self.new_dead@.len() % 2 == 0
    }

    /// Creates an empty grid of the given positive dimensions.
    pub fn new(width: u32, height: u32) -> (u: Universe)
        requires
            1 <= width,
            1 <= height,
        ensures
            u.wf(),
            u.width == width,
            u.height == height,
            u.live_set() == Set::<Cell>::empty(),
            u.new_alive@ == Seq::<u32>::empty(),
            u.new_dead@ == Seq::<u32>::empty(),
    {
        let u = Universe {
            width,
            height,
            alive_cells: Vec::new(),
            new_alive: Vec::new(),
            new_dead: Vec::new(),
        };
        proof {
            assert(u.live_set() =~= Set::<Cell>::empty());
        }
        u
    }

    /// Membership test on the live list.
    fn contains_cell(&self, cell: Cell) -> (r: bool)
        ensures
            r == self.live_set().contains(cell),
    {
        let mut i: usize = 0;
        while i < self.alive_cells.len()
            invariant
                i <= self.alive_cells@.len(),
                forall|j: int| 0 <= j < i ==> self.alive_cells@[j] != cell,
            decreases self.alive_cells@.len() - i,
        {
            let c = self.alive_cells[i];
            if c.0 == cell.0 && c.1 == cell.1 {
                proof {
                    assert(self.alive_cells@[i as int] == cell);
                    assert(self.alive_cells@.contains(cell));
                }
                return true;
            }
            i += 1;
        }
        proof {
            assert(!self.alive_cells@.contains(cell));
        }
        false
    }

    /// Makes `cell` live; a no-op if it already is.
    fn insert_cell(&mut self, cell: Cell)
        requires
            old(self).wf(),
            in_bounds(cell, old(self).width, old(self).height),
        ensures
            final(self).wf(),
            final(self).width == old(self).width,
            final(self).height == old(self).height,
            final(self).new_alive@ == old(self).new_alive@,
            final(self).new_dead@ == old(self).new_dead@,
            final(self).live_set() == old(self).live_set().insert(cell),
    {
        if !self.contains_cell(cell) {
            proof {
                assert forall|i: int| 0 <= i < self.alive_cells@.len() implies self.alive_cells@[i]
                    != cell by {
                    if self.alive_cells@[i] == cell {
                        assert(self.alive_cells@.contains(cell));
                    }
                }
            }
            proof {
                lemma_push_keeps_no_duplicates(self.alive_cells@, cell);
            }
            self.alive_cells.push(cell);
            proof {
                old(self).alive_cells@.lemma_push_to_set_commute(cell);
                assert(self.live_set() =~= old(self).live_set().insert(cell));
            }
        } else {
            proof {
                assert(self.live_set() =~= old(self).live_set().insert(cell));
            }
        }
    }

    /// Makes `cell` dead; a no-op if it already is.
    fn remove_cell(&mut self, cell: Cell)
        requires
            old(self).wf(),
        ensures
            final(self).wf(),
            final(self).width == old(self).width,
            final(self).height == old(self).height,
            final(self).new_alive@ == old(self).new_alive@,
            final(self).new_dead@ == old(self).new_dead@,
            final(self).live_set() == old(self).live_set().remove(cell),
    {
        let ghost s0 = self.alive_cells@;
        let n = self.alive_cells.len();
        let mut i: usize = 0;
        while i < n
            invariant
                old(self).wf(),
                s0 == old(self).alive_cells@,
                n == self.alive_cells@.len(),
                i <= n,
                self.width == old(self).width,
                self.height == old(self).height,
                self.new_alive@ == old(self).new_alive@,
                self.new_dead@ == old(self).new_dead@,
                self.alive_cells@ == s0,
                forall|j: int| 0 <= j < i ==> self.alive_cells@[j] != cell,
            decreases n - i,
        {
            let c = self.alive_cells[i];
            if c.0 == cell.0 && c.1 == cell.1 {
                proof {
                    assert(s0[i as int] == cell);
                }
                self.alive_cells.remove(i);
                proof {
                    let s1 = self.alive_cells@;
                    assert forall|x: Cell| s1.contains(x) implies (s0.contains(x) && x
                        != cell) by {
                        let k = choose|k: int| 0 <= k < s1.len() && s1[k] == x;
                        if k < i {
                            assert(s0[k] == x);
                        } else {
                            assert(s0[k + 1] == x);
                        }
                    }
                    assert forall|x: Cell| s0.contains(x) && x != cell implies s1.contains(x) by {
                        let k = choose|k: int| 0 <= k < s0.len() && s0[k] == x;
                        if k < i {
                            assert(s1[k] == x);
                        } else {
                            assert(k > i);
                            assert(s1[k - 1] == x);
                        }
                    }
                    assert(self.live_set() =~= old(self).live_set().remove(cell));
                    assert forall|p: int, q: int|
                        0 <= p < s1.len() && 0 <= q < s1.len() && p != q implies s1[p]
                        != s1[q] by {
                        let p0: int = if p < i { p } else { p + 1 };
                        let q0: int = if q < i { q } else { q + 1 };
                        assert(s1[p] == s0[p0]);
                        assert(s1[q] == s0[q0]);
                    }
                    assert forall|p: int| 0 <= p < s1.len() implies in_bounds(
                        #[trigger] s1[p],
                        self.width,
                        self.height,
                    ) by {
                        let p0: int = if p < i { p } else { p + 1 };
                        assert(s1[p] == s0[p0]);
                        assert(in_bounds(s0[p0], old(self).width, old(self).height));
                    }
                }
                return ;
            }
            i += 1;
        }
        proof {
            assert(!s0.contains(cell));
            assert(self.live_set() =~= old(self).live_set().remove(cell));
        }
    }

    /// Counts the live cells among the eight neighbors of `cell`, wrapping
    /// around the grid edges (toroidal policy).
    pub fn live_neighbor_count(&self, cell: Cell) -> (count: u8)
        requires
            self.wf(),
            in_bounds(cell, self.width, self.height),
        ensures
            count as int == live_neighbors(self.live_set(), cell, self.width, self.height),
            count <= 8,
    {
        let (row, column) = cell;

        let mut count: u8 = 0;

        let north = if row == 0 {
            self.height - 1
        } else {
            row - 1
        };

        let south = if row == self.height - 1 {
            0
        } else {
            row + 1
        };

        let west = if column == 0 {
            self.width - 1
        } else {
            column - 1
        };

        let east = if column == self.width - 1 {
            0
        } else {
            column + 1
        };

        proof {
            assert(north == wrap_dec(row, self.height));
            assert(south == wrap_inc(row, self.height));
            assert(west == wrap_dec(column, self.width));
            assert(east == wrap_inc(column, self.width));
        }

        if self.contains_cell((north, west)) {
            count += 1;
        }
        if self.contains_cell((north, column)) {
            count += 1;
        }
        if self.contains_cell((north, east)) {
            count += 1;
        }
        if self.contains_cell((row, west)) {
            count += 1;
        }
        if self.contains_cell((row, east)) {
            count += 1;
        }
        if self.contains_cell((south, west)) {
            count += 1;
        }
        if self.contains_cell((south, column)) {
            count += 1;
        }
        if self.contains_cell((south, east)) {
            count += 1;
        }

        count
    }

    /// Advances the automaton by exactly one generation. Every cell of the
    /// grid is classified against the current generation only; the delta
    /// buffers are rebuilt with exactly the cells that change state, and the
    /// recorded births and deaths are then applied to the live set.
    pub fn tick(&mut self)
        requires
            old(self).wf(),
        ensures
            final(self).wf(),
            final(self).width == old(self).width,
            final(self).height == old(self).height,
            final(self).live_set() == next_gen(
                old(self).live_set(),
                old(self).width,
                old(self).height,
            ),
            pairs(final(self).new_alive@).to_set() == born(
                old(self).live_set(),
                old(self).width,
                old(self).height,
            ),
            pairs(final(self).new_dead@).to_set() == died(
                old(self).live_set(),
                old(self).width,
                old(self).height,
            ),
            pairs(final(self).new_alive@).no_duplicates(),
            pairs(final(self).new_dead@).no_duplicates(),
            pairs(final(self).new_alive@).to_set().disjoint(
                pairs(final(self).new_dead@).to_set(),
            ),
    {
        self.new_alive = Vec::new();
        self.new_dead = Vec::new();

        let ghost s0 = self.live_set();
        let ghost w = self.width;
        let ghost h = self.height;
        let width = self.width;
        let height = self.height;

        proof {
            assert(pairs(self.new_alive@).to_set() =~= scanned_delta(born(s0, w, h), 0, 0));
            assert(pairs(self.new_dead@).to_set() =~= scanned_delta(died(s0, w, h), 0, 0));
        }

        let mut row: u32 = 0;
        while row < height
            invariant
                self.wf(),
                row <= height,
                width == w,
                height == h,
                self.width == w,
                self.height == h,
                s0 == self.live_set(),
                self.alive_cells@.no_duplicates(),
                pairs(self.new_alive@).no_duplicates(),
                pairs(self.new_dead@).no_duplicates(),
                pairs(self.new_alive@).to_set() == scanned_delta(born(s0, w, h), row, 0),
                pairs(self.new_dead@).to_set() == scanned_delta(died(s0, w, h), row, 0),
            decreases height - row,
        {
            let mut col: u32 = 0;
            while col < width
                invariant
                    self.wf(),
                    row < height,
                    col <= width,
                    width == w,
                    height == h,
                    self.width == w,
                    self.height == h,
                    s0 == self.live_set(),
                    pairs(self.new_alive@).no_duplicates(),
                    pairs(self.new_dead@).no_duplicates(),
                    pairs(self.new_alive@).to_set() == scanned_delta(born(s0, w, h), row, col),
                    pairs(self.new_dead@).to_set() == scanned_delta(died(s0, w, h), row, col),
                decreases width - col,
            {
                let live_count = self.live_neighbor_count((row, col));
                let alive = self.contains_cell((row, col));
                if alive {
                    if live_count == 2 || live_count == 3 {
                        proof {
                            assert(next_gen(s0, w, h).contains((row, col)));
                            assert(pairs(self.new_alive@).to_set() =~= scanned_delta(
                                born(s0, w, h),
                                row,
                                (col + 1) as u32,
                            ));
                            assert(pairs(self.new_dead@).to_set() =~= scanned_delta(
                                died(s0, w, h),
                                row,
                                (col + 1) as u32,
                            ));
                        }
                    } else {
                        let ghost before = self.new_dead@;
                        self.new_dead.push(row);
                        self.new_dead.push(col);
                        proof {
                            lemma_pairs_push2(before, row, col);
                            assert(!next_gen(s0, w, h).contains((row, col)));
                            assert(died(s0, w, h).contains((row, col)));
                            assert(!pairs(before).to_set().contains((row, col)));
                            lemma_push_keeps_no_duplicates(pairs(before), (row, col));
                            pairs(before).lemma_push_to_set_commute((row, col));
                            assert(pairs(self.new_dead@).to_set() =~= scanned_delta(
                                died(s0, w, h),
                                row,
                                (col + 1) as u32,
                            ));
                            assert(pairs(self.new_alive@).to_set() =~= scanned_delta(
                                born(s0, w, h),
                                row,
                                (col + 1) as u32,
                            ));
                        }
                    }
                } else {
                    if live_count == 3 {
                        let ghost before = self.new_alive@;
                        self.new_alive.push(row);
                        self.new_alive.push(col);
                        proof {
                            lemma_pairs_push2(before, row, col);
                            assert(next_gen(s0, w, h).contains((row, col)));
                            assert(born(s0, w, h).contains((row, col)));
                            assert(!pairs(before).to_set().contains((row, col)));
                            lemma_push_keeps_no_duplicates(pairs(before), (row, col));
                            pairs(before).lemma_push_to_set_commute((row, col));
                            assert(pairs(self.new_alive@).to_set() =~= scanned_delta(
                                born(s0, w, h),
                                row,
                                (col + 1) as u32,
                            ));
                            assert(pairs(self.new_dead@).to_set() =~= scanned_delta(
                                died(s0, w, h),
                                row,
                                (col + 1) as u32,
                            ));
                        }
                    } else {
                        proof {
                            assert(!next_gen(s0, w, h).contains((row, col)));
                            assert(pairs(self.new_alive@).to_set() =~= scanned_delta(
                                born(s0, w, h),
                                row,
                                (col + 1) as u32,
                            ));
                            assert(pairs(self.new_dead@).to_set() =~= scanned_delta(
                                died(s0, w, h),
                                row,
                                (col + 1) as u32,
                            ));
                        }
                    }
                }
                col += 1;
            }
            proof {
                lemma_live_in_bounds(*self);
                assert(pairs(self.new_alive@).to_set() =~= scanned_delta(
                    born(s0, w, h),
                    (row + 1) as u32,
                    0,
                ));
                assert forall|cell: Cell|
                    scanned_delta(died(s0, w, h), row, width).contains(cell)
                        == scanned_delta(died(s0, w, h), (row + 1) as u32, 0).contains(cell) by {
                    if died(s0, w, h).contains(cell) {
                        assert(s0.contains(cell));
                        assert(in_bounds(cell, w, h));
                    }
                }
                assert(pairs(self.new_dead@).to_set() =~= scanned_delta(
                    died(s0, w, h),
                    (row + 1) as u32,
                    0,
                ));
            }
            row += 1;
        }

        proof {
            lemma_live_in_bounds(*self);
            assert(pairs(self.new_alive@).to_set() =~= born(s0, w, h));
            assert forall|cell: Cell|
                scanned_delta(died(s0, w, h), height, 0).contains(cell) == died(
                    s0,
                    w,
                    h,
                ).contains(cell) by {
                if died(s0, w, h).contains(cell) {
                    assert(s0.contains(cell));
                    assert(in_bounds(cell, w, h));
                }
            }
            assert(pairs(self.new_dead@).to_set() =~= died(s0, w, h));
        }

        let ghost na = self.new_alive@;
        let ghost nd = self.new_dead@;
        proof {
            assert(pairs(na).subrange(0, 0) =~= Seq::<Cell>::empty());
            assert(s0.union(pairs(na).subrange(0, 0).to_set()) =~= s0);
        }

        let alen = self.new_alive.len();
        let mut i: usize = 0;
        while i < alen
            invariant
                self.wf(),
                self.width == w,
                self.height == h,
                na.len() % 2 == 0,
                alen == na.len(),
                self.new_alive@ == na,
                self.new_dead@ == nd,
                i <= alen,
                i % 2 == 0,
                pairs(na).to_set() == born(s0, w, h),
                pairs(na).no_duplicates(),
                self.live_set() == s0.union(pairs(na).subrange(0, i as int / 2).to_set()),
            decreases alen - i,
        {
            let r = self.new_alive[i];
            let c = self.new_alive[i + 1];
            proof {
                lemma_pairs_len(na);
                lemma_pairs_index(na, i as int / 2);
                assert(pairs(na)[i as int / 2] == (r, c));
                assert(pairs(na).contains(pairs(na)[i as int / 2]));
                assert(born(s0, w, h).contains((r, c)));
            }
            self.insert_cell((r, c));
            proof {
                let k = i as int / 2;
                assert(pairs(na).subrange(0, k + 1) =~= pairs(na).subrange(0, k).push((r, c)));
                pairs(na).subrange(0, k).lemma_push_to_set_commute((r, c));
                assert(self.live_set() =~= s0.union(
                    pairs(na).subrange(0, (i + 2) as int / 2).to_set(),
                ));
            }
            i += 2;
        }
        proof {
            lemma_pairs_len(na);
            assert(pairs(na).subrange(0, na.len() as int / 2) =~= pairs(na));
            assert(self.live_set() == s0.union(born(s0, w, h)));
            assert(s0.union(born(s0, w, h)).difference(
                pairs(nd).subrange(0, 0).to_set(),
            ) =~= self.live_set());
        }

        let dlen = self.new_dead.len();
        let mut j: usize = 0;
        while j < dlen
            invariant
                self.wf(),
                self.width == w,
                self.height == h,
                nd.len() % 2 == 0,
                dlen == nd.len(),
                self.new_alive@ == na,
                self.new_dead@ == nd,
                j <= dlen,
                j % 2 == 0,
                pairs(nd).to_set() == died(s0, w, h),
                pairs(nd).no_duplicates(),
                self.live_set() == s0.union(born(s0, w, h)).difference(
                    pairs(nd).subrange(0, j as int / 2).to_set(),
                ),
            decreases dlen - j,
        {
            let r = self.new_dead[j];
            let c = self.new_dead[j + 1];
            proof {
                lemma_pairs_len(nd);
                lemma_pairs_index(nd, j as int / 2);
                assert(pairs(nd)[j as int / 2] == (r, c));
            }
            self.remove_cell((r, c));
            proof {
                let k = j as int / 2;
                assert(pairs(nd).subrange(0, k + 1) =~= pairs(nd).subrange(0, k).push((r, c)));
                pairs(nd).subrange(0, k).lemma_push_to_set_commute((r, c));
                assert(self.live_set() =~= s0.union(born(s0, w, h)).difference(
                    pairs(nd).subrange(0, (j + 2) as int / 2).to_set(),
                ));
            }
            j += 2;
        }
        proof {
            lemma_pairs_len(nd);
            assert(pairs(nd).subrange(0, nd.len() as int / 2) =~= pairs(nd));
            crate::laws::lemma_delta_snapshot_consistency(s0, w, h);
            assert(self.live_set() == next_gen(s0, w, h));
            crate::laws::lemma_delta_disjoint(s0, w, h);
        }
    }

    /// Unions the given coordinates into the live set; idempotent for cells
    /// that are already live. The delta buffers are not touched.
    pub fn set_cells(&mut self, cells: &[Cell])
        requires
            old(self).wf(),
            forall|i: int|
                0 <= i < cells@.len() ==> in_bounds(
                    #[trigger] cells@[i],
                    old(self).width,
                    old(self).height,
                ),
        ensures
            final(self).wf(),
            final(self).width == old(self).width,
            final(self).height == old(self).height,
            final(self).new_alive@ == old(self).new_alive@,
            final(self).new_dead@ == old(self).new_dead@,
            final(self).live_set() == old(self).live_set().union(cells@.to_set()),
    {
        proof {
            assert(old(self).live_set().union(cells@.subrange(0, 0).to_set()) =~= old(
                self,
            ).live_set());
        }
        let mut i: usize = 0;
        while i < cells.len()
            invariant
                self.wf(),
                i <= cells@.len(),
                self.width == old(self).width,
                self.height == old(self).height,
                self.new_alive@ == old(self).new_alive@,
                self.new_dead@ == old(self).new_dead@,
                forall|k: int|
                    0 <= k < cells@.len() ==> in_bounds(
                        #[trigger] cells@[k],
                        old(self).width,
                        old(self).height,
                    ),
                self.live_set() == old(self).live_set().union(
                    cells@.subrange(0, i as int).to_set(),
                ),
            decreases cells@.len() - i,
        {
            let (row, col) = cells[i];
            proof {
                assert(cells@[i as int] == (row, col));
            }
            self.insert_cell((row, col));
            proof {
                assert(cells@.subrange(0, i as int + 1) =~= cells@.subrange(0, i as int).push(
                    (row, col),
                ));
                cells@.subrange(0, i as int).lemma_push_to_set_commute((row, col));
                assert(self.live_set() =~= old(self).live_set().union(
                    cells@.subrange(0, i as int + 1).to_set(),
                ));
            }
            i += 1;
        }
        proof {
            assert(cells@.subrange(0, cells@.len() as int) =~= cells@);
        }
    }

    /// Flips one cell's liveness and appends its coordinates to the matching
    /// delta buffer; the buffers are not cleared first, so a caller that
    /// wants the toggle's effect alone must consume them beforehand.
    pub fn toggle_cell(&mut self, row: u32, column: u32)
        requires
            old(self).wf(),
            row < old(self).height,
            column < old(self).width,
        ensures
            final(self).wf(),
            final(self).width == old(self).width,
            final(self).height == old(self).height,
            final(self).live_set() == toggled(old(self).live_set(), (row, column)),
            old(self).live_set().contains((row, column)) ==> final(self).new_dead@ == old(
                self,
            ).new_dead@ + seq![row, column],
            old(self).live_set().contains((row, column)) ==> final(self).new_alive@ == old(
                self,
            ).new_alive@,
            !old(self).live_set().contains((row, column)) ==> final(self).new_alive@ == old(
                self,
            ).new_alive@ + seq![row, column],
            !old(self).live_set().contains((row, column)) ==> final(self).new_dead@ == old(
                self,
            ).new_dead@,
    {
        if self.contains_cell((row, column)) {
            self.remove_cell((row, column));
            self.new_dead.push(row);
            self.new_dead.push(column);
            proof {
                assert(self.new_dead@ =~= old(self).new_dead@ + seq![row, column]);
            }
        } else {
            self.insert_cell((row, column));
            self.new_alive.push(row);
            self.new_alive.push(column);
            proof {
                assert(self.new_alive@ =~= old(self).new_alive@ + seq![row, column]);
            }
        }
    }

    /// Empties the live set without touching the dimensions or the delta
    /// buffers.
    pub fn clear(&mut self)
        requires
            1 <= old(self).width,
            1 <= old(self).height,
            old(self).new_alive@.len() % 2 == 0,
            old(self).new_dead@.len() % 2 == 0,
        ensures
            final(self).wf(),
            final(self).width == old(self).width,
            final(self).height == old(self).height,
            final(self).new_alive@ == old(self).new_alive@,
            final(self).new_dead@ == old(self).new_dead@,
            final(self).live_set() == Set::<Cell>::empty(),
    {
        self.alive_cells.clear();
        proof {
            assert(self.live_set() =~= Set::<Cell>::empty());
        }
    }

    /// Replaces the width and resets the board to empty: resizing never
    /// tries to preserve or reposition existing cells.
    pub fn set_width(&mut self, width: u32)
        requires
            old(self).wf(),
            1 <= width,
        ensures
            final(self).wf(),
            final(self).width == width,
            final(self).height == old(self).height,
            final(self).new_alive@ == old(self).new_alive@,
            final(self).new_dead@ == old(self).new_dead@,
            final(self).live_set() == Set::<Cell>::empty(),
    {
        self.width = width;
        self.clear();
    }

    /// Replaces the height and resets the board to empty: resizing never
    /// tries to preserve or reposition existing cells.
    pub fn set_height(&mut self, height: u32)
        requires
            old(self).wf(),
            1 <= height,
        ensures
            final(self).wf(),
            final(self).width == old(self).width,
            final(self).height == height,
            final(self).new_alive@ == old(self).new_alive@,
            final(self).new_dead@ == old(self).new_dead@,
            final(self).live_set() == Set::<Cell>::empty(),
    {
        self.height = height;
        self.clear();
    }

    /// Read-only view of the live cells of the current generation.
    pub fn get_cells(&self) -> (cells: &Vec<Cell>)
        ensures
            cells@ == self.alive_cells@,
            cells@.to_set() == self.live_set(),
    {
        &self.alive_cells
    }

    /// Read-only view of the newly-alive delta buffer.
    pub fn get_new_alive(&self) -> (buf: &Vec<u32>)
        ensures
            buf@ == self.new_alive@,
    {
        &self.new_alive
    }

    /// Length of the newly-alive delta buffer, in coordinate components.
    pub fn get_new_alive_len(&self) -> (n: usize)
        ensures
            n == self.new_alive@.len(),
    {
        self.new_alive.len()
    }

    /// Read-only view of the newly-dead delta buffer.
    pub fn get_new_dead(&self) -> (buf: &Vec<u32>)
        ensures
            buf@ == self.new_dead@,
    {
        &self.new_dead
    }

    /// Length of the newly-dead delta buffer, in coordinate components.
    pub fn get_new_dead_len(&self) -> (n: usize)
        ensures
            n == self.new_dead@.len(),
    {
        self.new_dead.len()
    }

    /// The number of columns.
    pub fn get_width(&self) -> (w: u32)
        ensures
            w == self.width,
    {
        self.width
    }

    /// The number of rows.
    pub fn get_height(&self) -> (h: u32)
        ensures
            h == self.height,
    {
        self.height
    }
}

} // verus!
