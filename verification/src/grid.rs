//! The album-grid interaction controller: three rows of animated album
//! thumbnails fed from a FIFO queue of off-screen records, drag-and-drop
//! reordering, and the toss-onto-the-queue gesture.
//!
//! Conservation is the controller's central invariant: the records in the
//! queue, the rows, the drag session and the in-flight tosses are together
//! exactly the catalog's indices, each in one place at a time.

use vstd::prelude::*;
use vstd::seq_lib::lemma_multiset_commutative;
use vstd::seq_lib::group_to_multiset_ensures;
use vstd::multiset::group_multiset_axioms;
use crate::anim::{GridItem, ItemState, Curve, item_wf, state_wf};
use crate::catalog::AlbumRecord;
use crate::geom::{abs_int, COORD_LIMIT, POS_LIMIT};
use crate::layout::{target_x, target_x_sub, MAX_ALBUMS, GRID_ROWS, CELL_SUB};
use crate::queue::AlbumQueue;
use crate::drag::DRAG_HALF_SUB;
use vstd::pervasive::VecAdditionalExecFns;

verus! {

/// The items the loader's fill places per reveal: one per grid slot.
pub const FILL_COUNT: usize = 9;

/// Width of the artwork area in subpixels; freshly revealed items start
/// here, just past the right edge, and slide in.
pub const SLIDE_IN_SUB: i64 = 210_000;

/// The single in-progress drag: the item lifted out of its row and the
/// damped position trailing the pointer, in subpixels.
pub struct DragSession {
    pub item: GridItem,
    pub follow_x: i64,
    pub follow_y: i64,
}

/// The records a row holds, in column order.
pub open spec fn row_albums(r: Seq<GridItem>) -> Seq<usize> {
    r.map_values(|it: GridItem| it.album)
}

/// The record held by a drag session, if one is active.
pub open spec fn drag_album(d: Option<DragSession>) -> Seq<usize> {
    match d {
        Some(s) => seq![s.item.album],
        None => Seq::empty(),
    }
}

/// The indices `0 .. n`, the catalog positions that must all be accounted
/// for.
pub open spec fn range_seq(n: nat) -> Seq<usize> {
    Seq::new(n, |i: int| i as usize)
}

pub proof fn lemma_range_no_duplicates(n: nat)
    requires
        n <= usize::MAX,
    ensures
        range_seq(n).no_duplicates(),
{
    assert forall|i: int, j: int|
        0 <= i < n && 0 <= j < n && i != j implies range_seq(n)[i] != range_seq(n)[j] by {
        assert(range_seq(n)[i] == i as usize);
        assert(range_seq(n)[j] == j as usize);
    }
}

pub proof fn lemma_range_count(n: nat, x: usize)
    requires
        n <= usize::MAX,
    ensures
        range_seq(n).to_multiset().count(x) == if (x as nat) < n {
            1nat
        } else {
            0nat
        },
{
    broadcast use group_to_multiset_ensures, group_multiset_axioms;

    lemma_range_no_duplicates(n);
    range_seq(n).lemma_multiset_has_no_duplicates();
    if (x as nat) < n {
        assert(range_seq(n)[x as int] == x);
        assert(range_seq(n).contains(x));
    } else {
        assert(!range_seq(n).contains(x));
    }
}

/// The top-level grid state.
pub struct AlbumGrid {
    /// The arena of album records; everything else refers to them by index.
    pub catalog: Vec<AlbumRecord>,
    /// Records waiting off screen, oldest first.
    pub queue: AlbumQueue,
    /// The three visible rows, top to bottom.
    pub rows: Vec<Vec<GridItem>>,
    /// The in-progress drag, if any.
    pub drag: Option<DragSession>,
    /// Items flying toward the queue target.
    pub tossing: Vec<GridItem>,
}

impl AlbumGrid {
    /// Every place a record can sit, as one sequence of catalog indices.
    pub open spec fn occupancy(self) -> Seq<usize> {
        self.queue@ + row_albums(self.rows@[0]@) + row_albums(self.rows@[1]@) + row_albums(
            self.rows@[2]@,
        ) + drag_album(self.drag) + row_albums(self.tossing@)
    }

    /// Well-formed grid state: three rows, a bounded catalog, every item's
    /// coordinates in range, and — the conservation invariant — the
    /// occupancy being exactly the catalog's indices as a multiset: no
    /// record duplicated, none lost.
    pub open spec fn wf(self) -> bool {
        &&& self.rows@.len() == GRID_ROWS
        &&& self.catalog@.len() <= MAX_ALBUMS
        &&& self.occupancy().to_multiset() == range_seq(self.catalog@.len()).to_multiset()
        &&& forall|r: int, i: int|
            0 <= r < GRID_ROWS && 0 <= i < self.rows@[r]@.len() ==> item_wf(
                #[trigger] self.rows@[r]@[i],
            )
        &&& match self.drag {
            Some(s) => item_wf(s.item) && abs_int(s.follow_x as int) <= COORD_LIMIT && abs_int(
                s.follow_y as int,
            ) <= COORD_LIMIT,
            None => true,
        }
        &&& forall|i: int|
            0 <= i < self.tossing@.len() ==> item_wf(#[trigger] self.tossing@[i])
                && tossing_live(self.tossing@[i])
    }

    /// The occupancy multiset, decomposed chunk by chunk.
    pub proof fn lemma_occupancy_multiset(self)
        ensures
            self.occupancy().to_multiset() == self.queue@.to_multiset().add(
                row_albums(self.rows@[0]@).to_multiset(),
            ).add(row_albums(self.rows@[1]@).to_multiset()).add(
                row_albums(self.rows@[2]@).to_multiset(),
            ).add(drag_album(self.drag).to_multiset()).add(row_albums(self.tossing@).to_multiset()),
    {
        let q = self.queue@;
        let r0 = row_albums(self.rows@[0]@);
        let r1 = row_albums(self.rows@[1]@);
        let r2 = row_albums(self.rows@[2]@);
        let d = drag_album(self.drag);
        let t = row_albums(self.tossing@);
        lemma_multiset_commutative(q, r0);
        lemma_multiset_commutative(q + r0, r1);
        lemma_multiset_commutative(q + r0 + r1, r2);
        lemma_multiset_commutative(q + r0 + r1 + r2, d);
        lemma_multiset_commutative(q + r0 + r1 + r2 + d, t);
    }

    /// Conservation: a well-formed grid accounts for every catalog record
    /// exactly once, so the places' sizes always sum to the catalog size.
    pub proof fn lemma_conservation_total(self)
        requires
            self.wf(),
        ensures
            self.queue@.len() + self.rows@[0]@.len() + self.rows@[1]@.len() + self.rows@[2]@.len()
                + drag_album(self.drag).len() + self.tossing@.len() == self.catalog@.len(),
    {
        broadcast use group_to_multiset_ensures;

        assert(self.occupancy().to_multiset().len() == self.occupancy().len());
        assert(range_seq(self.catalog@.len()).to_multiset().len() == range_seq(
            self.catalog@.len(),
        ).len());
    }

    /// No duplication: in a well-formed grid no record index appears twice
    /// across the queue, the rows, the drag session and the tosses.
    pub proof fn lemma_no_duplication(self)
        requires
            self.wf(),
        ensures
            self.occupancy().no_duplicates(),
    {
        broadcast use group_to_multiset_ensures, group_multiset_axioms;

        let n = self.catalog@.len();
        assert forall|x: usize| self.occupancy().to_multiset().contains(x) implies self.occupancy(
        ).to_multiset().count(x) == 1 by {
            lemma_range_count(n, x);
        }
        self.occupancy().lemma_multiset_has_no_duplicates_conv();
    }

    /// Every occupant of a well-formed grid is a valid catalog index.
    pub proof fn lemma_occupants_in_catalog(self)
        requires
            self.wf(),
        ensures
            forall|i: int|
                0 <= i < self.occupancy().len() ==> (#[trigger] self.occupancy()[i]) < self.catalog@.len(),
    {
        broadcast use group_to_multiset_ensures, group_multiset_axioms;

        let n = self.catalog@.len();
        assert forall|i: int| 0 <= i < self.occupancy().len() implies #[trigger] self.occupancy()[i] < n by {
            let x = self.occupancy()[i];
            assert(self.occupancy().contains(x));
            lemma_range_count(n, x);
        }
    }

    /// An empty grid: no records anywhere.
    pub fn new() -> (g: AlbumGrid)
        ensures
            g.wf(),
            g.catalog@.len() == 0,
            g.queue@.len() == 0,
            g.rows@[0]@.len() == 0 && g.rows@[1]@.len() == 0 && g.rows@[2]@.len() == 0,
            g.drag is None,
            g.tossing@.len() == 0,
    {
        let mut rows: Vec<Vec<GridItem>> = Vec::new();
        rows.push(Vec::new());
        rows.push(Vec::new());
        rows.push(Vec::new());
        let g = AlbumGrid {
            catalog: Vec::new(),
            queue: AlbumQueue::new(),
            rows,
            drag: None,
            tossing: Vec::new(),
        };
        proof {
            assert(g.occupancy() =~= Seq::<usize>::empty());
            assert(range_seq(0) =~= Seq::<usize>::empty());
            assert(g.occupancy().to_multiset() =~= range_seq(0).to_multiset());
        }
        g
    }

    /// Moves the oldest queued record into a fresh item at the end of row
    /// `r`, if the queue holds one.
    fn pull_into_row(&mut self, r: usize, x_pos: i64, state: ItemState) -> (moved: bool)
        requires
            old(self).wf(),
            r < GRID_ROWS,
            abs_int(x_pos as int) <= POS_LIMIT,
            state_wf(state),
        ensures
            final(self).wf(),
            moved == (old(self).queue@.len() > 0),
            final(self).catalog@ == old(self).catalog@,
            final(self).drag == old(self).drag,
            final(self).tossing@ == old(self).tossing@,
            final(self).occupancy().to_multiset() == old(self).occupancy().to_multiset(),
            moved ==> final(self).queue@ == old(self).queue@.drop_first()
                && final(self).rows@[r as int]@ == old(self).rows@[r as int]@.push(
                (GridItem { album: old(self).queue@[0], x_pos, x_vel: 0, state }),
            ),
            forall|rr: int|
                0 <= rr < GRID_ROWS && rr != r ==> final(self).rows@[rr]@
                    == old(self).rows@[rr]@,
            !moved ==> final(self).queue@ == old(self).queue@ && final(self).rows@[r as int]@
                == old(self).rows@[r as int]@,
    {
        let dequeued = self.queue.dequeue();
        match dequeued {
            Some(album) => {
                let item = GridItem { album, x_pos, x_vel: 0, state };
                self.rows[r].push(item);
                proof {
                    let og = *old(self);
                    let ng = *self;
                    broadcast use group_to_multiset_ensures, group_multiset_axioms;

                    og.lemma_occupancy_multiset();
                    ng.lemma_occupancy_multiset();
                    let q = og.queue@;
                    let x = q[0];
                    assert(q.drop_first() =~= q.remove(0));
                    assert(q.remove(0).to_multiset() == q.to_multiset().remove(x));
                    assert(row_albums(ng.rows@[r as int]@) =~= row_albums(
                        og.rows@[r as int]@,
                    ).push(x));
                    assert(q.to_multiset().count(x) >= 1);
                    assert(ng.occupancy().to_multiset() =~= og.occupancy().to_multiset());
                }
                true
            },
            None => false,
        }
    }

    /// Appends a batch of records to the catalog and enqueues them in a
    /// shuffled order; the visible rows are untouched.
    pub fn load_records(&mut self, records: Vec<AlbumRecord>)
        requires
            old(self).wf(),
            old(self).catalog@.len() + records@.len() <= MAX_ALBUMS,
        ensures
            final(self).wf(),
            final(self).catalog@ == old(self).catalog@ + records@,
            final(self).drag == old(self).drag,
            final(self).tossing@ == old(self).tossing@,
            forall|rr: int|
                0 <= rr < GRID_ROWS ==> final(self).rows@[rr]@ == old(self).rows@[rr]@,
            exists|sh: Seq<usize>|
                sh.to_multiset() == fresh_range(
                    old(self).catalog@.len() as int,
                    records@.len(),
                ).to_multiset() && final(self).queue@ == old(self).queue@ + sh,
    {
        let ghost og = *old(self);
        let ghost n0 = self.catalog@.len();
        let ghost count = records@.len();
        let mut records = records;
        let mut fresh: Vec<usize> = Vec::new();
        proof {
            assert(fresh@ =~= fresh_range(n0 as int, 0));
        }
        let ghost recs = records@;
        let mut taken: usize = 0;
        while records.len() > 0
            invariant
                taken <= count,
                count <= MAX_ALBUMS,
                records@ == recs.subrange(taken as int, count as int),
                recs.len() == count,
                self.catalog@ == og.catalog@ + recs.subrange(0, taken as int),
                self.catalog@.len() == n0 + taken,
                fresh@ == fresh_range(n0 as int, taken as nat),
                self.queue@ == og.queue@,
                self.rows@ == og.rows@,
                self.drag == og.drag,
                self.tossing@ == og.tossing@,
            decreases records@.len(),
        {
            let rec = records.remove(0);
            self.catalog.push(rec);
            fresh.push(self.catalog.len() - 1);
            proof {
                assert(recs.subrange(0, taken as int + 1) =~= recs.subrange(
                    0,
                    taken as int,
                ).push(recs[taken as int]));
                assert(records@ =~= recs.subrange(taken as int + 1, count as int));
                assert(fresh@ =~= fresh_range(n0 as int, (taken + 1) as nat));
            }
            taken = taken + 1;
        }
        proof {
            assert(recs.subrange(0, count as int) =~= recs);
        }
        crate::catalog::shuffle_indices(&mut fresh);
        let ghost sh = fresh@;
        let mut qi: usize = 0;
        while qi < fresh.len()
            invariant
                qi <= sh.len(),
                fresh@ == sh,
                self.queue@ == og.queue@ + sh.subrange(0, qi as int),
                self.catalog@ == og.catalog@ + recs,
                self.rows@ == og.rows@,
                self.drag == og.drag,
                self.tossing@ == og.tossing@,
            decreases sh.len() - qi,
        {
            let idx = fresh[qi];
            self.queue.enqueue(idx);
            proof {
                assert(og.queue@ + sh.subrange(0, qi as int + 1) =~= (og.queue@ + sh.subrange(
                    0,
                    qi as int,
                )).push(sh[qi as int]));
            }
            qi = qi + 1;
        }
        proof {
            assert(sh.subrange(0, sh.len() as int) =~= sh);
            let ng = *self;
            broadcast use group_to_multiset_ensures, group_multiset_axioms;

            og.lemma_occupancy_multiset();
            ng.lemma_occupancy_multiset();
            lemma_multiset_commutative(og.queue@, sh);
            assert(ng.occupancy().to_multiset() =~= og.occupancy().to_multiset().add(
                sh.to_multiset(),
            ));
            assert(range_seq(ng.catalog@.len()) =~= range_seq(og.catalog@.len()) + fresh_range(
                n0 as int,
                count,
            ));
            lemma_multiset_commutative(range_seq(og.catalog@.len()), fresh_range(n0 as int, count));
            assert(sh.to_multiset() == fresh_range(n0 as int, count).to_multiset());
            assert(ng.occupancy().to_multiset() == range_seq(ng.catalog@.len()).to_multiset());
        }
    }
    /// Drains the queue into the grid, one record per slot, filling the
    /// slots column by column: the `i`-th record pulled lands in row
    /// `i % 3` at column `i / 3`. With `slide_in` the new items start one
    /// artwork-width right of their target and are frozen in a stagger, as
    /// a reshuffle reveals them; otherwise they appear settled in place.
    pub fn fill_grid(&mut self, slide_in: bool)
        requires
            old(self).wf(),
        ensures
            final(self).wf(),
            final(self).catalog@ == old(self).catalog@,
            final(self).drag == old(self).drag,
            final(self).tossing@ == old(self).tossing@,
            final(self).occupancy().to_multiset() == old(self).occupancy().to_multiset(),
            final(self).queue@ == old(self).queue@.subrange(
                min_int(FILL_COUNT as int, old(self).queue@.len() as int),
                old(self).queue@.len() as int,
            ),
            forall|r: int|
                0 <= r < GRID_ROWS ==> final(self).rows@[r]@ == old(self).rows@[r]@ + filled_row(
                    old(self).queue@,
                    min_int(FILL_COUNT as int, old(self).queue@.len() as int),
                    r,
                    slide_in,
                ),
    {
        let ghost og = *old(self);
        let ghost q0 = og.queue@;
        let ghost qlen = q0.len() as int;
        let mut i: usize = 0;
        proof {
            assert forall|r: int| 0 <= r < GRID_ROWS implies og.rows@[r]@ + filled_row(
                q0,
                0,
                r,
                slide_in,
            ) =~= og.rows@[r]@ by {
                assert(filled_row(q0, 0, r, slide_in) =~= Seq::<GridItem>::empty());
            }
            assert(q0.subrange(0, qlen) =~= q0);
        }
        loop
            invariant
                i <= FILL_COUNT,
                i <= qlen,
                qlen == q0.len(),
                og.rows@.len() == GRID_ROWS,
                self.wf(),
                self.catalog@ == og.catalog@,
                self.drag == og.drag,
                self.tossing@ == og.tossing@,
                self.occupancy().to_multiset() == og.occupancy().to_multiset(),
                self.queue@ == q0.subrange(i as int, qlen),
                forall|r: int|
                    0 <= r < GRID_ROWS ==> self.rows@[r]@ == og.rows@[r]@ + filled_row(
                        q0,
                        i as int,
                        r,
                        slide_in,
                    ),
            ensures
                i as int == min_int(FILL_COUNT as int, qlen),
                self.wf(),
                self.catalog@ == og.catalog@,
                self.drag == og.drag,
                self.tossing@ == og.tossing@,
                self.occupancy().to_multiset() == og.occupancy().to_multiset(),
                self.queue@ == q0.subrange(i as int, qlen),
                forall|r: int|
                    0 <= r < GRID_ROWS ==> self.rows@[r]@ == og.rows@[r]@ + filled_row(
                        q0,
                        i as int,
                        r,
                        slide_in,
                    ),
            decreases FILL_COUNT - i,
        {
            if i >= FILL_COUNT {
                break ;
            }
            let row: usize = i % 3;
            let col: usize = i / 3;
            let x: i64 = target_x(col, None) + if slide_in {
                SLIDE_IN_SUB
            } else {
                0
            };
            let st: ItemState = if slide_in {
                ItemState::Freeze { remaining: (row * 3 + col) as u32 }
            } else {
                ItemState::Default
            };
            let ghost pre = *self;
            let moved = self.pull_into_row(row, x, st);
            if !moved {
                break ;
            }
            proof {
                assert(pre.queue@[0] == q0[i as int]);
                assert(self.queue@ =~= q0.subrange(i + 1, qlen));
                let item = GridItem { album: q0[i as int], x_pos: x, x_vel: 0, state: st };
                assert(item == fill_item(q0, i as int, slide_in, row as int));
                assert forall|r: int| 0 <= r < GRID_ROWS implies self.rows@[r]@ == og.rows@[r]@
                    + filled_row(q0, i + 1, r, slide_in) by {
                    lemma_filled_step(q0, i as int, r, slide_in);
                    if r == row {
                        assert(self.rows@[r]@ =~= og.rows@[r]@ + filled_row(
                            q0,
                            i + 1,
                            r,
                            slide_in,
                        ));
                    }
                }
            }
            i = i + 1;
        }
    }

    /// Returns every item of row `r` to the back of the queue, in column
    /// order.
    fn return_row(&mut self, r: usize)
        requires
            old(self).wf(),
            r < GRID_ROWS,
        ensures
            final(self).wf(),
            final(self).catalog@ == old(self).catalog@,
            final(self).drag == old(self).drag,
            final(self).tossing@ == old(self).tossing@,
            final(self).occupancy().to_multiset() == old(self).occupancy().to_multiset(),
            final(self).queue@ == old(self).queue@ + row_albums(old(self).rows@[r as int]@),
            final(self).rows@[r as int]@.len() == 0,
            forall|rr: int|
                0 <= rr < GRID_ROWS && rr != r ==> final(self).rows@[rr]@
                    == old(self).rows@[rr]@,
    {
        let ghost og = *old(self);
        let ghost row0 = og.rows@[r as int]@;
        let mut k: usize = 0;
        let row_len = self.rows[r].len();
        proof {
            assert(row0.len() == row_len);
            assert(og.queue@ + row_albums(row0).subrange(0, 0) =~= og.queue@);
            assert(row0.subrange(0, row0.len() as int) =~= row0);
        }
        loop
            invariant
                k <= row0.len(),
                row0.len() <= usize::MAX,
                og.rows@.len() == GRID_ROWS,
                self.wf(),
                self.catalog@ == og.catalog@,
                self.drag == og.drag,
                self.tossing@ == og.tossing@,
                self.occupancy().to_multiset() == og.occupancy().to_multiset(),
                self.queue@ == og.queue@ + row_albums(row0).subrange(0, k as int),
                self.rows@[r as int]@ == row0.subrange(k as int, row0.len() as int),
                forall|rr: int|
                    0 <= rr < GRID_ROWS && rr != r ==> self.rows@[rr]@ == og.rows@[rr]@,
                r < GRID_ROWS,
            ensures
                k == row0.len(),
                self.wf(),
                self.catalog@ == og.catalog@,
                self.drag == og.drag,
                self.tossing@ == og.tossing@,
                self.occupancy().to_multiset() == og.occupancy().to_multiset(),
                self.queue@ == og.queue@ + row_albums(row0).subrange(0, k as int),
                self.rows@[r as int]@.len() == 0,
                forall|rr: int|
                    0 <= rr < GRID_ROWS && rr != r ==> self.rows@[rr]@ == og.rows@[rr]@,
            decreases row0.len() - k,
        {
            let len = self.rows[r].len();
            if len == 0 {
                proof {
                    assert(k == row0.len());
                }
                break ;
            }
            let ghost pre = *self;
            let it = self.rows[r].remove(0);
            self.queue.enqueue(it.album);
            proof {
                broadcast use group_to_multiset_ensures, group_multiset_axioms;

                let x = row0[k as int].album;
                assert(it == row0[k as int]);
                pre.lemma_occupancy_multiset();
                let ng = *self;
                ng.lemma_occupancy_multiset();
                assert(row_albums(pre.rows@[r as int]@.remove(0)) =~= row_albums(
                    pre.rows@[r as int]@,
                ).remove(0));
                assert(row_albums(pre.rows@[r as int]@).remove(0).to_multiset() == row_albums(
                    pre.rows@[r as int]@,
                ).to_multiset().remove(x));
                assert(row_albums(pre.rows@[r as int]@).to_multiset().count(x) >= 1);
                assert(ng.occupancy().to_multiset() =~= pre.occupancy().to_multiset());
                assert(self.queue@ =~= og.queue@ + row_albums(row0).subrange(0, k + 1));
                assert(self.rows@[r as int]@ =~= row0.subrange(k + 1, row0.len() as int));
            }
            k = k + 1;
        }
    }

    /// Sweeps every visible row back into the queue and deals the grid out
    /// again from the queue's front, revealing the new items in a stagger.
    pub fn reshuffle(&mut self)
        requires
            old(self).wf(),
        ensures
            final(self).wf(),
            final(self).catalog@ == old(self).catalog@,
            final(self).drag == old(self).drag,
            final(self).tossing@ == old(self).tossing@,
            final(self).occupancy().to_multiset() == old(self).occupancy().to_multiset(),
            final(self).queue@ == reshuffle_pool(*old(self)).subrange(
                min_int(FILL_COUNT as int, reshuffle_pool(*old(self)).len() as int),
                reshuffle_pool(*old(self)).len() as int,
            ),
            forall|r: int|
                0 <= r < GRID_ROWS ==> final(self).rows@[r]@ == filled_row(
                    reshuffle_pool(*old(self)),
                    min_int(FILL_COUNT as int, reshuffle_pool(*old(self)).len() as int),
                    r,
                    true,
                ),
    {
        self.return_row(0);
        self.return_row(1);
        self.return_row(2);
        let ghost mid = *self;
        self.fill_grid(true);
        proof {
            assert(mid.queue@ == reshuffle_pool(*old(self)));
            assert forall|r: int| 0 <= r < GRID_ROWS implies final(self).rows@[r]@ == filled_row(
                reshuffle_pool(*old(self)),
                min_int(FILL_COUNT as int, reshuffle_pool(*old(self)).len() as int),
                r,
                true,
            ) by {
                assert(mid.rows@[r]@.len() == 0);
                assert(mid.rows@[r]@ + filled_row(
                    mid.queue@,
                    min_int(FILL_COUNT as int, mid.queue@.len() as int),
                    r,
                    true,
                ) =~= filled_row(
                    mid.queue@,
                    min_int(FILL_COUNT as int, mid.queue@.len() as int),
                    r,
                    true,
                ));
            }
        }
    }
}

/// The catalog indices `first .. first + k`: what a loader batch of `k`
/// records occupies.
pub open spec fn fresh_range(first: int, k: nat) -> Seq<usize> {
    Seq::new(k, |i: int| (first + i) as usize)
}

pub open spec fn min_int(a: int, b: int) -> int {
    if a <= b {
        a
    } else {
        b
    }
}

/// How many of the first `moved` dealt records land in row `r` under the
/// column-by-column deal.
pub open spec fn filled_count(moved: int, r: int) -> int {
    (moved - r + 2) / 3
}

/// The item the deal places in row `r` from the `i`-th queued record.
pub open spec fn fill_item(q: Seq<usize>, i: int, slide_in: bool, r: int) -> GridItem {
    GridItem {
        album: q[i],
        x_pos: (target_x_sub(i / 3, None) + if slide_in {
            SLIDE_IN_SUB as int
        } else {
            0int
        }) as i64,
        x_vel: 0,
        state: if slide_in {
            ItemState::Freeze { remaining: (r * 3 + i / 3) as u32 }
        } else {
            ItemState::Default
        },
    }
}

/// The items the deal appends to row `r` after `moved` records are dealt.
pub open spec fn filled_row(q: Seq<usize>, moved: int, r: int, slide_in: bool) -> Seq<GridItem> {
    Seq::new(filled_count(moved, r) as nat, |k: int| fill_item(q, 3 * k + r, slide_in, r))
}

/// One more dealt record extends exactly the row it lands in.
proof fn lemma_filled_step(q: Seq<usize>, i: int, r: int, slide_in: bool)
    requires
        0 <= i,
        0 <= r < 3,
    ensures
        i % 3 == r ==> filled_count(i + 1, r) == filled_count(i, r) + 1 && filled_count(i, r) == i
            / 3 && filled_row(q, i + 1, r, slide_in) == filled_row(q, i, r, slide_in).push(
            fill_item(q, i, slide_in, r),
        ),
        i % 3 != r ==> filled_row(q, i + 1, r, slide_in) == filled_row(q, i, r, slide_in),
{
    if i % 3 == r {
        assert(filled_count(i + 1, r) == filled_count(i, r) + 1);
        assert(filled_count(i, r) == i / 3);
        assert(3 * (i / 3) + r == i);
        assert(filled_row(q, i + 1, r, slide_in) =~= filled_row(q, i, r, slide_in).push(
            fill_item(q, i, slide_in, r),
        ));
    } else {
        assert(filled_count(i + 1, r) == filled_count(i, r));
        assert(filled_row(q, i + 1, r, slide_in) =~= filled_row(q, i, r, slide_in));
    }
}

/// Everything a reshuffle sweeps into the queue before redealing: the old
/// queue followed by the rows' records, top row first.
pub open spec fn reshuffle_pool(g: AlbumGrid) -> Seq<usize> {
    g.queue@ + row_albums(g.rows@[0]@) + row_albums(g.rows@[1]@) + row_albums(g.rows@[2]@)
}

/// What a pointer release did with the dragged item.
#[derive(Clone, Copy, Debug, PartialEq, Eq, Structural)]
pub enum DropOutcome {
    /// No drag was in progress.
    NoDrag,
    /// The item was tossed toward the queue target.
    Tossed,
    /// The item was inserted into the grid at (row, column).
    Inserted { row: usize, col: usize },
    /// The release hit no valid target; the record went back to the queue.
    Cancelled,
}

/// The placeholder column an in-progress drag opens in row `r` while the
/// pointer hovers at `(mx, my)`.
pub open spec fn placeholder_for_row(g: AlbumGrid, mx: int, my: int, r: int) -> Option<int> {
    if g.drag is Some {
        match crate::layout::hovered_cell_spec(mx, my) {
            Some((pr, pc)) => if pr == r {
                Some(pc)
            } else {
                None
            },
            None => None,
        }
    } else {
        None
    }
}

pub proof fn lemma_filter_push<A>(s: Seq<A>, x: A, p: spec_fn(A) -> bool)
    ensures
        (s.push(x)).filter(p) == if p(x) {
            s.filter(p).push(x)
        } else {
            s.filter(p)
        },
{
    reveal(Seq::filter);
    assert(s.push(x).drop_last() =~= s);
    assert(s.push(x).last() == x);
    assert(s.push(x).drop_last().filter(p) == s.filter(p));
}

impl AlbumGrid {
    /// Picks up the item under a press at `(x, y)` subpixels: only a press
    /// on a settled item of a populated cell inside the artwork area, with
    /// no drag already active, lifts an item. The vacated slot is refilled
    /// at once from the queue with an item that slides in from the right.
    pub fn begin_drag(&mut self, x: i64, y: i64) -> (picked: bool)
        requires
            old(self).wf(),
        ensures
            final(self).wf(),
            final(self).catalog@ == old(self).catalog@,
            final(self).tossing@ == old(self).tossing@,
            final(self).occupancy().to_multiset() == old(self).occupancy().to_multiset(),
            picked == pickup_happens(*old(self), x as int, y as int),
            !picked ==> *final(self) == *old(self),
            picked ==> {
                let row = (y as int) / (CELL_SUB as int);
                let col = (x as int) / (CELL_SUB as int);
                let it = old(self).rows@[row]@[col];
                let lifted = GridItem { state: ItemState::Dragged, ..it };
                let vacated = old(self).rows@[row]@.remove(col);
                &&& final(self).drag == Some(
                    DragSession {
                        item: lifted,
                        follow_x: crate::geom::clamp_coord_spec(it.x_pos + 10_000) as i64,
                        follow_y: (row * CELL_SUB + 10_000) as i64,
                    },
                )
                &&& (old(self).queue@.len() > 0 ==> final(self).rows@[row]@ == vacated.push(
                    (GridItem {
                        album: old(self).queue@[0],
                        x_pos: SLIDE_IN_SUB,
                        x_vel: 0,
                        state: ItemState::Default,
                    }),
                ) && final(self).queue@ == old(self).queue@.drop_first())
                &&& (old(self).queue@.len() == 0 ==> final(self).rows@[row]@ == vacated
                    && final(self).queue@ == old(self).queue@)
                &&& forall|rr: int|
                    0 <= rr < GRID_ROWS && rr != row ==> final(self).rows@[rr]@
                        == old(self).rows@[rr]@
            },
    {
        if self.drag.is_some() {
            return false;
        }
        if !(x >= 0 && x < SLIDE_IN_SUB && y >= 0 && y < SLIDE_IN_SUB) {
            return false;
        }
        let row: usize = ((y as u64) / (CELL_SUB as u64)) as usize;
        let col: usize = ((x as u64) / (CELL_SUB as u64)) as usize;
        if self.rows[row].len() == 0 || col >= self.rows[row].len() {
            return false;
        }
        let settled = match &self.rows[row][col].state {
            ItemState::Default => true,
            _ => false,
        };
        if !settled {
            return false;
        }
        let ghost og = *old(self);
        let it = self.rows[row].remove(col);
        let lifted = GridItem { album: it.album, x_pos: it.x_pos, x_vel: it.x_vel, state: ItemState::Dragged };
        let follow_x = crate::geom::clamp_coord(it.x_pos + 10_000);
        let follow_y = (row as i64) * CELL_SUB + 10_000;
        self.drag = Some(DragSession { item: lifted, follow_x, follow_y });
        proof {
            broadcast use group_to_multiset_ensures, group_multiset_axioms;

            let mid = *self;
            og.lemma_occupancy_multiset();
            mid.lemma_occupancy_multiset();
            assert(row_albums(og.rows@[row as int]@.remove(col as int)) =~= row_albums(
                og.rows@[row as int]@,
            ).remove(col as int));
            assert(row_albums(og.rows@[row as int]@).remove(col as int).to_multiset()
                == row_albums(og.rows@[row as int]@).to_multiset().remove(it.album));
            assert(row_albums(og.rows@[row as int]@).to_multiset().count(it.album) >= 1);
            assert(mid.occupancy().to_multiset() =~= og.occupancy().to_multiset());
            assert forall|rr: int, i: int|
                0 <= rr < GRID_ROWS && 0 <= i < mid.rows@[rr]@.len() implies item_wf(
                #[trigger] mid.rows@[rr]@[i],
            ) by {
                if rr == row {
                    assert(mid.rows@[rr]@[i] == og.rows@[rr]@.remove(col as int)[i]);
                }
            }
        }
        let _ = self.pull_into_row(row, SLIDE_IN_SUB, ItemState::Default);
        true
    }

    /// One damped follow tick: the dragged item trails the pointer, which
    /// it covers centre-on-centre.
    pub fn drag_follow(&mut self, mx: i64, my: i64)
        requires
            old(self).wf(),
            abs_int(mx as int) <= 0x7fff_ffff_ffff,
            abs_int(my as int) <= 0x7fff_ffff_ffff,
        ensures
            final(self).wf(),
            final(self).catalog@ == old(self).catalog@,
            final(self).queue@ == old(self).queue@,
            final(self).rows@ == old(self).rows@,
            final(self).tossing@ == old(self).tossing@,
            match old(self).drag {
                Some(s) => final(self).drag == Some(
                    DragSession {
                        follow_x: crate::drag::damp_step_spec(
                            s.follow_x as int,
                            crate::geom::clamp_coord_spec(mx - DRAG_HALF_SUB),
                        ) as i64,
                        follow_y: crate::drag::damp_step_spec(
                            s.follow_y as int,
                            crate::geom::clamp_coord_spec(my - DRAG_HALF_SUB),
                        ) as i64,
                        ..s
                    },
                ),
                None => final(self).drag is None,
            },
    {
        let tx = crate::geom::clamp_coord(mx - DRAG_HALF_SUB);
        let ty = crate::geom::clamp_coord(my - DRAG_HALF_SUB);
        let taken = self.drag.take();
        match taken {
            Some(s) => {
                let fx = crate::drag::damp_step(s.follow_x, tx);
                let fy = crate::drag::damp_step(s.follow_y, ty);
                self.drag = Some(DragSession { item: s.item, follow_x: fx, follow_y: fy });
                proof {
                    assert(self.occupancy() =~= old(self).occupancy());
                }
            },
            None => {},
        }
    }
}

impl AlbumGrid {
    /// Drops the dragged item: onto the queue target it starts its toss
    /// animation (and a nearby third-row item is frozen so the grid holds
    /// still); onto a valid grid cell it is inserted there, its target
    /// taken up at once; anywhere else the drop is a cancel and the record
    /// returns to the queue.
    pub fn end_drag(&mut self, mx: i64, my: i64, over_queue: bool) -> (outcome: DropOutcome)
        requires
            old(self).wf(),
            abs_int(mx as int) <= 0x7fff_ffff_ffff,
            abs_int(my as int) <= 0x7fff_ffff_ffff,
        ensures
            final(self).wf(),
            final(self).catalog@ == old(self).catalog@,
            final(self).occupancy().to_multiset() == old(self).occupancy().to_multiset(),
            final(self).drag is None,
            old(self).drag is None ==> outcome == DropOutcome::NoDrag && *final(self) == *old(
                self,
            ),
            old(self).drag matches Some(s) ==> {
                let item = s.item;
                if over_queue {
                    &&& outcome == DropOutcome::Tossed
                    &&& final(self).tossing@ == old(self).tossing@.push(
                        tossed_item(item, s.follow_x as int, s.follow_y as int),
                    )
                    &&& final(self).queue@ == old(self).queue@
                    &&& final(self).rows@[0]@ == old(self).rows@[0]@
                    &&& final(self).rows@[1]@ == old(self).rows@[1]@
                    &&& (old(self).rows@[2]@.len() > 2 ==> final(self).rows@[2]@ == old(
                        self,
                    ).rows@[2]@.update(
                        2,
                        (GridItem {
                            state: ItemState::Freeze { remaining: 25 },
                            ..old(self).rows@[2]@[2]
                        }),
                    ))
                    &&& (old(self).rows@[2]@.len() <= 2 ==> final(self).rows@[2]@ == old(
                        self,
                    ).rows@[2]@)
                } else {
                    match drop_cell(*old(self), mx as int, my as int) {
                        Some((r, c)) => {
                            &&& outcome == (DropOutcome::Inserted {
                                row: r as usize,
                                col: c as usize,
                            })
                            &&& final(self).rows@[r]@ == old(self).rows@[r]@.insert(
                                c,
                                (GridItem {
                                    x_pos: target_x_sub(c, None) as i64,
                                    state: ItemState::Default,
                                    ..item
                                }),
                            )
                            &&& forall|rr: int|
                                0 <= rr < GRID_ROWS && rr != r ==> final(self).rows@[rr]@
                                    == old(self).rows@[rr]@
                            &&& final(self).queue@ == old(self).queue@
                            &&& final(self).tossing@ == old(self).tossing@
                        },
                        None => {
                            &&& outcome == DropOutcome::Cancelled
                            &&& final(self).queue@ == old(self).queue@.push(item.album)
                            &&& forall|rr: int|
                                0 <= rr < GRID_ROWS ==> final(self).rows@[rr]@
                                    == old(self).rows@[rr]@
                            &&& final(self).tossing@ == old(self).tossing@
                        },
                    }
                }
            },
    {
        let taken = self.drag.take();
        match taken {
            None => DropOutcome::NoDrag,
            Some(s) => {
                let ghost og = *old(self);
                if over_queue {
                    let sx = crate::geom::clamp_coord(s.follow_x + DRAG_HALF_SUB);
                    let sy = crate::geom::clamp_coord(s.follow_y + DRAG_HALF_SUB);
                    let y_curve = crate::drag::solve_arc(sy);
                    let tossed = GridItem {
                        album: s.item.album,
                        x_pos: s.item.x_pos,
                        x_vel: s.item.x_vel,
                        state: ItemState::Anim {
                            duration: crate::drag::TOSS_DURATION,
                            elapsed: 0,
                            x_curve: Curve::Linear {
                                from: sx,
                                to: crate::drag::QUEUE_TARGET_X_SUB,
                            },
                            y_curve,
                            scale_curve: Curve::Linear {
                                from: crate::drag::TOSS_START_SCALE,
                                to: 0,
                            },
                        },
                    };
                    self.tossing.push(tossed);
                    if self.rows[2].len() > 2 {
                        let frozen = GridItem {
                            album: self.rows[2][2].album,
                            x_pos: self.rows[2][2].x_pos,
                            x_vel: self.rows[2][2].x_vel,
                            state: ItemState::Freeze { remaining: 25 },
                        };
                        self.rows[2].set(2, frozen);
                    }
                    proof {
                        broadcast use group_to_multiset_ensures, group_multiset_axioms;

                        og.lemma_occupancy_multiset();
                        self.lemma_occupancy_multiset();
                        assert(row_albums(self.rows@[2]@) =~= row_albums(og.rows@[2]@));
                        assert(row_albums(self.tossing@) =~= row_albums(og.tossing@).push(
                            s.item.album,
                        ));
                        assert(drag_album(og.drag) =~= Seq::<usize>::empty().push(s.item.album));
                        assert(self.occupancy().to_multiset() =~= og.occupancy().to_multiset());
                    }
                    DropOutcome::Tossed
                } else {
                    let cell = crate::layout::hovered_cell(mx, my);
                    let target_cell: Option<(usize, usize)> = match cell {
                        Some((r, c)) => {
                            if r < GRID_ROWS && c < crate::layout::GRID_COLS && c
                                <= self.rows[r].len() {
                                Some((r, c))
                            } else {
                                None
                            }
                        },
                        None => None,
                    };
                    match target_cell {
                        Some((r, c)) => {
                            let placed = GridItem {
                                album: s.item.album,
                                x_pos: target_x(c, None),
                                x_vel: s.item.x_vel,
                                state: ItemState::Default,
                            };
                            self.rows[r].insert(c, placed);
                            proof {
                                broadcast use group_to_multiset_ensures, group_multiset_axioms;

                                og.lemma_occupancy_multiset();
                                self.lemma_occupancy_multiset();
                                assert(drag_album(og.drag) =~= Seq::<usize>::empty().push(
                                    s.item.album,
                                ));
                                assert(row_albums(og.rows@[r as int]@.insert(c as int, placed))
                                    =~= row_albums(og.rows@[r as int]@).insert(
                                    c as int,
                                    s.item.album,
                                ));
                                assert(row_albums(og.rows@[r as int]@).insert(
                                    c as int,
                                    s.item.album,
                                ).to_multiset() == row_albums(og.rows@[r as int]@).to_multiset()
                                    .insert(s.item.album));
                                assert(self.occupancy().to_multiset() =~= og.occupancy(
                                ).to_multiset());
                                assert forall|rr: int, i: int|
                                    0 <= rr < GRID_ROWS && 0 <= i < self.rows@[rr]@.len() implies item_wf(
                                    #[trigger] self.rows@[rr]@[i],
                                ) by {
                                    if rr == r {
                                        assert(self.rows@[rr]@ == og.rows@[rr]@.insert(
                                            c as int,
                                            placed,
                                        ));
                                    }
                                }
                            }
                            DropOutcome::Inserted { row: r, col: c }
                        },
                        None => {
                            self.queue.enqueue(s.item.album);
                            proof {
                                broadcast use group_to_multiset_ensures, group_multiset_axioms;

                                og.lemma_occupancy_multiset();
                                self.lemma_occupancy_multiset();
                                assert(drag_album(og.drag) =~= Seq::<usize>::empty().push(
                                    s.item.album,
                                ));
                                assert(self.occupancy().to_multiset() =~= og.occupancy(
                                ).to_multiset());
                            }
                            DropOutcome::Cancelled
                        },
                    }
                }
            },
        }
    }
}

/// The item a toss sends flying: a fixed-length animation from the centre
/// of the dragged thumbnail along a straight horizontal path and the
/// solved vertical arc, shrinking linearly to nothing.
pub open spec fn tossed_item(item: GridItem, follow_x: int, follow_y: int) -> GridItem {
    GridItem {
        state: ItemState::Anim {
            duration: crate::drag::TOSS_DURATION,
            elapsed: 0,
            x_curve: Curve::Linear {
                from: crate::geom::clamp_coord_spec(follow_x + DRAG_HALF_SUB) as i64,
                to: crate::drag::QUEUE_TARGET_X_SUB,
            },
            y_curve: crate::drag::solve_arc_spec(
                crate::geom::clamp_coord_spec(follow_y + DRAG_HALF_SUB),
            ),
            scale_curve: Curve::Linear { from: crate::drag::TOSS_START_SCALE, to: 0 },
        },
        ..item
    }
}

/// The grid cell a release at `(mx, my)` drops into, when that is a valid
/// target: a visible cell whose column is within reach of the row's items.
pub open spec fn drop_cell(g: AlbumGrid, mx: int, my: int) -> Option<(int, int)> {
    match crate::layout::hovered_cell_spec(mx, my) {
        Some((r, c)) => {
            if r < GRID_ROWS && c < crate::layout::GRID_COLS && c <= g.rows@[r]@.len() {
                Some((r, c))
            } else {
                None
            }
        },
        None => None,
    }
}

impl AlbumGrid {
    /// One animation tick for every row item: each eases toward the target
    /// of its column, shifted where the drag placeholder under the pointer
    /// opens a gap in its row.
    pub fn step_rows(&mut self, mx: i64, my: i64)
        requires
            old(self).wf(),
            abs_int(mx as int) <= 0x7fff_ffff_ffff,
            abs_int(my as int) <= 0x7fff_ffff_ffff,
        ensures
            final(self).wf(),
            final(self).catalog@ == old(self).catalog@,
            final(self).queue@ == old(self).queue@,
            final(self).drag == old(self).drag,
            final(self).tossing@ == old(self).tossing@,
            final(self).occupancy().to_multiset() == old(self).occupancy().to_multiset(),
            forall|r: int|
                0 <= r < GRID_ROWS ==> (#[trigger] final(self).rows@[r]@).len() == old(
                    self,
                ).rows@[r]@.len(),
            forall|r: int, i: int|
                0 <= r < GRID_ROWS && 0 <= i < old(self).rows@[r]@.len()
                    ==> #[trigger] final(self).rows@[r]@[i] == crate::anim::update_item_spec(
                    old(self).rows@[r]@[i],
                    target_x_sub(i, placeholder_for_row(*old(self), mx as int, my as int, r)),
                ),
    {
        let ghost og = *old(self);
        let cell: Option<(usize, usize)> = if self.drag.is_some() {
            crate::layout::hovered_cell(mx, my)
        } else {
            None
        };
        proof {
            og.lemma_conservation_total();
        }
        let mut r: usize = 0;
        while r < GRID_ROWS
            invariant
                r <= GRID_ROWS,
                og.wf(),
                self.rows@.len() == GRID_ROWS,
                self.catalog@ == og.catalog@,
                self.queue@ == og.queue@,
                self.drag == og.drag,
                self.tossing@ == og.tossing@,
                og.drag is None ==> cell is None,
                og.drag is Some ==> (match crate::layout::hovered_cell_spec(
                    mx as int,
                    my as int,
                ) {
                    Some(rc) => cell == Some(((rc.0 as usize), (rc.1 as usize))) && rc.0 >= 0
                        && rc.1 >= 0,
                    None => cell is None,
                }),
                abs_int(mx as int) <= 0x7fff_ffff_ffff,
                abs_int(my as int) <= 0x7fff_ffff_ffff,
                forall|rr: int|
                    0 <= rr < GRID_ROWS ==> (#[trigger] self.rows@[rr]@).len()
                        == og.rows@[rr]@.len(),
                forall|rr: int, i: int|
                    r <= rr < GRID_ROWS && 0 <= i < og.rows@[rr]@.len()
                        ==> #[trigger] self.rows@[rr]@[i] == og.rows@[rr]@[i],
                forall|rr: int, i: int|
                    0 <= rr < r && 0 <= i < og.rows@[rr]@.len()
                        ==> #[trigger] self.rows@[rr]@[i] == crate::anim::update_item_spec(
                        og.rows@[rr]@[i],
                        target_x_sub(i, placeholder_for_row(og, mx as int, my as int, rr)),
                    ),
            decreases GRID_ROWS - r,
        {
            let ph: Option<usize> = match cell {
                Some((pr, pc)) => if pr == r {
                    Some(pc)
                } else {
                    None
                },
                None => None,
            };
            proof {
                assert(opt_col_view(ph) == placeholder_for_row(og, mx as int, my as int, r as int));
            }
            proof {
                og.lemma_conservation_total();
            }
            let len = self.rows[r].len();
            let mut i: usize = 0;
            while i < len
                invariant
                    r < GRID_ROWS,
                    i <= len,
                    og.wf(),
                    self.rows@.len() == GRID_ROWS,
                    len == og.rows@[r as int]@.len(),
                    len <= MAX_ALBUMS,
                    self.catalog@ == og.catalog@,
                    self.queue@ == og.queue@,
                    self.drag == og.drag,
                    self.tossing@ == og.tossing@,
                    opt_col_view(ph) == placeholder_for_row(og, mx as int, my as int, r as int),
                    forall|rr: int|
                        0 <= rr < GRID_ROWS ==> (#[trigger] self.rows@[rr]@).len()
                            == og.rows@[rr]@.len(),
                    forall|rr: int, j: int|
                        r < rr < GRID_ROWS && 0 <= j < og.rows@[rr]@.len()
                            ==> #[trigger] self.rows@[rr]@[j] == og.rows@[rr]@[j],
                    forall|j: int|
                        i <= j < len ==> #[trigger] self.rows@[r as int]@[j]
                            == og.rows@[r as int]@[j],
                    forall|j: int|
                        0 <= j < i ==> #[trigger] self.rows@[r as int]@[j]
                            == crate::anim::update_item_spec(
                            og.rows@[r as int]@[j],
                            target_x_sub(
                                j,
                                placeholder_for_row(og, mx as int, my as int, r as int),
                            ),
                        ),
                    forall|rr: int, j: int|
                        0 <= rr < r && 0 <= j < og.rows@[rr]@.len()
                            ==> #[trigger] self.rows@[rr]@[j] == crate::anim::update_item_spec(
                            og.rows@[rr]@[j],
                            target_x_sub(j, placeholder_for_row(og, mx as int, my as int, rr)),
                        ),
                decreases len - i,
            {
                let t = target_x(i, ph);
                proof {
                    assert(item_wf(self.rows@[r as int]@[i as int]));
                }
                crate::anim::update_item(&mut self.rows[r][i], t);
                i = i + 1;
            }
            r = r + 1;
        }
        proof {
            broadcast use group_to_multiset_ensures, group_multiset_axioms;

            og.lemma_conservation_total();
            assert forall|rr: int, i: int|
                0 <= rr < GRID_ROWS && 0 <= i < self.rows@[rr]@.len() implies item_wf(
                #[trigger] self.rows@[rr]@[i],
            ) && self.rows@[rr]@[i].album == og.rows@[rr]@[i].album by {
                let ph = placeholder_for_row(og, mx as int, my as int, rr);
                let t = target_x_sub(i, ph);
                assert(crate::layout::shifted_col(i, ph) <= i + 1);
                assert(abs_int(t) <= COORD_LIMIT) by (nonlinear_arith)
                    requires
                        t == crate::layout::shifted_col(i, ph) * crate::layout::CELL_PX
                            * crate::geom::SUBPIX,
                        0 <= crate::layout::shifted_col(i, ph) <= MAX_ALBUMS + 1,
                ;
                crate::anim::lemma_update_item_wf(og.rows@[rr]@[i], t);
            }
            og.lemma_occupancy_multiset();
            self.lemma_occupancy_multiset();
            assert(row_albums(self.rows@[0]@) =~= row_albums(og.rows@[0]@));
            assert(row_albums(self.rows@[1]@) =~= row_albums(og.rows@[1]@));
            assert(row_albums(self.rows@[2]@) =~= row_albums(og.rows@[2]@));
            assert(self.occupancy().to_multiset() =~= og.occupancy().to_multiset());
        }
    }

    /// One tick for every in-flight toss. A toss that has played its full
    /// duration is finished: its item leaves flight and its record returns
    /// to the back of the queue, and its album index is reported so the
    /// caller can ask the external player to queue the album.
    #[verifier::loop_isolation(false)]
    pub fn step_toss(&mut self) -> (done: Vec<usize>)
        requires
            old(self).wf(),
        ensures
            final(self).wf(),
            final(self).catalog@ == old(self).catalog@,
            final(self).drag == old(self).drag,
            final(self).occupancy().to_multiset() == old(self).occupancy().to_multiset(),
            forall|r: int|
                0 <= r < GRID_ROWS ==> #[trigger] final(self).rows@[r]@ == old(self).rows@[r]@,
            final(self).tossing@ == stepped_toss(old(self).tossing@).filter(
                |it: GridItem| !crate::anim::anim_finished(it.state),
            ),
            done@ == stepped_toss(old(self).tossing@).filter(
                |it: GridItem| crate::anim::anim_finished(it.state),
            ).map_values(|it: GridItem| it.album),
            final(self).queue@ == old(self).queue@ + done@,
    {
        let ghost og = *old(self);
        let ghost t0 = og.tossing@;
        let ghost keep = |it: GridItem| !crate::anim::anim_finished(it.state);
        let ghost fin = |it: GridItem| crate::anim::anim_finished(it.state);
        let mut done: Vec<usize> = Vec::new();
        let mut pos: usize = 0;
        let ghost mut j: int = 0;
        proof {
            og.lemma_conservation_total();
            assert(t0.subrange(0, 0) =~= Seq::<GridItem>::empty());
            reveal(Seq::filter);
            assert(stepped_toss(t0.subrange(0, 0)).filter(keep) =~= Seq::<GridItem>::empty());
            assert(stepped_toss(t0.subrange(0, 0)).filter(fin) =~= Seq::<GridItem>::empty());
            assert(self.tossing@ =~= stepped_toss(t0.subrange(0, 0)).filter(keep) + t0.subrange(
                0,
                t0.len() as int,
            ));
            assert(done@ =~= stepped_toss(t0.subrange(0, 0)).filter(fin).map_values(
                |it: GridItem| it.album,
            ));
        }
        while pos < self.tossing.len()
            invariant
                0 <= j <= t0.len(),
                t0.len() <= MAX_ALBUMS,
                og.wf(),
                self.wf(),
                pos == stepped_toss(t0.subrange(0, j)).filter(keep).len(),
                self.tossing@ == stepped_toss(t0.subrange(0, j)).filter(keep) + t0.subrange(
                    j,
                    t0.len() as int,
                ),
                done@ == stepped_toss(t0.subrange(0, j)).filter(fin).map_values(
                    |it: GridItem| it.album,
                ),
                self.queue@ == og.queue@ + done@,
                self.catalog@ == og.catalog@,
                self.drag == og.drag,
                self.occupancy().to_multiset() == og.occupancy().to_multiset(),
                forall|r: int|
                    0 <= r < GRID_ROWS ==> #[trigger] self.rows@[r]@ == og.rows@[r]@,
            decreases t0.len() - j,
        {
            proof {
                assert(stepped_toss(t0.subrange(0, j)).filter(keep).len() <= stepped_toss(
                    t0.subrange(0, j),
                ).len()) by {
                    t0.subrange(0, j).map_values(
                        |it: GridItem| crate::anim::update_item_spec(it, 0),
                    ).lemma_filter_len(keep);
                }
                assert(j < t0.len());
                assert(self.tossing@[pos as int] == t0[j]);
            }
            let ghost pre = *self;
            crate::anim::update_item(&mut self.tossing[pos], 0);
            let finished = match &self.tossing[pos].state {
                ItemState::Anim { duration, elapsed, .. } => *elapsed >= *duration,
                _ => true,
            };
            let ghost stepped = crate::anim::update_item_spec(t0[j], 0);
            proof {
                assert(self.tossing@ =~= pre.tossing@.update(pos as int, stepped));
                assert(t0.subrange(0, j + 1) =~= t0.subrange(0, j).push(t0[j]));
                assert(stepped_toss(t0.subrange(0, j + 1)) =~= stepped_toss(
                    t0.subrange(0, j),
                ).push(stepped));
                lemma_filter_push(stepped_toss(t0.subrange(0, j)), stepped, keep);
                lemma_filter_push(stepped_toss(t0.subrange(0, j)), stepped, fin);
                assert(finished == crate::anim::anim_finished(stepped.state));
            }
            if finished {
                let it = self.tossing.remove(pos);
                self.queue.enqueue(it.album);
                done.push(it.album);
                proof {
                    broadcast use group_to_multiset_ensures, group_multiset_axioms;

                    let prefix = stepped_toss(t0.subrange(0, j)).filter(keep);
                    assert(!keep(stepped));
                    assert(stepped_toss(t0.subrange(0, j + 1)).filter(keep) == prefix);
                    assert(self.tossing@ =~= prefix + t0.subrange(j + 1, t0.len() as int));
                    assert(self.tossing@ =~= stepped_toss(t0.subrange(0, j + 1)).filter(keep)
                        + t0.subrange(j + 1, t0.len() as int));
                    let dpre = stepped_toss(t0.subrange(0, j)).filter(fin);
                    assert(stepped_toss(t0.subrange(0, j + 1)).filter(fin) == dpre.push(stepped));
                    assert(dpre.push(stepped).map_values(|x: GridItem| x.album)
                        =~= dpre.map_values(|x: GridItem| x.album).push(stepped.album));
                    assert(it.album == stepped.album);
                    assert(done@ =~= stepped_toss(t0.subrange(0, j + 1)).filter(fin).map_values(
                        |x: GridItem| x.album,
                    ));
                    pre.lemma_occupancy_multiset();
                    self.lemma_occupancy_multiset();
                    assert(row_albums(pre.tossing@.update(pos as int, stepped)) =~= row_albums(
                        pre.tossing@,
                    ).update(pos as int, stepped.album));
                    assert(row_albums(pre.tossing@).update(pos as int, stepped.album)
                        =~= row_albums(pre.tossing@));
                    assert(row_albums(pre.tossing@.update(pos as int, stepped).remove(pos as int))
                        =~= row_albums(pre.tossing@.update(pos as int, stepped)).remove(
                        pos as int,
                    ));
                    assert(row_albums(pre.tossing@).remove(pos as int).to_multiset() == row_albums(
                        pre.tossing@,
                    ).to_multiset().remove(row_albums(pre.tossing@)[pos as int]));
                    assert(row_albums(pre.tossing@)[pos as int] == it.album);
                    assert(row_albums(pre.tossing@).to_multiset().count(it.album) >= 1);
                    assert(self.occupancy().to_multiset() =~= pre.occupancy().to_multiset());
                    j = j + 1;
                }
            } else {
                proof {
                    broadcast use group_to_multiset_ensures, group_multiset_axioms;

                    let prefix = stepped_toss(t0.subrange(0, j)).filter(keep);
                    assert(keep(stepped));
                    assert(stepped_toss(t0.subrange(0, j + 1)).filter(keep) == prefix.push(
                        stepped,
                    ));
                    assert(self.tossing@ =~= prefix.push(stepped) + t0.subrange(
                        j + 1,
                        t0.len() as int,
                    ));
                    assert(self.tossing@ =~= stepped_toss(t0.subrange(0, j + 1)).filter(keep)
                        + t0.subrange(j + 1, t0.len() as int));
                    assert(stepped_toss(t0.subrange(0, j + 1)).filter(fin) == stepped_toss(
                        t0.subrange(0, j),
                    ).filter(fin));
                    assert(done@ =~= stepped_toss(t0.subrange(0, j + 1)).filter(fin).map_values(
                        |x: GridItem| x.album,
                    ));
                    pre.lemma_occupancy_multiset();
                    self.lemma_occupancy_multiset();
                    assert(row_albums(self.tossing@) =~= row_albums(pre.tossing@));
                    assert(self.occupancy().to_multiset() =~= pre.occupancy().to_multiset());
                    j = j + 1;
                }
                pos = pos + 1;
            }
        }
        proof {
            assert(t0.subrange(0, t0.len() as int) =~= t0);
            assert(t0.subrange(t0.len() as int, t0.len() as int) =~= Seq::<GridItem>::empty());
            assert(self.tossing@ =~= stepped_toss(t0).filter(keep));
        }
        done
    }

    /// Recycles one row's trailing item: an item settled at or past the
    /// right boundary of a row holding more than a full row of items is
    /// popped and its record returns to the queue.
    fn recycle_row(&mut self, r: usize)
        requires
            old(self).wf(),
            r < GRID_ROWS,
        ensures
            final(self).wf(),
            final(self).catalog@ == old(self).catalog@,
            final(self).drag == old(self).drag,
            final(self).tossing@ == old(self).tossing@,
            final(self).occupancy().to_multiset() == old(self).occupancy().to_multiset(),
            forall|rr: int|
                0 <= rr < GRID_ROWS && rr != r ==> #[trigger] final(self).rows@[rr]@ == old(
                    self,
                ).rows@[rr]@,
            recycle_cond(old(self).rows@[r as int]@) ==> final(self).rows@[r as int]@ == old(
                self,
            ).rows@[r as int]@.drop_last() && final(self).queue@ == old(self).queue@.push(
                old(self).rows@[r as int]@.last().album,
            ),
            !recycle_cond(old(self).rows@[r as int]@) ==> final(self).rows@[r as int]@ == old(
                self,
            ).rows@[r as int]@ && final(self).queue@ == old(self).queue@,
    {
        let ghost og = *old(self);
        let len = self.rows[r].len();
        if len <= crate::layout::GRID_COLS {
            return ;
        }
        let last_settled = match &self.rows[r][len - 1].state {
            ItemState::Default => self.rows[r][len - 1].x_vel == 0 && self.rows[r][len - 1].x_pos
                >= SLIDE_IN_SUB,
            _ => false,
        };
        if !last_settled {
            return ;
        }
        let popped = self.rows[r].pop();
        match popped {
            Some(it) => {
                self.queue.enqueue(it.album);
                proof {
                    broadcast use group_to_multiset_ensures, group_multiset_axioms;

                    og.lemma_occupancy_multiset();
                    self.lemma_occupancy_multiset();
                    let row = og.rows@[r as int]@;
                    assert(it == row.last());
                    assert(row.drop_last() =~= row.remove(row.len() - 1));
                    assert(row_albums(row.remove(row.len() - 1)) =~= row_albums(row).remove(
                        row.len() - 1,
                    ));
                    assert(row_albums(row).remove(row.len() - 1).to_multiset() == row_albums(
                        row,
                    ).to_multiset().remove(row_albums(row)[row.len() - 1]));
                    assert(row_albums(row)[row.len() - 1] == it.album);
                    assert(row_albums(row).to_multiset().count(it.album) >= 1);
                    assert(self.occupancy().to_multiset() =~= og.occupancy().to_multiset());
                    assert forall|rr: int, i: int|
                        0 <= rr < GRID_ROWS && 0 <= i < self.rows@[rr]@.len() implies item_wf(
                        #[trigger] self.rows@[rr]@[i],
                    ) by {
                        if rr == r {
                            assert(self.rows@[rr]@[i] == og.rows@[rr]@[i]);
                        }
                    }
                }
            },
            None => {
                proof {
                    assert(false);
                }
            },
        }
    }

    /// Recycles each row's trailing item where one has settled fully past
    /// the right boundary, returning those records to the queue, top row
    /// first.
    pub fn recycle(&mut self)
        requires
            old(self).wf(),
        ensures
            final(self).wf(),
            final(self).catalog@ == old(self).catalog@,
            final(self).drag == old(self).drag,
            final(self).tossing@ == old(self).tossing@,
            final(self).occupancy().to_multiset() == old(self).occupancy().to_multiset(),
            forall|r: int|
                0 <= r < GRID_ROWS ==> #[trigger] final(self).rows@[r]@ == (
                if recycle_cond(old(self).rows@[r]@) {
                    old(self).rows@[r]@.drop_last()
                } else {
                    old(self).rows@[r]@
                }),
            final(self).queue@ == old(self).queue@ + recycled(old(self).rows@[0]@) + recycled(
                old(self).rows@[1]@,
            ) + recycled(old(self).rows@[2]@),
    {
        let ghost og = *old(self);
        self.recycle_row(0);
        self.recycle_row(1);
        self.recycle_row(2);
        proof {
            assert(self.queue@ =~= og.queue@ + recycled(og.rows@[0]@) + recycled(og.rows@[1]@)
                + recycled(og.rows@[2]@));
        }
    }
}

/// An in-flight toss still has ticks to play; finished ones leave the
/// flight list within the tick that finishes them.
pub open spec fn tossing_live(it: GridItem) -> bool {
    it.state matches ItemState::Anim { duration, elapsed, .. } && elapsed < duration
}

/// Every in-flight toss after one tick.
pub open spec fn stepped_toss(t: Seq<GridItem>) -> Seq<GridItem> {
    t.map_values(|it: GridItem| crate::anim::update_item_spec(it, 0))
}

/// A row's trailing item is recycled when the row holds more than a full
/// row of items and that item has settled at or past the right boundary.
pub open spec fn recycle_cond(row: Seq<GridItem>) -> bool {
    &&& row.len() > crate::layout::GRID_COLS
    &&& row.last().state is Default
    &&& row.last().x_vel == 0
    &&& row.last().x_pos >= SLIDE_IN_SUB
}

/// The record a row's recycle returns to the queue, if any.
pub open spec fn recycled(row: Seq<GridItem>) -> Seq<usize> {
    if recycle_cond(row) {
        seq![row.last().album]
    } else {
        Seq::empty()
    }
}

/// The view a placeholder column takes in layout specifications.
pub open spec fn opt_col_view(p: Option<usize>) -> Option<int> {
    match p {
        Some(c) => Some(c as int),
        None => None,
    }
}

/// A press at `(x, y)` lifts an item exactly when no drag is active, the
/// press is inside the artwork area, and the cell under it holds a settled
/// item.
pub open spec fn pickup_happens(g: AlbumGrid, x: int, y: int) -> bool {
    let row = y / (CELL_SUB as int);
    let col = x / (CELL_SUB as int);
    &&& g.drag is None
    &&& 0 <= x < SLIDE_IN_SUB
    &&& 0 <= y < SLIDE_IN_SUB
    &&& g.rows@[row]@.len() > 0
    &&& col < g.rows@[row]@.len()
    &&& g.rows@[row]@[col].state is Default
}

/// A rectangle ready for the renderer: which album's artwork to draw and
/// where, in whole pixels.
#[derive(Clone, Copy, Debug, PartialEq, Eq, Structural)]
pub struct RenderRect {
    pub album: usize,
    pub x_px: i64,
    pub y_px: i64,
    pub size_px: i64,
}

/// Height of the whole window in subpixels: the artwork area plus the info
/// strip below it.
pub const WINDOW_H_SUB: i64 = 250_000;

/// Pixels grown on each side when a settled thumbnail is hovered.
pub const HOVER_GROW_PX: i64 = 10;

/// The item the hover-enlarge effect draws over, if any: with no drag in
/// progress and the window focused, a settled, nearly still item right
/// under the pointer.
pub open spec fn hover_target(g: AlbumGrid, mx: int, my: int, focus: bool) -> Option<(int, int)> {
    let row = my / (CELL_SUB as int);
    let col = mx / (CELL_SUB as int);
    if g.drag is None && focus && 0 <= mx < SLIDE_IN_SUB && 0 <= my < WINDOW_H_SUB && row
        < GRID_ROWS && col < g.rows@[row]@.len() && g.rows@[row]@[col].state is Default && abs_int(
        g.rows@[row]@[col].x_vel as int,
    ) < 100 {
        Some((row, col))
    } else {
        None
    }
}

impl AlbumGrid {
    /// The render rectangles of one row's items, in column order: each a
    /// full-size thumbnail at its animated x position on the row's line.
    pub fn render_row(&self, r: usize) -> (out: Vec<RenderRect>)
        requires
            self.wf(),
            r < GRID_ROWS,
        ensures
            out@.len() == self.rows@[r as int]@.len(),
            forall|i: int|
                0 <= i < out@.len() ==> #[trigger] out@[i] == (RenderRect {
                    album: self.rows@[r as int]@[i].album,
                    x_px: crate::geom::div_trunc(self.rows@[r as int]@[i].x_pos as int, 1000) as i64,
                    y_px: (r * crate::layout::CELL_PX) as i64,
                    size_px: crate::layout::CELL_PX,
                }),
    {
        let mut out: Vec<RenderRect> = Vec::new();
        let len = self.rows[r].len();
        let mut i: usize = 0;
        while i < len
            invariant
                i <= len,
                r < GRID_ROWS,
                self.wf(),
                len == self.rows@[r as int]@.len(),
                out@.len() == i,
                forall|k: int|
                    0 <= k < i ==> #[trigger] out@[k] == (RenderRect {
                        album: self.rows@[r as int]@[k].album,
                        x_px: crate::geom::div_trunc(
                            self.rows@[r as int]@[k].x_pos as int,
                            1000,
                        ) as i64,
                        y_px: (r * crate::layout::CELL_PX) as i64,
                        size_px: crate::layout::CELL_PX,
                    }),
            decreases len - i,
        {
            let it = &self.rows[r][i];
            proof {
                assert(item_wf(self.rows@[r as int]@[i as int]));
            }
            out.push(RenderRect {
                album: it.album,
                x_px: crate::geom::div_trunc64(it.x_pos, 1000),
                y_px: (r as i64) * crate::layout::CELL_PX,
                size_px: crate::layout::CELL_PX,
            });
            i = i + 1;
        }
        out
    }

    /// The render rectangle of the dragged thumbnail, drawn at its damped
    /// follow position in the reduced drag size.
    pub fn render_drag(&self) -> (out: Option<RenderRect>)
        requires
            self.wf(),
        ensures
            match self.drag {
                Some(s) => out == Some(
                    (RenderRect {
                        album: s.item.album,
                        x_px: crate::geom::div_trunc(s.follow_x as int, 1000) as i64,
                        y_px: crate::geom::div_trunc(s.follow_y as int, 1000) as i64,
                        size_px: crate::drag::DRAG_SIZE_PX,
                    }),
                ),
                None => out is None,
            },
    {
        match &self.drag {
            Some(s) => Some(
                RenderRect {
                    album: s.item.album,
                    x_px: crate::geom::div_trunc64(s.follow_x, 1000),
                    y_px: crate::geom::div_trunc64(s.follow_y, 1000),
                    size_px: crate::drag::DRAG_SIZE_PX,
                },
            ),
            None => None,
        }
    }

    /// The render rectangles of the in-flight tosses: each item's curves
    /// evaluated at its progress give its centre and its scale in
    /// thousandths of the thumbnail size.
    pub fn render_toss(&self) -> (out: Vec<RenderRect>)
        requires
            self.wf(),
        ensures
            out@.len() == self.tossing@.len(),
            forall|i: int|
                0 <= i < out@.len() ==> #[trigger] out@[i] == toss_rect(self.tossing@[i]),
    {
        let mut out: Vec<RenderRect> = Vec::new();
        let len = self.tossing.len();
        let mut i: usize = 0;
        while i < len
            invariant
                i <= len,
                self.wf(),
                len == self.tossing@.len(),
                out@.len() == i,
                forall|k: int| 0 <= k < i ==> #[trigger] out@[k] == toss_rect(self.tossing@[k]),
            decreases len - i,
        {
            let it = &self.tossing[i];
            proof {
                assert(item_wf(self.tossing@[i as int]));
                assert(tossing_live(self.tossing@[i as int]));
            }
            let pos_scale = crate::anim::anim_pos_and_scale(it);
            match pos_scale {
                Some(((cx, cy), sc)) => {
                    proof {
                        assert(abs_int(crate::layout::CELL_PX as int * sc as int) <= 70
                            * 9_000_000_000_000) by (nonlinear_arith)
                            requires
                                abs_int(sc as int) <= 9_000_000_000_000,
                        ;
                    }
                    let size_sub: i64 = crate::layout::CELL_PX * sc;
                    let size_px: i64 = crate::geom::div_trunc64(size_sub, 1000);
                    let half: i64 = crate::geom::div_trunc64(size_px, 2);
                    out.push(RenderRect {
                        album: it.album,
                        x_px: crate::geom::div_trunc64(cx, 1000) - half,
                        y_px: crate::geom::div_trunc64(cy, 1000) - half,
                        size_px,
                    });
                },
                None => {
                    proof {
                        assert(false);
                    }
                },
            }
            i = i + 1;
        }
        out
    }

    /// The enlarged rectangle the hover effect draws over a settled item
    /// under the pointer, if the grid state calls for one. Purely visual:
    /// nothing in the grid changes.
    pub fn hover_rect(&self, mx: i64, my: i64, focus: bool) -> (out: Option<RenderRect>)
        requires
            self.wf(),
            abs_int(mx as int) <= 0x7fff_ffff_ffff,
            abs_int(my as int) <= 0x7fff_ffff_ffff,
        ensures
            match hover_target(*self, mx as int, my as int, focus) {
                Some(rc) => out == Some(
                    (RenderRect {
                        album: self.rows@[rc.0]@[rc.1].album,
                        x_px: (crate::geom::div_trunc(self.rows@[rc.0]@[rc.1].x_pos as int, 1000)
                            - HOVER_GROW_PX / 2) as i64,
                        y_px: (rc.0 * crate::layout::CELL_PX - HOVER_GROW_PX / 2) as i64,
                        size_px: (crate::layout::CELL_PX + HOVER_GROW_PX) as i64,
                    }),
                ),
                None => out is None,
            },
    {
        if !(self.drag.is_none() && focus && mx >= 0 && mx < SLIDE_IN_SUB && my >= 0 && my
            < WINDOW_H_SUB) {
            return None;
        }
        let row: usize = ((my as u64) / (CELL_SUB as u64)) as usize;
        let col: usize = ((mx as u64) / (CELL_SUB as u64)) as usize;
        if row >= GRID_ROWS || col >= self.rows[row].len() {
            return None;
        }
        let it = &self.rows[row][col];
        proof {
            assert(item_wf(self.rows@[row as int]@[col as int]));
        }
        let still = match &it.state {
            ItemState::Default => it.x_vel < 100 && it.x_vel > -100,
            _ => false,
        };
        if !still {
            return None;
        }
        Some(
            RenderRect {
                album: it.album,
                x_px: crate::geom::div_trunc64(it.x_pos, 1000) - HOVER_GROW_PX / 2,
                y_px: (row as i64) * crate::layout::CELL_PX - HOVER_GROW_PX / 2,
                size_px: crate::layout::CELL_PX + HOVER_GROW_PX,
            },
        )
    }
}

/// Where an in-flight toss is drawn: its curves at the current progress
/// give the thumbnail's centre in subpixels and its scale in thousandths.
pub open spec fn toss_rect(it: GridItem) -> RenderRect {
    match it.state {
        ItemState::Anim { duration, elapsed, x_curve, y_curve, scale_curve } => {
            let cx = crate::anim::curve_at(x_curve, elapsed as int, duration as int);
            let cy = crate::anim::curve_at(y_curve, elapsed as int, duration as int);
            let sc = crate::anim::curve_at(scale_curve, elapsed as int, duration as int);
            let size_px = crate::geom::div_trunc(crate::layout::CELL_PX * sc, 1000);
            let half = crate::geom::div_trunc(size_px, 2);
            RenderRect {
                album: it.album,
                x_px: (crate::geom::div_trunc(cx, 1000) - half) as i64,
                y_px: (crate::geom::div_trunc(cy, 1000) - half) as i64,
                size_px: size_px as i64,
            }
        },
        _ => RenderRect { album: it.album, x_px: 0, y_px: 0, size_px: 0 },
    }
}

} // verus!
