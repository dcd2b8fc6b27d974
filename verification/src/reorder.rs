//! The row reorder buffer: the consumer-side structure that restores strict
//! top-to-bottom row order from workers that finish out of order.
//!
//! The dispatcher hands out rows tagged with a running dispatch index (0 for
//! the image's top row). Workers return finished rows in whatever order they
//! complete. The buffer holds early arrivals and releases rows exactly in
//! dispatch-index order: a row leaves only once every row before it has left.

use crate::color::Rgb;
use vstd::prelude::*;

verus! {

/// One finished row of the image: its pixels, tagged with the dispatch index
/// under which the row was handed out.
pub struct Row {
    /// Position of this row in the dispatch order: 0 for the first row
    /// dispatched, which is the image's top row.
    pub enumerator: usize,
    /// The row's pixels, left to right.
    pub colors: Vec<Rgb>,
}

/// Whether some row in `rows` carries dispatch index `idx`.
pub open spec fn has_index(rows: Seq<Row>, idx: usize) -> bool {
    exists|k: int| 0 <= k < rows.len() && rows[k].enumerator == idx
}

/// The reorder buffer. `cursor` is the dispatch index of the next row owed
/// downstream; rows that arrive before their predecessors wait in `pending`.
pub struct ReorderBuffer {
    next: usize,
    pending: Vec<Row>,
}

impl ReorderBuffer {
    /// The dispatch index of the next row owed downstream: every row with a
    /// smaller index has been released, and no row with a larger one.
    pub closed spec fn cursor(self) -> usize {
        self.next
    }

    /// The rows that arrived before their predecessors and wait here.
    pub closed spec fn pending(self) -> Seq<Row> {
        self.pending@
    }

    /// The buffer's invariant: waiting rows are strictly descending by
    /// dispatch index (so the row owed soonest sits at the end), none has
    /// been released already, and every index leaves room for a successor.
    pub open spec fn wf(self) -> bool {
        &&& forall|a: int, b: int|
            0 <= a < b < self.pending().len() ==> self.pending()[a].enumerator
                > self.pending()[b].enumerator
        &&& forall|k: int|
            0 <= k < self.pending().len() ==> self.pending()[k].enumerator >= self.cursor()
        &&& forall|k: int|
            0 <= k < self.pending().len() ==> self.pending()[k].enumerator < usize::MAX
    }

    /// An empty buffer, owing the first dispatched row.
    pub fn new() -> (buf: ReorderBuffer)
        ensures
            buf.wf(),
            buf.cursor() == 0,
            buf.pending().len() == 0,
    {
        ReorderBuffer { next: 0, pending: Vec::new() }
    }

    /// The dispatch index of the next row owed downstream.
    pub fn next_row_index(&self) -> (idx: usize)
        ensures
            idx == self.cursor(),
    {
        self.next
    }

    /// How many rows wait in the buffer.
    pub fn pending_count(&self) -> (n: usize)
        ensures
            n == self.pending().len(),
    {
        self.pending.len()
    }

    /// Whether the buffer holds no waiting rows. At the end of a render this
    /// must be true, or a row was lost or duplicated.
    pub fn is_drained(&self) -> (drained: bool)
        ensures
            drained <==> self.pending().len() == 0,
    {
        self.pending.len() == 0
    }

    /// Whether a waiting row carries dispatch index `idx`.
    pub fn contains_index(&self, idx: usize) -> (found: bool)
        ensures
            found == has_index(self.pending(), idx),
    {
        let mut k: usize = 0;
        while k < self.pending.len()
            invariant
                k <= self.pending@.len(),
                forall|a: int| 0 <= a < k ==> self.pending@[a].enumerator != idx,
            decreases self.pending@.len() - k,
        {
            if self.pending[k].enumerator == idx {
                return true;
            }
            k = k + 1;
        }
        false
    }

    /// Accepts one finished row and releases every row that is now ready:
    /// the longest run of consecutively indexed rows starting at the cursor.
    ///
    /// The released batch is gapless and ascending from the old cursor, each
    /// released row is one that was handed in (no row is invented, lost or
    /// duplicated), and afterwards the row owed next is not in the buffer —
    /// the batch is as long as the arrivals so far allow.
    #[verifier::loop_isolation(false)]
    #[verifier::rlimit(50)]
    pub fn push(&mut self, row: Row) -> (ready: Vec<Row>)
        requires
            old(self).wf(),
            row.enumerator >= old(self).cursor(),
            row.enumerator < usize::MAX,
            !has_index(old(self).pending(), row.enumerator),
        ensures
            final(self).wf(),
            final(self).cursor() == old(self).cursor() + ready@.len(),
            forall|k: int|
                0 <= k < ready@.len() ==> ready@[k].enumerator == old(self).cursor() + k,
            forall|k: int|
                0 <= k < ready@.len() ==> (ready@[k] == row || old(self).pending().contains(
                    ready@[k],
                )),
            forall|r: Row|
                old(self).pending().contains(r) ==> (final(self).pending().contains(r)
                    || ready@.contains(r)),
            final(self).pending().contains(row) || ready@.contains(row),
            forall|r: Row|
                final(self).pending().contains(r) ==> (r == row || old(self).pending().contains(
                    r,
                )),
            !has_index(final(self).pending(), final(self).cursor()),
    {
        let ghost pre = *old(self);
        // Insert the row, keeping `pending` strictly descending by index.
        let mut pos: usize = 0;
        while pos < self.pending.len() && self.pending[pos].enumerator > row.enumerator
            invariant
                pos <= self.pending@.len(),
                forall|k: int| 0 <= k < pos ==> self.pending@[k].enumerator > row.enumerator,
            decreases self.pending@.len() - pos,
        {
            pos = pos + 1;
        }
        proof {
            if pos < self.pending@.len() {
                assert(self.pending@[pos as int].enumerator != row.enumerator);
                assert(self.pending@[pos as int].enumerator < row.enumerator);
            }
        }
        self.pending.insert(pos, row);
        let ghost ins = self.pending@;
        let ghost n_ins = ins.len() as int;
        let ghost next0 = pre.next;
        proof {
            pre.pending@.insert_ensures(pos as int, row);
            assert forall|a: int, b: int| 0 <= a < b < n_ins implies ins[a].enumerator
                > ins[b].enumerator by {
                if b < pos {
                } else if a < pos && b == pos {
                    assert(ins[a] == pre.pending@[a]);
                } else if a < pos {
                    assert(ins[b] == pre.pending@[b - 1]);
                } else if a == pos {
                    assert(ins[b] == pre.pending@[b - 1]);
                    assert(pre.pending@[b - 1].enumerator < row.enumerator);
                }
            }
            assert forall|k: int| 0 <= k < n_ins implies ins[k].enumerator >= next0
                && ins[k].enumerator < usize::MAX by {
                if k < pos {
                    assert(ins[k] == pre.pending@[k]);
                } else if k > pos {
                    assert(ins[k] == pre.pending@[k - 1]);
                }
            }
        }
        // Release the run of consecutively indexed rows now at the tail.
        let mut ready: Vec<Row> = Vec::new();
        while self.pending.len() > 0 && self.pending[self.pending.len() - 1].enumerator
            == self.next
            invariant
                ready@.len() <= n_ins,
                self.pending@ == ins.take(n_ins - ready@.len()),
                self.next == next0 + ready@.len(),
                forall|k: int| 0 <= k < ready@.len() ==> ready@[k].enumerator == next0 + k,
                forall|k: int| 0 <= k < ready@.len() ==> ready@[k] == ins[n_ins - 1 - k],
            decreases self.pending@.len(),
        {
            let ghost m = n_ins - ready@.len();
            let row_ready = self.pending.pop().unwrap();
            proof {
                assert(row_ready == ins.take(m).last());
                assert(row_ready == ins[m - 1]);
                assert(self.pending@ =~= ins.take(m - 1));
            }
            self.next = self.next + 1;
            ready.push(row_ready);
        }
        proof {
            let m_end = self.pending@.len() as int;
            // The buffer's invariant holds again.
            assert forall|k: int| 0 <= k < m_end implies self.pending@[k].enumerator
                >= self.next by {
                assert(self.pending@[k] == ins[k]);
                if ready@.len() > 0 {
                    assert(ready@[ready@.len() - 1] == ins[m_end]);
                    assert(ins[m_end].enumerator == next0 + ready@.len() - 1);
                    assert(ins[k].enumerator > ins[m_end].enumerator);
                }
            }
            // The cursor's row is not waiting: the drain went as far as the
            // arrivals allow.
            assert forall|k: int| 0 <= k < m_end implies self.pending@[k].enumerator
                != self.next by {
                assert(self.pending@[m_end - 1] == ins[m_end - 1]);
                assert(self.pending@[m_end - 1].enumerator != self.next);
                if k < m_end - 1 {
                    assert(self.pending@[k] == ins[k]);
                    assert(ins[k].enumerator > ins[m_end - 1].enumerator);
                    assert(ins[m_end - 1].enumerator >= self.next);
                }
            }
            // Every row handed in is still waiting or was released.
            assert forall|r: Row| pre.pending@.contains(r) implies (self.pending@.contains(r)
                || ready@.contains(r)) by {
                let idx = choose|idx: int|
                    0 <= idx < pre.pending@.len() && pre.pending@[idx] == r;
                let at = if idx < pos { idx } else { idx + 1 };
                assert(ins[at] == r);
                if at < m_end {
                    assert(self.pending@[at] == r);
                } else {
                    assert(ready@[n_ins - 1 - at] == r);
                }
            }
            if pos < m_end {
                assert(self.pending@[pos as int] == row);
            } else {
                assert(ready@[n_ins - 1 - pos] == row);
            }
            // Released rows are genuine arrivals.
            assert forall|k: int| 0 <= k < ready@.len() implies (ready@[k] == row
                || pre.pending@.contains(ready@[k])) by {
                let at = n_ins - 1 - k;
                assert(ready@[k] == ins[at]);
                if at < pos {
                    assert(ins[at] == pre.pending@[at]);
                } else if at > pos {
                    assert(ins[at] == pre.pending@[at - 1]);
                }
            }
            // Waiting rows are genuine arrivals.
            assert forall|r: Row| self.pending@.contains(r) implies (r == row
                || pre.pending@.contains(r)) by {
                let at = choose|at: int| 0 <= at < self.pending@.len() && self.pending@[at] == r;
                assert(self.pending@[at] == ins[at]);
                if at < pos {
                    assert(ins[at] == pre.pending@[at]);
                } else if at > pos {
                    assert(ins[at] == pre.pending@[at - 1]);
                }
            }
        }
        ready
    }
}

/// Law: a released batch is strictly ascending — row `k + 1` is never
/// emitted before row `k`, for every pair of rows in the batch.
pub proof fn lemma_batch_strictly_ascending(base: int, batch: Seq<Row>)
    requires
        forall|k: int| 0 <= k < batch.len() ==> batch[k].enumerator == base + k,
    ensures
        forall|a: int, b: int|
            0 <= a < b < batch.len() ==> batch[a].enumerator < batch[b].enumerator,
{
}

/// Law: successive batches join into one gapless ascending run. With the
/// batch each `push` releases being gapless and ascending from the cursor,
/// and the cursor advancing by the batch's length, it follows by induction
/// that the whole emission of a render is the run 0, 1, 2, ... — strict
/// dispatch order, regardless of the order in which workers finished.
pub proof fn lemma_batches_join(
    cursor0: int,
    first: Seq<Row>,
    cursor1: int,
    second: Seq<Row>,
    cursor2: int,
)
    requires
        forall|k: int| 0 <= k < first.len() ==> first[k].enumerator == cursor0 + k,
        cursor1 == cursor0 + first.len(),
        forall|k: int| 0 <= k < second.len() ==> second[k].enumerator == cursor1 + k,
        cursor2 == cursor1 + second.len(),
    ensures
        forall|k: int|
            0 <= k < (first + second).len() ==> (first + second)[k].enumerator == cursor0 + k,
        cursor2 == cursor0 + (first + second).len(),
{
    assert forall|k: int| 0 <= k < (first + second).len() implies (first + second)[k].enumerator
        == cursor0 + k by {
        if k < first.len() {
            assert((first + second)[k] == first[k]);
        } else {
            assert((first + second)[k] == second[k - first.len()]);
        }
    }
}

} // verus!
