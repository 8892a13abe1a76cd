//! The persistence adapter for one chart's series.
//!
//! The store answers the checkpoint question — the greatest persisted date —
//! and performs the one write of the engine: an atomic, idempotent upsert of
//! a sorted batch, keyed by date.  The rows are held in memory here; a store
//! behind a database must meet the same contract (the batch lands whole or
//! not at all), which is what the update cycle's retry semantics rest on.
//! The `available` flag stands for the store's reachability: when it is off,
//! writes fail as a persistence fault and leave the series untouched.

use vstd::prelude::*;

use crate::date::Date;
use crate::error::UpdateError;
use crate::series::{merge, rows_model, last_date_of, wf_rows, DateValue};

verus! {

#[derive(Debug)]
pub struct Store {
    pub rows: Vec<DateValue>,
    pub available: bool,
}

impl Store {
    /// The persisted series as a mathematical sequence.
    pub open spec fn model(&self) -> Seq<(Date, Seq<char>)> {
        rows_model(self.rows@)
    }

    pub open spec fn wf(&self) -> bool {
        wf_rows(self.model())
    }

    /// An empty, reachable store.
    pub fn new() -> (r: Store)
        ensures
            r.wf(),
            r.model() == Seq::<(Date, Seq<char>)>::empty(),
            r.available,
    {
        let r = Store { rows: Vec::new(), available: true };
        proof {
            assert(r.model() =~= Seq::<(Date, Seq<char>)>::empty());
        }
        r
    }

    /// The chart's checkpoint: the greatest persisted date, or absent when no
    /// rows exist yet.
    pub fn last_date(&self) -> (r: Option<Date>)
        ensures
            r == last_date_of(self.model()),
    {
        if self.rows.len() == 0 {
            None
        } else {
            Some(self.rows[self.rows.len() - 1].date)
        }
    }

    /// Inserts or overwrites each batch row by date, as one atomic unit:
    /// either the whole merged series stands afterwards, or (on a persistence
    /// fault) the old series stands untouched.  Re-applying the same batch is
    /// idempotent, which is what makes retry after a failure safe.
    pub fn upsert(&mut self, batch: &Vec<DateValue>) -> (r: Result<(), UpdateError>)
        requires
            old(self).wf(),
            wf_rows(rows_model(batch@)),
        ensures
            final(self).wf(),
            final(self).available == old(self).available,
            (r is Ok) <==> old(self).available,
            r is Ok ==> final(self).model() == merge(old(self).model(), rows_model(batch@)),
            !(r is Ok) ==> final(self).model() == old(self).model() && r == Err::<
                (),
                UpdateError,
            >(UpdateError::PersistenceFailure),
    {
        if !self.available {
            return Err(UpdateError::PersistenceFailure);
        }
        let ghost am = rows_model(self.rows@);
        let ghost bm = rows_model(batch@);
        let mut out: Vec<DateValue> = Vec::new();
        let mut i: usize = 0;
        let mut j: usize = 0;
        proof {
            assert(am.skip(0) =~= am);
            assert(bm.skip(0) =~= bm);
            assert(rows_model(out@) =~= Seq::<(Date, Seq<char>)>::empty());
            assert(merge(am, bm) =~= rows_model(out@) + merge(
                am.skip(i as int),
                bm.skip(j as int),
            ));
        }
        while i < self.rows.len() || j < batch.len()
            invariant
                i <= self.rows.len(),
                j <= batch.len(),
                self == old(self),
                am == rows_model(self.rows@),
                bm == rows_model(batch@),
                wf_rows(am),
                wf_rows(bm),
                merge(am, bm) == rows_model(out@) + merge(am.skip(i as int), bm.skip(j as int)),
                wf_rows(rows_model(out@)),
                forall|k: int|
                    0 <= k < out@.len() && i < am.len() ==> (#[trigger] rows_model(
                        out@,
                    )[k].0).before(am[i as int].0),
                forall|k: int|
                    0 <= k < out@.len() && j < bm.len() ==> (#[trigger] rows_model(
                        out@,
                    )[k].0).before(bm[j as int].0),
            decreases self.rows.len() - i + batch.len() - j,
        {
            let ghost outm0 = rows_model(out@);
            let ghost ra = am.skip(i as int);
            let ghost rb = bm.skip(j as int);
            proof {
                if i < self.rows.len() {
                    assert(ra[0] == am[i as int]);
                    assert(ra.drop_first() =~= am.skip(i as int + 1));
                }
                if j < batch.len() {
                    assert(rb[0] == bm[j as int]);
                    assert(rb.drop_first() =~= bm.skip(j as int + 1));
                }
            }
            let take_store: bool = if j >= batch.len() {
                true
            } else if i >= self.rows.len() {
                false
            } else {
                self.rows[i].date.lt(&batch[j].date)
            };
            if take_store {
                out.push(self.rows[i].duplicate());
                i = i + 1;
            } else {
                // The batch row wins; a store row with the very same date is
                // overwritten, so it is consumed without being kept.
                if i < self.rows.len() && !batch[j].date.lt(&self.rows[i].date) {
                    proof {
                        crate::date::lemma_date_order(am[i as int].0, bm[j as int].0);
                    }
                    i = i + 1;
                }
                out.push(batch[j].duplicate());
                j = j + 1;
            }
            proof {
                let v = out@.last();
                assert(rows_model(out@) =~= outm0.push(v.model()));
                assert(merge(am, bm) =~= rows_model(out@) + merge(
                    am.skip(i as int),
                    bm.skip(j as int),
                ));
                assert forall|k: int|
                    0 <= k < out@.len() && i < am.len() implies (#[trigger] rows_model(
                    out@,
                )[k].0).before(am[i as int].0) by {
                    if k < outm0.len() {
                        crate::date::lemma_before_trans(outm0[k].0, v.model().0, am[i as int].0);
                    }
                }
                assert forall|k: int|
                    0 <= k < out@.len() && j < bm.len() implies (#[trigger] rows_model(
                    out@,
                )[k].0).before(bm[j as int].0) by {
                    if k < outm0.len() {
                        crate::date::lemma_before_trans(outm0[k].0, v.model().0, bm[j as int].0);
                    }
                }
            }
        }
        proof {
            assert(am.skip(i as int) =~= Seq::<(Date, Seq<char>)>::empty());
            assert(bm.skip(j as int) =~= Seq::<(Date, Seq<char>)>::empty());
            assert(merge(am, bm) =~= rows_model(out@));
        }
        self.rows = out;
        Ok(())
    }
}

} // verus!
