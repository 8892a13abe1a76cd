//! The per-chart data source.
//!
//! A data source turns ledger activity into per-date aggregate rows.  Its
//! contract is the one every metric shares: given an optional checkpoint it
//! yields exactly the rows dated strictly after it (the full history when the
//! checkpoint is absent), at most one row per date, in ascending order, and
//! it only reports dates that saw activity — zero-activity days are absent.
//! The rows are held in memory here, standing for the result of the metric's
//! aggregation query; the `available` flag stands for the ledger's
//! reachability, and when it is off every read fails as a source fault.

use vstd::prelude::*;

use crate::date::Date;
use crate::error::UpdateError;
use crate::series::{filter_after, passes_after, rows_model, wf_rows, DateValue};

verus! {

#[derive(Debug)]
pub struct DataSource {
    pub rows: Vec<DateValue>,
    pub available: bool,
}

/// The first `n` rows form a well-formed series.
pub open spec fn wf_prefix(m: Seq<(Date, Seq<char>)>, n: int) -> bool {
    &&& forall|p: int, q: int|
        0 <= p < q < n ==> (#[trigger] m[p].0).before(#[trigger] m[q].0)
    &&& forall|p: int| 0 <= p < n ==> (#[trigger] m[p].0).wf()
}

impl DataSource {
    /// The full history this source can yield, as a mathematical sequence.
    pub open spec fn model(&self) -> Seq<(Date, Seq<char>)> {
        rows_model(self.rows@)
    }

    pub open spec fn wf(&self) -> bool {
        wf_rows(self.model())
    }

    /// Builds a source from aggregate rows, refusing data that is not a
    /// series: dates must be real days and strictly increasing.
    pub fn from_rows(rows: Vec<DateValue>) -> (r: Result<DataSource, UpdateError>)
        ensures
            (r is Ok) <==> wf_rows(rows_model(rows@)),
            r matches Ok(s) ==> s.wf() && s.model() == rows_model(rows@) && s.available,
            r matches Err(e) ==> e matches UpdateError::Internal(m) && m@
                == "rows are not an ascending series of real dates"@,
    {
        let n = rows.len();
        let mut i: usize = 0;
        let mut ok: bool = true;
        proof {
            assert(wf_prefix(rows_model(rows@), 0));
        }
        while i < n
            invariant
                n == rows.len(),
                i <= n,
                ok == wf_prefix(rows_model(rows@), i as int),
            decreases n - i,
        {
            let good: bool = rows[i].date.check() && (i == 0 || rows[i - 1].date.lt(&rows[i].date));
            proof {
                let m = rows_model(rows@);
                if ok {
                    if good {
                        assert forall|p: int, q: int|
                            0 <= p < q < i + 1 implies (#[trigger] m[p].0).before(
                            #[trigger] m[q].0,
                        ) by {
                            if q == i as int && p < i - 1 {
                                crate::date::lemma_before_trans(m[p].0, m[i - 1].0, m[q].0);
                            }
                        }
                        assert(wf_prefix(m, i + 1));
                    } else {
                        // A concrete violation at position i refutes the longer prefix.
                        if !m[i as int].0.wf() {
                            assert(!wf_prefix(m, i + 1));
                        } else {
                            assert(i > 0 && !m[i - 1].0.before(m[i as int].0));
                            assert(!wf_prefix(m, i + 1));
                        }
                    }
                } else {
                    assert(!wf_prefix(m, i + 1));
                }
            }
            ok = ok && good;
            i = i + 1;
        }
        proof {
            assert(wf_prefix(rows_model(rows@), n as int) == wf_rows(rows_model(rows@)));
        }
        if ok {
            let s = DataSource { rows, available: true };
            Ok(s)
        } else {
            Err(UpdateError::Internal(
                "rows are not an ascending series of real dates".to_owned(),
            ))
        }
    }

    /// One more day of activity lands in the ledger: appends the row,
    /// refusing one that would break the series order.
    pub fn push_row(&mut self, row: DateValue) -> (r: Result<(), UpdateError>)
        requires
            old(self).wf(),
        ensures
            final (self).wf(),
            final (self).available == old(self).available,
            (r is Ok) <==> (row.date.wf() && (old(self).model().len() == 0 || old(
                self,
            ).model().last().0.before(row.date))),
            r is Ok ==> final (self).model() == old(self).model().push(row.model()),
            !(r is Ok) ==> final (self).model() == old(self).model() && (r matches Err(
                UpdateError::Internal(m),
            ) && m@ == "row would break the series order"@),
    {
        let ok: bool = row.date.check() && (self.rows.len() == 0 || self.rows[self.rows.len()
            - 1].date.lt(&row.date));
        if !ok {
            return Err(UpdateError::Internal("row would break the series order".to_owned()));
        }
        let ghost m0 = self.model();
        self.rows.push(row);
        proof {
            let m = self.model();
            assert(m =~= m0.push(row.model()));
            assert forall|p: int, q: int| 0 <= p < q < m.len() implies (#[trigger] m[p].0).before(
                #[trigger] m[q].0,
            ) by {
                if q == m.len() - 1 && p < m.len() - 2 {
                    crate::date::lemma_before_trans(m[p].0, m0.last().0, row.date);
                }
            }
        }
        Ok(())
    }

    /// Reads the rows dated strictly after the checkpoint — the full history
    /// when it is absent — exactly as the shared data-source contract asks.
    /// Fails, touching nothing, when the ledger is unreachable.
    pub fn read_values(&self, checkpoint: Option<Date>) -> (r: Result<Vec<DateValue>, UpdateError>)
        requires
            self.wf(),
        ensures
            (r is Ok) <==> self.available,
            r matches Ok(vs) ==> rows_model(vs@) == filter_after(self.model(), checkpoint),
            !(r is Ok) ==> r == Err::<Vec<DateValue>, UpdateError>(UpdateError::SourceUnavailable),
    {
        if !self.available {
            return Err(UpdateError::SourceUnavailable);
        }
        let ghost m = self.model();
        let mut out: Vec<DateValue> = Vec::new();
        let mut i: usize = 0;
        proof {
            assert(m.take(0) =~= Seq::<(Date, Seq<char>)>::empty());
            assert(rows_model(out@) =~= filter_after(m.take(0), checkpoint));
        }
        while i < self.rows.len()
            invariant
                i <= self.rows.len(),
                m == self.model(),
                rows_model(out@) == filter_after(m.take(i as int), checkpoint),
            decreases self.rows.len() - i,
        {
            let ghost outm0 = rows_model(out@);
            let keep: bool = match checkpoint {
                None => true,
                Some(c) => c.lt(&self.rows[i].date),
            };
            if keep {
                out.push(self.rows[i].duplicate());
            }
            proof {
                let t = m.take(i as int + 1);
                assert(t.drop_last() =~= m.take(i as int));
                assert(t.last() == m[i as int]);
                assert(passes_after(t.last().0, checkpoint) == keep);
                if keep {
                    assert(rows_model(out@) =~= outm0.push(m[i as int]));
                    assert(filter_after(t, checkpoint) =~= filter_after(m.take(i as int), checkpoint)
                        + seq![t.last()]);
                    assert(rows_model(out@) =~= filter_after(t, checkpoint));
                } else {
                    assert(filter_after(t, checkpoint) =~= filter_after(
                        m.take(i as int),
                        checkpoint,
                    ));
                }
            }
            i = i + 1;
        }
        proof {
            assert(m.take(self.rows.len() as int) =~= m);
        }
        Ok(out)
    }
}

} // verus!
