//! The unit of a time series and the mathematical model of a persisted series.
//!
//! A series is modelled as a sequence of `(date, value text)` pairs with
//! strictly increasing dates.  Two spec functions carry the whole engine:
//! `filter_after`, what a data source yields past a checkpoint, and `merge`,
//! the insert-or-overwrite by date that persisting a batch performs.

use vstd::prelude::*;

use crate::date::Date;

verus! {

/// One row of a series: a calendar date and an arbitrary-precision decimal
/// kept as text, so that large counters lose no precision.
#[derive(Debug)]
pub struct DateValue {
    pub date: Date,
    pub value: String,
}

impl DateValue {
    /// The mathematical content of a row: its date and the characters of its value.
    pub open spec fn model(self) -> (Date, Seq<char>) {
        (self.date, self.value@)
    }

    pub fn new(date: Date, value: String) -> (r: DateValue)
        ensures
            r.model() == (date, value@),
    {
        DateValue { date, value }
    }

    /// A fresh row with the same date and the same value text.
    pub fn duplicate(&self) -> (r: DateValue)
        ensures
            r.model() == self.model(),
    {
        DateValue { date: self.date, value: self.value.clone() }
    }
}

pub open spec fn rows_model(rows: Seq<DateValue>) -> Seq<(Date, Seq<char>)> {
    Seq::new(rows.len(), |i: int| rows[i].model())
}

/// Dates strictly increase: at most one row per date, in ascending order.
pub open spec fn sorted_dates(s: Seq<(Date, Seq<char>)>) -> bool {
    forall|i: int, j: int|
        0 <= i < j < s.len() ==> #[trigger] s[i].0.before(#[trigger] s[j].0)
}

/// A well-formed series: sorted, with every date a real day.
pub open spec fn wf_rows(s: Seq<(Date, Seq<char>)>) -> bool {
    &&& sorted_dates(s)
    &&& forall|i: int| 0 <= i < s.len() ==> (#[trigger] s[i].0).wf()
}

/// The checkpoint a series provides: its greatest (last) date, if any.
pub open spec fn last_date_of(s: Seq<(Date, Seq<char>)>) -> Option<Date> {
    if s.len() == 0 {
        None
    } else {
        Some(s.last().0)
    }
}

/// Whether a row dated `d` lies strictly after the checkpoint (every row does
/// when the checkpoint is absent).
pub open spec fn passes_after(d: Date, checkpoint: Option<Date>) -> bool {
    match checkpoint {
        None => true,
        Some(c) => c.before(d),
    }
}

/// The rows of `s` whose date lies strictly after the checkpoint, in order.
pub open spec fn filter_after(s: Seq<(Date, Seq<char>)>, checkpoint: Option<Date>) -> Seq<
    (Date, Seq<char>),
>
    decreases s.len(),
{
    if s.len() == 0 {
        Seq::empty()
    } else {
        filter_after(s.drop_last(), checkpoint) + (if passes_after(s.last().0, checkpoint) {
            seq![s.last()]
        } else {
            Seq::empty()
        })
    }
}

/// Insert-or-overwrite of a sorted batch `b` into a sorted series `a`, keyed
/// by date: a date present in both keeps the batch's value, all other rows are
/// kept, and the result stays in ascending date order.
pub open spec fn merge(a: Seq<(Date, Seq<char>)>, b: Seq<(Date, Seq<char>)>) -> Seq<
    (Date, Seq<char>),
>
    decreases a.len() + b.len(),
{
    if b.len() == 0 {
        a
    } else if a.len() == 0 {
        b
    } else if a[0].0.before(b[0].0) {
        seq![a[0]] + merge(a.drop_first(), b)
    } else if b[0].0.before(a[0].0) {
        seq![b[0]] + merge(a, b.drop_first())
    } else {
        seq![b[0]] + merge(a.drop_first(), b.drop_first())
    }
}

/// Filtering keeps the series well formed: the result is sorted, every kept
/// row passes the checkpoint and is bounded by the input's last date, and
/// real days stay real days.
pub proof fn lemma_filter_sorted(s: Seq<(Date, Seq<char>)>, checkpoint: Option<Date>)
    requires
        sorted_dates(s),
    ensures
        sorted_dates(filter_after(s, checkpoint)),
        forall|k: int|
            0 <= k < filter_after(s, checkpoint).len() ==> passes_after(
                #[trigger] filter_after(s, checkpoint)[k].0,
                checkpoint,
            ),
        forall|k: int|
            0 <= k < filter_after(s, checkpoint).len() ==> s.len() > 0 && (
            #[trigger] filter_after(s, checkpoint)[k].0).on_or_before(s.last().0),
        wf_rows(s) ==> wf_rows(filter_after(s, checkpoint)),
    decreases s.len(),
{
    if s.len() > 0 {
        let t = s.drop_last();
        assert(sorted_dates(t));
        lemma_filter_sorted(t, checkpoint);
        let ft = filter_after(t, checkpoint);
        let f = filter_after(s, checkpoint);
        assert forall|k: int|
            0 <= k < f.len() implies (#[trigger] f[k].0).on_or_before(s.last().0) by {
            if k < ft.len() {
                if t.len() > 0 {
                    assert(t.last() == s[s.len() - 2]);
                    assert(t.last().0.before(s.last().0));
                    crate::date::lemma_before_trans(f[k].0, t.last().0, s.last().0);
                }
            }
        }
        assert forall|i: int, j: int| 0 <= i < j < f.len() implies #[trigger] f[i].0.before(
            #[trigger] f[j].0,
        ) by {
            if j < ft.len() {
            } else {
                assert(f[i] == ft[i]);
                if t.len() > 0 {
                    assert(t.last() == s[s.len() - 2]);
                    assert(t.last().0.before(s.last().0));
                    crate::date::lemma_before_trans(f[i].0, t.last().0, s.last().0);
                }
            }
        }
        if wf_rows(s) {
            assert(wf_rows(t));
            assert forall|k: int| 0 <= k < f.len() implies (#[trigger] f[k].0).wf() by {
                if k < ft.len() {
                    assert(f[k] == ft[k]);
                } else {
                    assert(f[k] == s[s.len() - 1]);
                }
            }
        }
    }
}

/// How filtering treats the ends: the input's last row is kept last whenever
/// it passes; nothing survives when no row passes; an absent checkpoint keeps
/// the series whole.
pub proof fn lemma_filter_ends(s: Seq<(Date, Seq<char>)>, checkpoint: Option<Date>)
    ensures
        (s.len() > 0 && passes_after(s.last().0, checkpoint)) ==> filter_after(s, checkpoint).len()
            > 0 && filter_after(s, checkpoint).last() == s.last(),
        (forall|i: int| 0 <= i < s.len() ==> !passes_after(#[trigger] s[i].0, checkpoint))
            ==> filter_after(s, checkpoint) == Seq::<(Date, Seq<char>)>::empty(),
        checkpoint is None ==> filter_after(s, checkpoint) == s,
    decreases s.len(),
{
    if s.len() == 0 {
        assert(filter_after(s, checkpoint) =~= s);
    } else {
        let t = s.drop_last();
        lemma_filter_ends(t, checkpoint);
        let f = filter_after(s, checkpoint);
        if checkpoint is None {
            assert(f =~= s);
        }
        if forall|i: int| 0 <= i < s.len() ==> !passes_after(#[trigger] s[i].0, checkpoint) {
            assert(forall|i: int|
                0 <= i < t.len() ==> !passes_after(#[trigger] t[i].0, checkpoint));
            assert(!passes_after(s[s.len() - 1].0, checkpoint));
            assert(f =~= Seq::<(Date, Seq<char>)>::empty());
        }
    }
}

/// Merging a batch whose dates all lie past the series simply appends it.
pub proof fn lemma_merge_append(a: Seq<(Date, Seq<char>)>, b: Seq<(Date, Seq<char>)>)
    requires
        sorted_dates(a),
        sorted_dates(b),
        a.len() > 0 && b.len() > 0 ==> a.last().0.before(b[0].0),
    ensures
        merge(a, b) == a + b,
    decreases a.len(),
{
    if b.len() == 0 {
        assert(merge(a, b) =~= a + b);
    } else if a.len() == 0 {
        assert(merge(a, b) =~= a + b);
    } else {
        crate::date::lemma_before_trans(a[0].0, a.last().0, b[0].0);
        assert(a[0].0.before(b[0].0));
        let t = a.drop_first();
        assert(sorted_dates(t));
        if t.len() > 0 {
            assert(t.last() == a.last());
        }
        lemma_merge_append(t, b);
        assert(merge(a, b) =~= a + b);
    }
}

/// Re-upserting a series into itself changes nothing: the overwrite is
/// value-for-value identical.
pub proof fn lemma_merge_self(a: Seq<(Date, Seq<char>)>)
    requires
        sorted_dates(a),
    ensures
        merge(a, a) == a,
    decreases a.len(),
{
    if a.len() > 0 {
        crate::date::lemma_date_order(a[0].0, a[0].0);
        let t = a.drop_first();
        assert(sorted_dates(t));
        lemma_merge_self(t);
        assert(merge(a, a) =~= a);
    }
}

} // verus!
