//! Charts and the name-to-chart registry that dispatches updates.
//!
//! A chart bundles what one metric needs for its lifetime: its unique name,
//! its kind, its single-flight cache, its persisted series and its data
//! source.  The registry maps names to charts, established at startup and
//! holding no other cross-chart state; updating one chart never touches
//! another.

use vstd::prelude::*;

use crate::cache::Cache;
use crate::error::UpdateError;
use crate::series::{merge, DateValue};
use crate::source::DataSource;
use crate::store::Store;
use crate::updater::{cache_rows_wf, cycle_rows, serves, update_series};

verus! {

/// How the presentation layer draws a chart.
#[derive(Clone, Copy, PartialEq, Eq, Structural, Debug)]
pub enum ChartKind {
    Line,
    Counter,
}

#[derive(Debug)]
pub struct Chart {
    pub name: String,
    pub kind: ChartKind,
    pub cache: Cache<Vec<DateValue>>,
    pub store: Store,
    pub source: DataSource,
}

/// Everything one update call on a chart promises, stated over the chart
/// before and after: the identity fields stand, success comes exactly when
/// store — and, if a fetch is needed, source — are reachable, a successful
/// cycle persists the merged series and resets the cache, and every failure
/// leaves the series untouched and names its cause.
pub open spec fn chart_update_effect(
    pre: Chart,
    post: Chart,
    force: bool,
    r: Result<(), UpdateError>,
) -> bool {
    &&& post.name@ == pre.name@
    &&& post.kind == pre.kind
    &&& post.source == pre.source
    &&& post.store.available == pre.store.available
    &&& ((r is Ok) <==> (pre.store.available && (serves(pre.cache.state, force)
        || pre.source.available)))
    &&& (r is Ok ==> post.store.model() == merge(
        pre.store.model(),
        cycle_rows(pre.cache.state, pre.source.model(), pre.store.model(), force),
    ) && post.cache.state is Empty)
    &&& (!(r is Ok) ==> post.store.model() == pre.store.model())
    &&& ((r == Err::<(), UpdateError>(UpdateError::SourceUnavailable)) <==> (!serves(
        pre.cache.state,
        force,
    ) && !pre.source.available))
    &&& ((r == Err::<(), UpdateError>(UpdateError::PersistenceFailure)) <==> (
    !pre.store.available && (serves(pre.cache.state, force) || pre.source.available)))
}

impl Chart {
    pub open spec fn wf(&self) -> bool {
        &&& self.store.wf()
        &&& self.source.wf()
        &&& !(self.cache.state is InFlight)
        &&& cache_rows_wf(self.cache.state)
    }

    /// A fresh chart: empty series, empty cache, the given source.
    pub fn new(name: String, kind: ChartKind, source: DataSource) -> (r: Chart)
        requires
            source.wf(),
        ensures
            r.wf(),
            r.name@ == name@,
            r.kind == kind,
            r.source == source,
            r.store.model() == Seq::<(crate::date::Date, Seq<char>)>::empty(),
            r.store.available,
            r.cache.state is Empty,
    {
        Chart { name, kind, cache: Cache::new(), store: Store::new(), source }
    }

    pub fn name(&self) -> (r: &str)
        ensures
            r@ == self.name@,
    {
        self.name.as_str()
    }

    pub fn kind(&self) -> (r: ChartKind)
        ensures
            r == self.kind,
    {
        self.kind
    }

    /// Runs one update cycle on this chart.
    pub fn update(&mut self, force: bool) -> (r: Result<(), UpdateError>)
        requires
            old(self).wf(),
        ensures
            final (self).wf(),
            chart_update_effect(*old(self), *final (self), force, r),
    {
        update_series(&mut self.cache, &mut self.store, &self.source, force)
    }
}


/// The daily-new-transactions metric: a line chart named `newTxns` over the
/// given source, the one metric this engine ships with.
pub fn new_txns(source: DataSource) -> (r: Chart)
    requires
        source.wf(),
    ensures
        r.wf(),
        r.name@ == "newTxns"@,
        r.kind == ChartKind::Line,
        r.source == source,
        r.store.model() == Seq::<(crate::date::Date, Seq<char>)>::empty(),
        r.store.available,
        r.cache.state is Empty,
{
    Chart::new("newTxns".to_owned(), ChartKind::Line, source)
}

/// Character-for-character string equality.
fn str_eq(a: &str, b: &str) -> (r: bool)
    ensures
        r == (a@ == b@),
{
    let n = a.unicode_len();
    if n != b.unicode_len() {
        return false;
    }
    let mut i: usize = 0;
    while i < n
        invariant
            n == a@.len(),
            n == b@.len(),
            i <= n,
            forall|k: int| 0 <= k < i ==> a@[k] == b@[k],
        decreases n - i,
    {
        if a.get_char(i) != b.get_char(i) {
            return false;
        }
        i = i + 1;
    }
    proof {
        assert(a@ =~= b@);
    }
    true
}

#[derive(Debug)]
pub struct ChartRegistry {
    pub charts: Vec<Chart>,
}

impl ChartRegistry {
    /// Every chart well formed, and no two charts under one name.
    pub open spec fn wf(&self) -> bool {
        &&& forall|i: int| 0 <= i < self.charts@.len() ==> (#[trigger] self.charts@[i]).wf()
        &&& forall|i: int, j: int|
            0 <= i < j < self.charts@.len() ==> (#[trigger] self.charts@[i]).name@ != (
            #[trigger] self.charts@[j]).name@
    }

    pub open spec fn has_chart(&self, name: Seq<char>) -> bool {
        exists|i: int| 0 <= i < self.charts@.len() && (#[trigger] self.charts@[i]).name@ == name
    }

    pub fn new() -> (r: ChartRegistry)
        ensures
            r.wf(),
            r.charts@.len() == 0,
    {
        ChartRegistry { charts: Vec::new() }
    }

    /// Adds a chart under its name, refusing a second chart of the same name.
    pub fn register(&mut self, chart: Chart) -> (r: Result<(), UpdateError>)
        requires
            old(self).wf(),
            chart.wf(),
        ensures
            final (self).wf(),
            (r is Ok) <==> !old(self).has_chart(chart.name@),
            r is Ok ==> final (self).charts@ == old(self).charts@.push(chart),
            !(r is Ok) ==> final (self).charts@ == old(self).charts@ && (r matches Err(
                UpdateError::Internal(m),
            ) && m@ == "chart name already registered"@),
    {
        let n = self.charts.len();
        let mut i: usize = 0;
        while i < n
            invariant
                n == self.charts.len(),
                i <= n,
                self.charts@ == old(self).charts@,
                self.wf(),
                forall|k: int| 0 <= k < i ==> (#[trigger] self.charts@[k]).name@ != chart.name@,
            decreases n - i,
        {
            if str_eq(self.charts[i].name.as_str(), chart.name.as_str()) {
                return Err(UpdateError::Internal("chart name already registered".to_owned()));
            }
            i = i + 1;
        }
        self.charts.push(chart);
        proof {
            let s = self.charts@;
            assert forall|p: int, q: int|
                0 <= p < q < s.len() implies (#[trigger] s[p]).name@ != (#[trigger] s[q]).name@ by {
                if q == s.len() - 1 {
                    assert(s[p] == old(self).charts@[p]);
                }
            }
        }
        Ok(())
    }

    /// Resolves a chart by name, failing with `NotFound` for an unknown one.
    pub fn get(&self, name: &str) -> (r: Result<&Chart, UpdateError>)
        requires
            self.wf(),
        ensures
            (r is Ok) <==> self.has_chart(name@),
            r matches Ok(c) ==> c.name@ == name@ && exists|i: int|
                0 <= i < self.charts@.len() && *c == #[trigger] self.charts@[i],
            r matches Err(e) ==> e matches UpdateError::NotFound(missing) && missing@ == name@,
    {
        let n = self.charts.len();
        let mut i: usize = 0;
        while i < n
            invariant
                n == self.charts.len(),
                i <= n,
                forall|k: int| 0 <= k < i ==> (#[trigger] self.charts@[k]).name@ != name@,
            decreases n - i,
        {
            if str_eq(self.charts[i].name.as_str(), name) {
                return Ok(&self.charts[i]);
            }
            i = i + 1;
        }
        Err(UpdateError::NotFound(name.to_owned()))
    }

    /// Resolves the named chart and runs one update cycle on it.  An unknown
    /// name fails with `NotFound` and touches no chart and no store state;
    /// a known one is updated in place, every other chart left as it was.
    pub fn update(&mut self, name: &str, force: bool) -> (r: Result<(), UpdateError>)
        requires
            old(self).wf(),
        ensures
            final (self).wf(),
            final (self).charts@.len() == old(self).charts@.len(),
            !old(self).has_chart(name@) ==> final (self).charts@ == old(self).charts@ && (r
                matches Err(UpdateError::NotFound(missing)) && missing@ == name@),
            old(self).has_chart(name@) ==> exists|i: int|
                0 <= i < old(self).charts@.len() && (#[trigger] old(self).charts@[i]).name@
                    == name@ && chart_update_effect(
                    old(self).charts@[i],
                    final (self).charts@[i],
                    force,
                    r,
                ) && (forall|j: int|
                    0 <= j < old(self).charts@.len() && j != i ==> final (self).charts@[j] == old(
                        self,
                    ).charts@[j]),
    {
        let n = self.charts.len();
        let mut i: usize = 0;
        while i < n
            invariant
                n == self.charts.len(),
                i <= n,
                self.charts@ == old(self).charts@,
                self.wf(),
                forall|k: int| 0 <= k < i ==> (#[trigger] self.charts@[k]).name@ != name@,
            decreases n - i,
        {
            if str_eq(self.charts[i].name.as_str(), name) {
                let ghost pre = self.charts@;
                let mut chart = self.charts.remove(i);
                let res = chart.update(force);
                self.charts.insert(i, chart);
                proof {
                    assert forall|j: int|
                        0 <= j < pre.len() && j != i implies self.charts@[j] == pre[j] by {}
                    assert(self.charts@[i as int] == chart);
                    assert forall|p: int, q: int|
                        0 <= p < q < self.charts@.len() implies (#[trigger] self.charts@[p]).name@
                        != (#[trigger] self.charts@[q]).name@ by {
                        assert(pre[p].name@ != pre[q].name@);
                    }
                }
                return res;
            }
            i = i + 1;
        }
        Err(UpdateError::NotFound(name.to_owned()))
    }
}

} // verus!
