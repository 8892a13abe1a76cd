//! The incremental update cycle, and the laws it obeys.
//!
//! One cycle: pick the checkpoint (the store's last date, or none under a
//! force-full request), acquire the chart's cache so concurrent callers share
//! one computation, read the rows past the checkpoint from the data source,
//! and upsert them into the store as one atomic batch.  Nothing advances on
//! failure, so a later call naturally retries from the same point.

use vstd::prelude::*;

use crate::cache::{Cache, CacheState, Role};
use crate::date::Date;
use crate::error::UpdateError;
use crate::series::{
    filter_after, last_date_of, merge, rows_model, sorted_dates, wf_rows, DateValue,
};
use crate::source::DataSource;
use crate::store::Store;

verus! {

/// The checkpoint a cycle fetches from: absent under a force-full request,
/// else the store's greatest persisted date.
pub open spec fn checkpoint_for(store: Seq<(Date, Seq<char>)>, force: bool) -> Option<Date> {
    if force {
        None
    } else {
        last_date_of(store)
    }
}

/// One update cycle on the series itself: merge in whatever the source
/// yields past the checkpoint.
pub open spec fn update_step(
    store: Seq<(Date, Seq<char>)>,
    source: Seq<(Date, Seq<char>)>,
    force: bool,
) -> Seq<(Date, Seq<char>)> {
    merge(store, filter_after(source, checkpoint_for(store, force)))
}

/// A finished cache value may satisfy a request only under the very mode it
/// was computed with.
pub open spec fn serves(c: CacheState<Vec<DateValue>>, force: bool) -> bool {
    c is Ready && c->force == force
}

/// Whatever rows a cache holds finished are themselves a well-formed series
/// (they came out of a data source); the cycle relies on that to upsert them.
pub open spec fn cache_rows_wf(c: CacheState<Vec<DateValue>>) -> bool {
    c is Ready ==> wf_rows(rows_model(c->value@))
}

/// The rows one cycle persists: a still-valid finished value, or else what
/// the source yields past the checkpoint.
pub open spec fn cycle_rows(
    c: CacheState<Vec<DateValue>>,
    source: Seq<(Date, Seq<char>)>,
    store: Seq<(Date, Seq<char>)>,
    force: bool,
) -> Seq<(Date, Seq<char>)> {
    if serves(c, force) {
        rows_model(c->value@)
    } else {
        filter_after(source, checkpoint_for(store, force))
    }
}

/// One update cycle over a chart's cache, store and data source.
///
/// The whole cycle is meant to run serialized per chart (the caller holds the
/// chart to itself for its duration), so no computation is pending when it
/// begins; the cache still shares one flight among callers that arrive while
/// a cycle runs.  Success is owed exactly when the store is reachable and
/// either a finished value still serves or the source is reachable; each
/// failure kind surfaces unchanged, with the series — and so the checkpoint —
/// left untouched.
pub fn update_series(
    cache: &mut Cache<Vec<DateValue>>,
    store: &mut Store,
    source: &DataSource,
    force: bool,
) -> (r: Result<(), UpdateError>)
    requires
        old(store).wf(),
        source.wf(),
        !(old(cache).state is InFlight),
        cache_rows_wf(old(cache).state),
    ensures
        final (store).wf(),
        final (store).available == old(store).available,
        !(final (cache).state is InFlight),
        cache_rows_wf(final (cache).state),
        (r is Ok) <==> (old(store).available && (serves(old(cache).state, force)
            || source.available)),
        r is Ok ==> final (store).model() == merge(
            old(store).model(),
            cycle_rows(old(cache).state, source.model(), old(store).model(), force),
        ) && final (cache).state is Empty,
        !(r is Ok) ==> final (store).model() == old(store).model(),
        (r == Err::<(), UpdateError>(UpdateError::SourceUnavailable)) <==> (!serves(
            old(cache).state,
            force,
        ) && !source.available),
        r == Err::<(), UpdateError>(UpdateError::SourceUnavailable) ==> final (cache).state
            is Empty,
        (r == Err::<(), UpdateError>(UpdateError::PersistenceFailure)) <==> (!old(store).available
            && (serves(old(cache).state, force) || source.available)),
        r == Err::<(), UpdateError>(UpdateError::PersistenceFailure) ==> serves(
            final (cache).state,
            force,
        ) && rows_model(final (cache).state->value@) == cycle_rows(
            old(cache).state,
            source.model(),
            old(store).model(),
            force,
        ),
{
    let checkpoint: Option<Date> = if force {
        None
    } else {
        store.last_date()
    };
    let role = cache.request(force);
    if role == Role::Compute {
        match source.read_values(checkpoint) {
            Ok(rows) => {
                proof {
                    crate::series::lemma_filter_sorted(source.model(), checkpoint);
                }
                cache.complete_success(rows, force);
            },
            Err(e) => {
                cache.complete_failure();
                return Err(e);
            },
        }
    }
    let rows = cache.cached_value();
    let persisted = store.upsert(rows);
    match persisted {
        Ok(()) => {
            cache.invalidate();
            Ok(())
        },
        Err(e) => Err(e),
    }
}

/// Idempotence law: two incremental cycles with no source activity between
/// them persist the same series as one — re-running `update` cannot change
/// what already stands.
pub proof fn lemma_update_idempotent(
    store: Seq<(Date, Seq<char>)>,
    source: Seq<(Date, Seq<char>)>,
)
    requires
        sorted_dates(store),
        sorted_dates(source),
    ensures
        update_step(update_step(store, source, false), source, false) == update_step(
            store,
            source,
            false,
        ),
{
    let cp = checkpoint_for(store, false);
    let f = filter_after(source, cp);
    crate::series::lemma_filter_sorted(source, cp);
    crate::series::lemma_filter_ends(source, cp);
    if f.len() == 0 {
        assert(update_step(store, source, false) == store);
    } else {
        let t1 = update_step(store, source, false);
        if store.len() == 0 {
            assert(t1 == f);
        } else {
            crate::series::lemma_merge_append(store, f);
            assert(t1 == store + f);
            assert(t1.last() == f.last());
        }
        // The source's own last row survives the filter: were it held back by
        // the checkpoint, every earlier row would be held back too and the
        // filtered batch would be empty.
        if !crate::series::passes_after(source.last().0, cp) {
            assert forall|i: int|
                0 <= i < source.len() implies !crate::series::passes_after(
                #[trigger] source[i].0,
                cp,
            ) by {
                let c = cp->0;
                if i < source.len() - 1 {
                    crate::date::lemma_date_order(c, source[i].0);
                    if c.before(source[i].0) {
                        crate::date::lemma_before_trans(c, source[i].0, source.last().0);
                    }
                }
            }
            assert(f.len() == 0);
        }
        assert(f.last() == source.last());
        assert(t1.last() == source.last());
        // Nothing in the source lies after the new checkpoint, so the second
        // cycle fetches an empty batch and merges nothing.
        let cp2 = checkpoint_for(t1, false);
        assert(cp2 == Some(source.last().0));
        assert forall|i: int|
            0 <= i < source.len() implies !crate::series::passes_after(
            #[trigger] source[i].0,
            cp2,
        ) by {
            crate::date::lemma_date_order(source.last().0, source[i].0);
        }
        crate::series::lemma_filter_ends(source, cp2);
        assert(filter_after(source, cp2) == Seq::<(Date, Seq<char>)>::empty());
        assert(update_step(t1, source, false) == merge(t1, Seq::<(Date, Seq<char>)>::empty()));
        assert(update_step(t1, source, false) == t1);
    }
}

/// Incrementality law: for a persisted series ending at some date, an
/// incremental cycle appends exactly the source rows dated after it — the
/// rows up to that date stand unchanged, byte for byte.
pub proof fn lemma_update_incremental(
    store: Seq<(Date, Seq<char>)>,
    source: Seq<(Date, Seq<char>)>,
)
    requires
        sorted_dates(store),
        sorted_dates(source),
        store.len() > 0,
    ensures
        update_step(store, source, false) == store + filter_after(
            source,
            Some(store.last().0),
        ),
{
    let cp = Some(store.last().0);
    crate::series::lemma_filter_sorted(source, cp);
    crate::series::lemma_merge_append(store, filter_after(source, cp));
}

/// Checkpoint monotonicity law: an incremental cycle never moves the
/// checkpoint backward — the updated series ends no earlier than the old one.
/// Only an explicit full recompute may rewrite history.
pub proof fn lemma_checkpoint_monotonic(
    store: Seq<(Date, Seq<char>)>,
    source: Seq<(Date, Seq<char>)>,
)
    requires
        sorted_dates(store),
        sorted_dates(source),
        store.len() > 0,
    ensures
        update_step(store, source, false).len() > 0,
        store.last().0.on_or_before(update_step(store, source, false).last().0),
{
    let cp = Some(store.last().0);
    let f = filter_after(source, cp);
    crate::series::lemma_filter_sorted(source, cp);
    lemma_update_incremental(store, source);
    if f.len() == 0 {
        assert(store + f =~= store);
    } else {
        assert((store + f).last() == f.last());
        assert(store.last().0.before(f.last().0));
    }
}

/// Force-full equivalence law: when the persisted series already equals what
/// the source yields in full, a force-full cycle reproduces it unchanged.
pub proof fn lemma_force_full_equivalence(series: Seq<(Date, Seq<char>)>)
    requires
        sorted_dates(series),
    ensures
        update_step(series, series, true) == series,
{
    crate::series::lemma_filter_ends(series, None);
    assert(filter_after(series, checkpoint_for(series, true)) == series);
    crate::series::lemma_merge_self(series);
}

} // verus!
