//! The single-flight memoization entry guarding one chart's computation.
//!
//! Each chart owns one entry for its lifetime.  At any moment the entry is
//! empty, holds a computation in flight, or holds the last finished value
//! together with the force-full mode it was computed under.  Callers drive it
//! through a small protocol: `request` assigns the caller a role — run the
//! computation, wait for the one in flight, or reuse the finished value — and
//! the winning caller reports back through `complete_success` or
//! `complete_failure`.  The laws at the bottom state the single-flight and
//! retry guarantees over whole sequences of requests.

use vstd::prelude::*;

verus! {

/// The entry's state machine.
#[derive(Debug)]
pub enum CacheState<T> {
    /// Nothing has run since the last reset.
    Empty,
    /// A computation is in flight; its outcome is still pending.
    InFlight,
    /// The last computation finished with this value, computed under this
    /// force-full mode.
    Ready { value: T, force: bool },
}

/// What a requesting caller is told to do.
#[derive(Clone, Copy, PartialEq, Eq, Structural, Debug)]
pub enum Role {
    /// This caller won the race: it alone runs the computation and reports
    /// the outcome.
    Compute,
    /// Another caller's computation is in flight; this caller waits and will
    /// share that outcome.
    Wait,
    /// A finished value computed under the requested mode is served as is,
    /// with no recomputation.
    Reuse,
}

/// One step of the protocol: the state after a request and the role the
/// caller is given.  A finished value is never served across a different
/// force-full mode than it was computed under; such a request recomputes.
pub open spec fn request_step<T>(s: CacheState<T>, force: bool) -> (CacheState<T>, Role) {
    match s {
        CacheState::Empty => (CacheState::InFlight, Role::Compute),
        CacheState::InFlight => (CacheState::InFlight, Role::Wait),
        CacheState::Ready { value, force: f } => if f == force {
            (CacheState::Ready { value, force: f }, Role::Reuse)
        } else {
            (CacheState::InFlight, Role::Compute)
        },
    }
}

#[derive(Debug)]
pub struct Cache<T> {
    pub state: CacheState<T>,
}

impl<T> Cache<T> {
    pub fn new() -> (r: Cache<T>)
        ensures
            r.state is Empty,
    {
        Cache { state: CacheState::Empty }
    }

    /// A caller arrives wanting the computation's value under the given
    /// force-full mode; the entry steps once and assigns it a role.
    pub fn request(&mut self, force: bool) -> (r: Role)
        ensures
            (final (self).state, r) == request_step(old(self).state, force),
    {
        let role: Role = match &self.state {
            CacheState::Empty => Role::Compute,
            CacheState::InFlight => Role::Wait,
            CacheState::Ready { value: _, force: f } => if *f == force {
                Role::Reuse
            } else {
                Role::Compute
            },
        };
        if role == Role::Compute {
            self.state = CacheState::InFlight;
        }
        role
    }

    /// The winning caller reports a finished value; every later request under
    /// the same mode is served this value until the entry is reset.
    pub fn complete_success(&mut self, value: T, force: bool)
        requires
            old(self).state is InFlight,
        ensures
            final (self).state == (CacheState::Ready { value, force }),
    {
        self.state = CacheState::Ready { value, force };
    }

    /// The winning caller reports failure.  The entry goes back to empty, so
    /// the failure is not replayed: the next request starts fresh.
    pub fn complete_failure(&mut self)
        requires
            old(self).state is InFlight,
        ensures
            final (self).state is Empty,
    {
        self.state = CacheState::Empty;
    }

    /// The explicit reset hook, fired after a successful update cycle so that
    /// the next cycle recomputes instead of serving the old value.
    pub fn invalidate(&mut self)
        ensures
            final (self).state is Empty,
    {
        self.state = CacheState::Empty;
    }

    /// The finished value, for the caller that was told to reuse it or for
    /// the update cycle that persists it.
    pub fn cached_value(&self) -> (r: &T)
        requires
            self.state is Ready,
        ensures
            *r == self.state->value,
    {
        match &self.state {
            CacheState::Ready { value, .. } => value,
            _ => vstd::pervasive::unreached(),
        }
    }
}

/// The states and roles a whole sequence of requests produces.
pub open spec fn run_requests<T>(s: CacheState<T>, forces: Seq<bool>) -> (CacheState<T>, Seq<Role>)
    decreases forces.len(),
{
    if forces.len() == 0 {
        (s, Seq::empty())
    } else {
        let first = request_step(s, forces[0]);
        let rest = run_requests(first.0, forces.drop_first());
        (rest.0, seq![first.1] + rest.1)
    }
}

/// Single-flight law: while one computation is in flight, any number of
/// further callers — whatever modes they ask for — are all made to wait.
/// None of them starts a second computation, and the entry is still waiting
/// on the same single flight afterwards, so the computation supplied to the
/// winning caller runs exactly once.
pub proof fn lemma_single_flight<T>(s: CacheState<T>, forces: Seq<bool>)
    requires
        s is InFlight,
    ensures
        run_requests(s, forces).0 == s,
        run_requests(s, forces).1.len() == forces.len(),
        forall|k: int|
            0 <= k < forces.len() ==> run_requests(s, forces).1[k] == Role::Wait,
    decreases forces.len(),
{
    if forces.len() > 0 {
        lemma_single_flight(request_step(s, forces[0]).0, forces.drop_first());
    }
}

/// Shared-outcome law: once the single flight finishes with a value, every
/// caller that requests under the same mode is served that very value, again
/// with no recomputation — so all callers of one flight observe one outcome.
pub proof fn lemma_shared_outcome<T>(value: T, force: bool, forces: Seq<bool>)
    requires
        forall|k: int| 0 <= k < forces.len() ==> forces[k] == force,
    ensures
        run_requests(CacheState::Ready { value, force }, forces).0 == (CacheState::Ready {
            value,
            force,
        }),
        run_requests(CacheState::Ready { value, force }, forces).1.len() == forces.len(),
        forall|k: int|
            0 <= k < forces.len() ==> run_requests(CacheState::Ready { value, force }, forces).1[k]
                == Role::Reuse,
    decreases forces.len(),
{
    if forces.len() > 0 {
        assert(forces[0] == force);
        lemma_shared_outcome(value, force, forces.drop_first());
    }
}

/// Retry law: after a failed computation the entry is empty (that is what
/// `complete_failure` ensures), and from the empty state the very next
/// request starts a fresh computation instead of replaying the failure.
pub proof fn lemma_retry_after_failure<T>(force: bool)
    ensures
        request_step(CacheState::<T>::Empty, force).1 == Role::Compute,
        request_step(CacheState::<T>::Empty, force).0 is InFlight,
{
}

} // verus!
