//! The fetch scheduler: the decision core of the sliding-window fan-out.
//!
//! The scheduler owns the dispatch queue, the count of outstanding requests
//! and the accumulated outcomes; the surrounding driver performs the actual
//! network calls and hands each completion back, in whatever order they
//! finish. Dispatch order is exactly the identifier order. The window
//! invariant — never more than `limit` requests outstanding — and the
//! accounting invariant — every dispatched identifier yields exactly one
//! terminal outcome — are both part of the scheduler's well-formedness and
//! are preserved by every step.

use vstd::prelude::*;

use crate::reduce::RegistryEntry;

verus! {

/// Why fetching one package's metadata failed.
#[derive(Debug, Clone, PartialEq, Eq)]
pub enum FetchCause {
    /// The request did not complete at the transport level.
    Network,
    /// The registry answered with the given non-success status.
    BadStatus(u16),
    /// The body was not a decodable registry document.
    UndecodableBody,
}

/// A failed registry request: the identifier it was for, and why it failed.
#[derive(Debug, Clone, PartialEq, Eq)]
pub struct FetchError {
    /// The package identifier whose request failed.
    pub identifier: String,
    /// What went wrong.
    pub cause: FetchCause,
}

/// The terminal outcome of one dispatched request.
#[derive(Debug, Clone)]
pub enum FetchOutcome {
    /// The registry answered with a decodable entry.
    Success(RegistryEntry),
    /// The request failed; siblings are unaffected.
    Failure(FetchError),
}

/// The sliding-window scheduler state. All mutation goes through the
/// methods, which preserve well-formedness.
pub struct Scheduler {
    ids: Vec<String>,
    next: usize,
    outstanding: usize,
    limit: usize,
    results: Vec<FetchOutcome>,
}

impl Scheduler {
    /// The identifiers to fetch, in dispatch order.
    pub closed spec fn ids(&self) -> Seq<String> {
        self.ids@
    }

    /// How many identifiers have been dispatched so far.
    pub closed spec fn dispatched(&self) -> int {
        self.next as int
    }

    /// How many requests are in flight right now.
    pub closed spec fn outstanding(&self) -> int {
        self.outstanding as int
    }

    /// The window size: the cap on in-flight requests.
    pub closed spec fn limit(&self) -> int {
        self.limit as int
    }

    /// The outcomes collected so far, one per completed request, in
    /// completion order.
    pub closed spec fn results(&self) -> Seq<FetchOutcome> {
        self.results@
    }

    /// Well-formedness: dispatch never passes the identifier list, the
    /// window is respected, and every dispatched request is either still
    /// outstanding or accounted for by exactly one collected outcome.
    pub closed spec fn wf(&self) -> bool {
        &&& self.limit >= 1
        &&& self.next <= self.ids@.len()
        &&& self.outstanding <= self.limit
        &&& self.outstanding <= self.next
        &&& self.results@.len() + self.outstanding == self.next
    }

    /// A fresh scheduler: nothing dispatched, nothing outstanding.
    pub fn new(ids: Vec<String>, limit: usize) -> (s: Scheduler)
        requires
            limit >= 1,
        ensures
            s.wf(),
            s.ids() == ids@,
            s.dispatched() == 0,
            s.outstanding() == 0,
            s.limit() == limit,
            s.results() == Seq::<FetchOutcome>::empty(),
    {
        Scheduler { ids, next: 0, outstanding: 0, limit, results: Vec::new() }
    }

    /// Another identifier may be dispatched without breaking the window.
    pub fn can_dispatch(&self) -> (r: bool)
        ensures
            r == (self.dispatched() < self.ids().len() && self.outstanding() < self.limit()),
    {
        self.next < self.ids.len() && self.outstanding < self.limit
    }

    /// Hands out the next identifier to request, counting it as in flight.
    pub fn dispatch(&mut self) -> (id: String)
        requires
            old(self).wf(),
            old(self).dispatched() < old(self).ids().len(),
            old(self).outstanding() < old(self).limit(),
        ensures
            final(self).wf(),
            id == old(self).ids()[old(self).dispatched()],
            final(self).ids() == old(self).ids(),
            final(self).limit() == old(self).limit(),
            final(self).dispatched() == old(self).dispatched() + 1,
            final(self).outstanding() == old(self).outstanding() + 1,
            final(self).results() == old(self).results(),
    {
        let n = self.ids.len();
        proof {
            assert(self.next < n);
        }
        let id = self.ids[self.next].clone();
        self.next += 1;
        self.outstanding += 1;
        id
    }

    /// Records the terminal outcome of one in-flight request, in the order
    /// the completions arrive.
    pub fn complete(&mut self, outcome: FetchOutcome)
        requires
            old(self).wf(),
            old(self).outstanding() >= 1,
        ensures
            final(self).wf(),
            final(self).ids() == old(self).ids(),
            final(self).limit() == old(self).limit(),
            final(self).dispatched() == old(self).dispatched(),
            final(self).outstanding() == old(self).outstanding() - 1,
            final(self).results() == old(self).results().push(outcome),
    {
        self.outstanding -= 1;
        self.results.push(outcome);
    }

    /// Every identifier has been dispatched and every request has come back.
    pub fn is_done(&self) -> (r: bool)
        ensures
            r == (self.dispatched() == self.ids().len() && self.outstanding() == 0),
    {
        self.next == self.ids.len() && self.outstanding == 0
    }

    /// The driver must wait for a completion before anything else can
    /// happen: something is in flight and the window or the queue permits no
    /// further dispatch.
    pub fn must_wait(&self) -> (r: bool)
        ensures
            r == (self.outstanding() > 0 && (self.dispatched() == self.ids().len()
                || self.outstanding() == self.limit())),
    {
        self.outstanding > 0 && (self.next == self.ids.len() || self.outstanding == self.limit)
    }

    /// Gives up the collected outcomes.
    pub fn into_results(self) -> (r: Vec<FetchOutcome>)
        ensures
            r@ == self.results(),
    {
        self.results
    }

    /// Law: the window is never exceeded — at no instant are more than
    /// `limit` requests outstanding, whatever the identifier count.
    pub proof fn lemma_window_respected(&self)
        requires
            self.wf(),
        ensures
            self.outstanding() <= self.limit(),
    {
    }

    /// Law: nothing is dropped and nothing is duplicated — at every instant
    /// the collected outcomes and the in-flight requests together account
    /// exactly for the dispatched identifiers, and once the scheduler is
    /// done there is exactly one outcome per identifier.
    pub proof fn lemma_exactly_one_outcome_each(&self)
        requires
            self.wf(),
        ensures
            self.results().len() + self.outstanding() == self.dispatched(),
            (self.dispatched() == self.ids().len() && self.outstanding() == 0)
                ==> self.results().len() == self.ids().len(),
    {
    }
}

} // verus!
