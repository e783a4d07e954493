//! The transport manager's decisions. The gateway holds one connection to the
//! backend, shared by every call in flight. Whoever runs the calls tells the
//! manager what became of each; the manager says what to do next, and makes
//! sure that a broken connection is replaced by one caller at a time and
//! given up after a bounded number of attempts.

use vstd::prelude::*;

verus! {

/// What a call over a connection came to.
#[derive(Clone, Copy, Debug, PartialEq, Eq, Structural)]
pub enum CallOutcome {
    /// The backend answered.
    Completed,
    /// The backend ran the call and reported a failure of its own.
    ApplicationFailure,
    /// The connection itself failed.
    ConnectionFailure,
}

/// What the caller is to do next.
#[derive(Clone, Copy, Debug, PartialEq, Eq, Structural)]
pub enum Directive {
    /// Hand the backend's answer or failure on as it is.
    Deliver,
    /// Take the current connection and make the call again.
    Retry,
    /// Wait until the attempt under way is over, then ask again.
    Wait,
    /// Try to establish a new connection, and say how it went.
    Reconnect,
    /// Give the backend up as unreachable.
    GiveUp,
}

/// The model of the transport manager.
pub struct TransportModel {
    /// The number of the connection that calls are to use.
    pub current: u64,
    /// Whether a caller is replacing the connection.
    pub reconnecting: bool,
    /// How many attempts of that caller have failed so far.
    pub failures: u32,
    /// How many attempts a caller may make before it gives up.
    pub limit: u32,
}

impl TransportModel {
    /// The manager at start: connection 0, nobody reconnecting.
    pub open spec fn initial(limit: u32) -> TransportModel {
        TransportModel { current: 0, reconnecting: false, failures: 0, limit }
    }

    /// Failures are counted only while a caller reconnects, and stay under
    /// the limit.
    pub open spec fn well_formed(self) -> bool {
        if self.reconnecting {
            self.failures < self.limit
        } else {
            self.failures == 0
        }
    }

    /// The connection that follows the current one.
    pub open spec fn next_connection(self) -> u64 {
        if self.current == u64::MAX {
            0
        } else {
            (self.current + 1) as u64
        }
    }

    /// What follows when a call over connection `lease` came to `outcome`.
    ///
    /// An answer and a failure of the backend's own are delivered. After a
    /// failure of a connection that has been replaced meanwhile the call is
    /// made again; while another caller reconnects, this one waits; otherwise
    /// this caller reconnects, unless no attempt is allowed at all.
    pub open spec fn report(self, lease: u64, outcome: CallOutcome) -> (TransportModel, Directive) {
        if outcome != CallOutcome::ConnectionFailure {
            (self, Directive::Deliver)
        } else if lease != self.current {
            (self, Directive::Retry)
        } else if self.reconnecting {
            (self, Directive::Wait)
        } else if self.limit == 0 {
            (self, Directive::GiveUp)
        } else {
            (
                TransportModel {
                    current: self.current,
                    reconnecting: true,
                    failures: 0,
                    limit: self.limit,
                },
                Directive::Reconnect,
            )
        }
    }

    /// What a caller does that has waited for another's attempt, having
    /// failed on connection `lease`: it calls again where the connection was
    /// replaced, waits on while an attempt is under way, and gives up where
    /// the other did.
    pub open spec fn resume(self, lease: u64) -> Directive {
        if lease != self.current {
            Directive::Retry
        } else if self.reconnecting {
            Directive::Wait
        } else {
            Directive::GiveUp
        }
    }

    /// What follows when the reconnecting caller's attempt is over.
    ///
    /// A new connection replaces the current one and the call is made again.
    /// A failed attempt is followed by another until the limit is reached;
    /// then the caller gives up. Without a reconnect under way nothing
    /// changes.
    pub open spec fn reconnected(self, established: bool) -> (TransportModel, Directive) {
        if !self.reconnecting {
            (self, Directive::Retry)
        } else if established {
            (
                TransportModel {
                    current: self.next_connection(),
                    reconnecting: false,
                    failures: 0,
                    limit: self.limit,
                },
                Directive::Retry,
            )
        } else if self.failures + 1 < self.limit {
            (
                TransportModel {
                    current: self.current,
                    reconnecting: true,
                    failures: (self.failures + 1) as u32,
                    limit: self.limit,
                },
                Directive::Reconnect,
            )
        } else {
            (
                TransportModel {
                    current: self.current,
                    reconnecting: false,
                    failures: 0,
                    limit: self.limit,
                },
                Directive::GiveUp,
            )
        }
    }

    /// The manager after `count` failed attempts in a row.
    pub open spec fn after_failures(self, count: nat) -> TransportModel
        decreases count,
    {
        if count == 0 {
            self
        } else {
            self.after_failures((count - 1) as nat).reconnected(false).0
        }
    }
}

/// The transport manager.
#[derive(Debug)]
pub struct TransportManager {
    current: u64,
    reconnecting: bool,
    failures: u32,
    limit: u32,
}

impl View for TransportManager {
    type V = TransportModel;

    closed spec fn view(&self) -> TransportModel {
        TransportModel {
            current: self.current,
            reconnecting: self.reconnecting,
            failures: self.failures,
            limit: self.limit,
        }
    }
}

impl TransportManager {
    #[verifier::type_invariant]
    spec fn counted_within_limit(&self) -> bool {
        self@.well_formed()
    }

    /// A manager for a fresh connection, which lets a caller make `limit`
    /// attempts at replacing it.
    pub fn new(limit: u32) -> (r: TransportManager)
        ensures
            r@ == TransportModel::initial(limit),
    {
        TransportManager { current: 0, reconnecting: false, failures: 0, limit }
    }

    /// The number of the connection that a call is to use now.
    pub fn current(&self) -> (r: u64)
        ensures
            r == self@.current,
            self@.well_formed(),
    {
        proof {
            use_type_invariant(self);
        }
        self.current
    }

    /// Whether a caller is replacing the connection.
    pub fn is_reconnecting(&self) -> (r: bool)
        ensures
            r == self@.reconnecting,
    {
        self.reconnecting
    }

    /// Takes note that a call over connection `lease` came to `outcome`, and
    /// says what the caller is to do.
    pub fn report(&mut self, lease: u64, outcome: CallOutcome) -> (r: Directive)
        ensures
            (final(self)@, r) == old(self)@.report(lease, outcome),
            final(self)@.well_formed(),
    {
        proof {
            use_type_invariant(&*self);
        }
        match outcome {
            CallOutcome::ConnectionFailure => {
                if lease != self.current {
                    Directive::Retry
                } else if self.reconnecting {
                    Directive::Wait
                } else if self.limit == 0 {
                    Directive::GiveUp
                } else {
                    *self = TransportManager {
                        current: self.current,
                        reconnecting: true,
                        failures: 0,
                        limit: self.limit,
                    };
                    Directive::Reconnect
                }
            },
            _ => Directive::Deliver,
        }
    }

    /// Says what a caller is to do that failed on connection `lease` and has
    /// waited for another caller's attempt.
    pub fn resume(&self, lease: u64) -> (r: Directive)
        ensures
            r == self@.resume(lease),
    {
        if lease != self.current {
            Directive::Retry
        } else if self.reconnecting {
            Directive::Wait
        } else {
            Directive::GiveUp
        }
    }

    /// Takes note of how the reconnecting caller's attempt went, and says
    /// what that caller is to do.
    pub fn reconnected(&mut self, established: bool) -> (r: Directive)
        ensures
            (final(self)@, r) == old(self)@.reconnected(established),
            final(self)@.well_formed(),
    {
        proof {
            use_type_invariant(&*self);
        }
        if !self.reconnecting {
            Directive::Retry
        } else if established {
            let next = if self.current == u64::MAX {
                0
            } else {
                self.current + 1
            };
            *self = TransportManager {
                current: next,
                reconnecting: false,
                failures: 0,
                limit: self.limit,
            };
            Directive::Retry
        } else if self.failures + 1 < self.limit {
            *self = TransportManager {
                current: self.current,
                reconnecting: true,
                failures: self.failures + 1,
                limit: self.limit,
            };
            Directive::Reconnect
        } else {
            *self = TransportManager {
                current: self.current,
                reconnecting: false,
                failures: 0,
                limit: self.limit,
            };
            Directive::GiveUp
        }
    }
}

/// Every step leaves the manager well formed and its limit as it was.
pub proof fn lemma_steps_keep_well_formed(
    state: TransportModel,
    lease: u64,
    outcome: CallOutcome,
    established: bool,
)
    requires
        state.well_formed(),
    ensures
        state.report(lease, outcome).0.well_formed(),
        state.report(lease, outcome).0.limit == state.limit,
        state.reconnected(established).0.well_formed(),
        state.reconnected(established).0.limit == state.limit,
{
}

/// An answer and a failure of the backend's own are delivered as they are,
/// and leave the manager untouched: only a failed connection is acted on.
pub proof fn lemma_backend_failures_are_delivered(
    state: TransportModel,
    lease: u64,
    outcome: CallOutcome,
)
    requires
        outcome != CallOutcome::ConnectionFailure,
    ensures
        state.report(lease, outcome) == (state, Directive::Deliver),
{
}

/// At most one caller reconnects at a time: a report sends a caller to
/// reconnect only when nobody is reconnecting, and from then on somebody is.
pub proof fn lemma_one_reconnects(state: TransportModel, lease: u64, outcome: CallOutcome)
    ensures
        state.report(lease, outcome).1 == Directive::Reconnect ==> !state.reconnecting
            && state.report(lease, outcome).0.reconnecting,
        state.reconnecting ==> state.report(lease, outcome).1 != Directive::Reconnect,
        state.reconnecting && lease == state.current && outcome == CallOutcome::ConnectionFailure
            ==> state.report(lease, outcome).1 == Directive::Wait,
{
}

/// The current connection changes in one way only: a reconnect under way
/// establishes its successor. Until then every caller sees the old one.
pub proof fn lemma_connection_is_replaced_whole(
    state: TransportModel,
    lease: u64,
    outcome: CallOutcome,
    established: bool,
)
    ensures
        state.report(lease, outcome).0.current == state.current,
        state.reconnected(established).0.current == if state.reconnecting && established {
            state.next_connection()
        } else {
            state.current
        },
{
}

/// Attempts are bounded: a caller sent to reconnect is told to try again
/// after each failure until the limit is reached, and to give up then.
pub proof fn lemma_attempts_are_bounded(state: TransportModel, count: nat)
    requires
        state.reconnecting,
        state.failures == 0,
        state.well_formed(),
        count < state.limit,
    ensures
        state.after_failures(count) == (TransportModel {
            current: state.current,
            reconnecting: true,
            failures: count as u32,
            limit: state.limit,
        }),
        state.after_failures(count).reconnected(false).1 == if count + 1 < state.limit {
            Directive::Reconnect
        } else {
            Directive::GiveUp
        },
        count + 1 == state.limit ==> !state.after_failures(count).reconnected(false).0.reconnecting,
    decreases count,
{
    if count > 0 {
        lemma_attempts_are_bounded(state, (count - 1) as nat);
    }
}

} // verus!
