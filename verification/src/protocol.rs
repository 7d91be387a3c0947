//! The order of one privileged operation: acquire, spawn, drain, release.
//!
//! The caller performs the platform calls and reports what came of each as an
//! [`Event`]; the [`Session`] answers with the [`Action`] that is due next.
//! Whatever the platform answers, a granted authorization is released once
//! before the session proposes to finish, and never twice.

use vstd::prelude::*;
use crate::flags::acquire_policy_bits;
use crate::request::{AuthorizationRequest, ExecutionRequest};

verus! {

/// Exit status of a run whose output was relayed to its end.
pub const EXIT_SUCCESS: i32 = 0;

/// Exit status of a run that ended on a fatal error.
pub const EXIT_FAILURE: i32 = 1;

/// Where one invocation stands.
#[derive(Clone, Copy, Debug, PartialEq, Eq, Structural)]
pub enum Phase {
    /// Nothing has been asked of the trust authority yet.
    Unauthorized,
    /// The right was granted; the context is held.
    Authorized,
    /// The privileged process runs; its output is open.
    Spawned,
    /// The output has ended; the context is still held.
    Drained,
    /// The launch was refused; the context is still held.
    SpawnFailed,
    /// The right was refused; there is no context.
    Denied,
    /// The context has been destroyed.
    Released,
}

/// What the platform answered to the last action.
#[derive(Clone, Copy, Debug, PartialEq, Eq, Structural)]
pub enum Event {
    /// The trust authority granted the right.
    Granted,
    /// The trust authority refused, or the user cancelled.
    Refused,
    /// The privileged process was launched.
    Launched,
    /// The privileged process could not be launched.
    LaunchFailed,
    /// A read came back before the end of the output; more may follow.
    Output,
    /// The process closed its output.
    EndOfStream,
    /// The context was destroyed.
    Destroyed,
}

/// How an invocation ended.
#[derive(Clone, Copy, Debug, PartialEq, Eq, Structural)]
pub enum Outcome {
    /// The output was relayed to its end.
    Completed,
    /// The trust authority refused the right.
    AuthorizationDenied,
    /// The privileged process could not be launched.
    SpawnFailure,
}

/// What the caller has to do next.
#[derive(Clone, Copy, Debug, PartialEq, Eq, Structural)]
pub enum Action {
    /// Ask the trust authority for the right.
    Acquire,
    /// Launch the executable under the held context.
    Spawn,
    /// Read from the process's output.
    Read,
    /// Destroy the held context.
    Release,
    /// Stop: nothing is held any more.
    Finish(Outcome),
}

/// An event that cannot follow the action that was due.
#[derive(Clone, Copy, Debug, PartialEq, Eq, Structural)]
pub struct OutOfOrder {
    /// The phase in which the event arrived.
    pub phase: Phase,
    /// The event that was reported.
    pub event: Event,
}

/// The state of a session as contracts see it.
pub struct Ledger {
    /// The current phase.
    pub phase: Phase,
    /// Whether a launch has failed.
    pub spawn_failed: bool,
    /// How many times a context was obtained.
    pub acquired: nat,
    /// How many launches were attempted.
    pub spawn_attempts: nat,
    /// How many times a context was destroyed.
    pub released: nat,
}

/// The state before anything was asked.
pub open spec fn initial() -> Ledger {
    Ledger { phase: Phase::Unauthorized, spawn_failed: false, acquired: 0, spawn_attempts: 0, released: 0 }
}

/// The phases after which nothing more happens.
pub open spec fn is_terminal(phase: Phase) -> bool {
    phase == Phase::Denied || phase == Phase::Released
}

/// The phases in which a context is held and has to be released.
pub open spec fn holds_context(phase: Phase) -> bool {
    phase == Phase::Authorized || phase == Phase::Spawned || phase == Phase::Drained || phase
        == Phase::SpawnFailed
}

/// The state that follows `l` on `e`, where `e` answers the action due in `l`.
pub open spec fn step(l: Ledger, e: Event) -> Option<Ledger> {
    match (l.phase, e) {
        (Phase::Unauthorized, Event::Granted) => Some(
            Ledger { phase: Phase::Authorized, acquired: l.acquired + 1, ..l },
        ),
        (Phase::Unauthorized, Event::Refused) => Some(Ledger { phase: Phase::Denied, ..l }),
        (Phase::Authorized, Event::Launched) => Some(
            Ledger { phase: Phase::Spawned, spawn_attempts: l.spawn_attempts + 1, ..l },
        ),
        (Phase::Authorized, Event::LaunchFailed) => Some(
            Ledger {
                phase: Phase::SpawnFailed,
                spawn_failed: true,
                spawn_attempts: l.spawn_attempts + 1,
                ..l
            },
        ),
        (Phase::Spawned, Event::Output) => Some(l),
        (Phase::Spawned, Event::EndOfStream) => Some(Ledger { phase: Phase::Drained, ..l }),
        (Phase::Drained, Event::Destroyed) => Some(
            Ledger { phase: Phase::Released, released: l.released + 1, ..l },
        ),
        (Phase::SpawnFailed, Event::Destroyed) => Some(
            Ledger { phase: Phase::Released, released: l.released + 1, ..l },
        ),
        _ => None,
    }
}

/// How the invocation ended, once it has.
pub open spec fn outcome_of(l: Ledger) -> Option<Outcome> {
    match l.phase {
        Phase::Denied => Some(Outcome::AuthorizationDenied),
        Phase::Released => Some(
            if l.spawn_failed {
                Outcome::SpawnFailure
            } else {
                Outcome::Completed
            },
        ),
        _ => None,
    }
}

/// The action that is due in `l`.
pub open spec fn pending_action(l: Ledger) -> Action {
    match l.phase {
        Phase::Unauthorized => Action::Acquire,
        Phase::Authorized => Action::Spawn,
        Phase::Spawned => Action::Read,
        Phase::Drained => Action::Release,
        Phase::SpawnFailed => Action::Release,
        Phase::Denied => Action::Finish(Outcome::AuthorizationDenied),
        Phase::Released => Action::Finish(
            if l.spawn_failed {
                Outcome::SpawnFailure
            } else {
                Outcome::Completed
            },
        ),
    }
}

/// The counters agree with the phase: a context is held exactly between its
/// one acquisition and its one release.
pub open spec fn consistent(l: Ledger) -> bool {
    match l.phase {
        Phase::Unauthorized | Phase::Denied => {
            &&& l.acquired == 0
            &&& l.spawn_attempts == 0
            &&& l.released == 0
            &&& !l.spawn_failed
        },
        Phase::Authorized => {
            &&& l.acquired == 1
            &&& l.spawn_attempts == 0
            &&& l.released == 0
            &&& !l.spawn_failed
        },
        Phase::Spawned | Phase::Drained => {
            &&& l.acquired == 1
            &&& l.spawn_attempts == 1
            &&& l.released == 0
            &&& !l.spawn_failed
        },
        Phase::SpawnFailed => {
            &&& l.acquired == 1
            &&& l.spawn_attempts == 1
            &&& l.released == 0
            &&& l.spawn_failed
        },
        Phase::Released => {
            &&& l.acquired == 1
            &&& l.spawn_attempts == 1
            &&& l.released == 1
        },
    }
}

/// The exit status that reports `outcome`.
pub open spec fn exit_status_of(outcome: Outcome) -> i32 {
    match outcome {
        Outcome::Completed => EXIT_SUCCESS,
        Outcome::AuthorizationDenied => EXIT_FAILURE,
        Outcome::SpawnFailure => EXIT_FAILURE,
    }
}

impl Outcome {
    /// The exit status that reports this outcome: zero for a completed run
    /// only.
    pub fn exit_status(&self) -> (r: i32)
        ensures
            r == exit_status_of(*self),
            r == 0 <==> *self == Outcome::Completed,
    {
        match self {
            Outcome::Completed => EXIT_SUCCESS,
            Outcome::AuthorizationDenied => EXIT_FAILURE,
            Outcome::SpawnFailure => EXIT_FAILURE,
        }
    }
}

/// Phase and counters of a session, replaced as one value on each step.
#[derive(Clone, Copy, Debug)]
struct Tally {
    phase: Phase,
    spawn_failed: bool,
    acquired: u8,
    spawn_attempts: u8,
    released: u8,
}

/// One privileged operation, from the request for the right to its release.
#[derive(Debug)]
pub struct Session {
    tally: Tally,
    authorization: AuthorizationRequest,
    execution: ExecutionRequest,
}

impl View for Session {
    type V = Ledger;

    closed spec fn view(&self) -> Ledger {
        Ledger {
            phase: self.tally.phase,
            spawn_failed: self.tally.spawn_failed,
            acquired: self.tally.acquired as nat,
            spawn_attempts: self.tally.spawn_attempts as nat,
            released: self.tally.released as nat,
        }
    }
}

impl Session {
    #[verifier::type_invariant]
    spec fn well_formed(self) -> bool {
        consistent(self@)
    }

    /// What is to be run under the right.
    pub closed spec fn job(&self) -> ExecutionRequest {
        self.execution
    }

    /// What is asked of the trust authority.
    pub closed spec fn petition(&self) -> AuthorizationRequest {
        self.authorization
    }

    /// A session for running `execution` as administrator, in which nothing
    /// has been asked yet. The right it will ask for is the administrative
    /// one alone.
    pub fn begin(execution: ExecutionRequest) -> (s: Session)
        ensures
            s@ == initial(),
            s.job() == execution,
            s.petition().rights() == seq!["system.privilege.admin"@],
            s.petition().policy() == acquire_policy_bits(),
    {
        Session {
            tally: Tally {
                phase: Phase::Unauthorized,
                spawn_failed: false,
                acquired: 0,
                spawn_attempts: 0,
                released: 0,
            },
            authorization: AuthorizationRequest::administrator(),
            execution,
        }
    }

    /// What is asked of the trust authority when the action due is
    /// [`Action::Acquire`].
    pub fn authorization(&self) -> (r: &AuthorizationRequest)
        ensures
            *r == self.petition(),
    {
        &self.authorization
    }

    /// What is launched when the action due is [`Action::Spawn`].
    pub fn execution(&self) -> (r: &ExecutionRequest)
        ensures
            *r == self.job(),
    {
        &self.execution
    }

    /// The current phase, with which the counters of the session agree.
    pub fn phase(&self) -> (r: Phase)
        ensures
            r == self@.phase,
            consistent(self@),
    {
        proof {
            use_type_invariant(self);
        }
        self.tally.phase
    }

    /// How many times a context was obtained: 0 or 1.
    pub fn acquisitions(&self) -> (r: u8)
        ensures
            r == self@.acquired,
            r <= 1,
    {
        proof {
            use_type_invariant(self);
        }
        self.tally.acquired
    }

    /// How many launches were attempted: 0 or 1.
    pub fn spawn_attempts(&self) -> (r: u8)
        ensures
            r == self@.spawn_attempts,
            r <= 1,
    {
        proof {
            use_type_invariant(self);
        }
        self.tally.spawn_attempts
    }

    /// How many times a context was destroyed: 0 or 1.
    pub fn releases(&self) -> (r: u8)
        ensures
            r == self@.released,
            r <= self@.acquired,
    {
        proof {
            use_type_invariant(self);
        }
        self.tally.released
    }

    /// Whether a context is held that has yet to be released.
    pub fn holds_context(&self) -> (r: bool)
        ensures
            r == holds_context(self@.phase),
            r <==> self@.acquired == 1 && self@.released == 0,
    {
        proof {
            use_type_invariant(self);
        }
        match self.tally.phase {
            Phase::Authorized | Phase::Spawned | Phase::Drained | Phase::SpawnFailed => true,
            _ => false,
        }
    }

    /// How the invocation ended; `None` while it goes on.
    pub fn outcome(&self) -> (r: Option<Outcome>)
        ensures
            r == outcome_of(self@),
            r is Some <==> is_terminal(self@.phase),
    {
        match self.tally.phase {
            Phase::Denied => Some(Outcome::AuthorizationDenied),
            Phase::Released => Some(
                if self.tally.spawn_failed {
                    Outcome::SpawnFailure
                } else {
                    Outcome::Completed
                },
            ),
            _ => None,
        }
    }

    /// The action that is due now.
    pub fn pending(&self) -> (r: Action)
        ensures
            r == pending_action(self@),
    {
        match self.tally.phase {
            Phase::Unauthorized => Action::Acquire,
            Phase::Authorized => Action::Spawn,
            Phase::Spawned => Action::Read,
            Phase::Drained => Action::Release,
            Phase::SpawnFailed => Action::Release,
            Phase::Denied => Action::Finish(Outcome::AuthorizationDenied),
            Phase::Released => Action::Finish(
                if self.tally.spawn_failed {
                    Outcome::SpawnFailure
                } else {
                    Outcome::Completed
                },
            ),
        }
    }

    /// Takes the platform's answer to the action that was due and says what is
    /// due next. An event that does not answer that action is refused and
    /// leaves the session as it was.
    pub fn advance(&mut self, event: Event) -> (r: Result<Action, OutOfOrder>)
        ensures
            match step(old(self)@, event) {
                Some(next) => final(self)@ == next && r == Ok::<Action, OutOfOrder>(
                    pending_action(next),
                ),
                None => final(self)@ == old(self)@ && r == Err::<Action, OutOfOrder>(
                    OutOfOrder { phase: old(self)@.phase, event },
                ),
            },
            consistent(final(self)@),
            final(self).job() == old(self).job(),
            final(self).petition() == old(self).petition(),
    {
        proof {
            use_type_invariant(&*self);
        }
        let now = self.tally;
        let next = match (now.phase, event) {
            (Phase::Unauthorized, Event::Granted) => Tally {
                phase: Phase::Authorized,
                acquired: now.acquired + 1,
                ..now
            },
            (Phase::Unauthorized, Event::Refused) => Tally { phase: Phase::Denied, ..now },
            (Phase::Authorized, Event::Launched) => Tally {
                phase: Phase::Spawned,
                spawn_attempts: now.spawn_attempts + 1,
                ..now
            },
            (Phase::Authorized, Event::LaunchFailed) => Tally {
                phase: Phase::SpawnFailed,
                spawn_failed: true,
                spawn_attempts: now.spawn_attempts + 1,
                ..now
            },
            (Phase::Spawned, Event::Output) => now,
            (Phase::Spawned, Event::EndOfStream) => Tally { phase: Phase::Drained, ..now },
            (Phase::Drained, Event::Destroyed) | (Phase::SpawnFailed, Event::Destroyed) => Tally {
                phase: Phase::Released,
                released: now.released + 1,
                ..now
            },
            _ => {
                return Err(OutOfOrder { phase: now.phase, event });
            },
        };
        self.tally = next;
        Ok(self.pending())
    }
}

} // verus!
