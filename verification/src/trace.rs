//! What holds of every run of the protocol, stated over the events that the
//! platform may report in any order and number.

use vstd::prelude::*;
use crate::protocol::{
    consistent, exit_status_of, holds_context, initial, is_terminal, outcome_of, pending_action,
    step, Action, Event, Ledger, Outcome, Phase,
};

verus! {

/// The state that a fresh session reaches on `events`, or `None` where one of
/// them does not answer the action that was due.
pub open spec fn replay(events: Seq<Event>) -> Option<Ledger>
    decreases events.len(),
{
    if events.len() == 0 {
        Some(initial())
    } else {
        match replay(events.drop_last()) {
            Some(l) => step(l, events.last()),
            None => None,
        }
    }
}

/// How often `e` occurs in `events`.
pub open spec fn occurrences(events: Seq<Event>, e: Event) -> nat
    decreases events.len(),
{
    if events.len() == 0 {
        0
    } else {
        occurrences(events.drop_last(), e) + if events.last() == e {
            1nat
        } else {
            0nat
        }
    }
}

/// `e` reports what came of the action `a`.
pub open spec fn answers(e: Event, a: Action) -> bool {
    match a {
        Action::Acquire => e == Event::Granted || e == Event::Refused,
        Action::Spawn => e == Event::Launched || e == Event::LaunchFailed,
        Action::Read => e == Event::Output || e == Event::EndOfStream,
        Action::Release => e == Event::Destroyed,
        Action::Finish(_) => false,
    }
}

/// How many answers, output aside, are still to come before the session ends.
pub open spec fn steps_left(phase: Phase) -> nat {
    match phase {
        Phase::Unauthorized => 4,
        Phase::Authorized => 3,
        Phase::Spawned => 2,
        Phase::Drained => 1,
        Phase::SpawnFailed => 1,
        Phase::Denied => 0,
        Phase::Released => 0,
    }
}

/// The counters of a session are the numbers of the events it has seen, and
/// they agree with its phase.
pub proof fn lemma_replay_counts(events: Seq<Event>)
    ensures
        replay(events) matches Some(l) ==> {
            &&& consistent(l)
            &&& l.acquired == occurrences(events, Event::Granted)
            &&& l.released == occurrences(events, Event::Destroyed)
            &&& l.spawn_attempts == occurrences(events, Event::Launched) + occurrences(
                events,
                Event::LaunchFailed,
            )
            &&& occurrences(events, Event::Refused) == if l.phase == Phase::Denied {
                1nat
            } else {
                0nat
            }
            &&& occurrences(events, Event::LaunchFailed) == if l.spawn_failed {
                1nat
            } else {
                0nat
            }
        },
    decreases events.len(),
{
    if events.len() > 0 {
        lemma_replay_counts(events.drop_last());
    }
}

/// A granted authorization is released once on every path that ends, and is
/// never released before it was granted or more than once on the way.
pub proof fn law_release_matches_acquisition(events: Seq<Event>)
    requires
        replay(events) is Some,
    ensures
        occurrences(events, Event::Granted) <= 1,
        occurrences(events, Event::Destroyed) <= occurrences(events, Event::Granted),
        is_terminal(replay(events)->0.phase) ==> occurrences(events, Event::Destroyed)
            == occurrences(events, Event::Granted),
        holds_context(replay(events)->0.phase) <==> occurrences(events, Event::Granted) == 1
            && occurrences(events, Event::Destroyed) == 0,
{
    lemma_replay_counts(events);
}

/// After a refusal nothing is launched and nothing is released, and the run
/// ends at once with a status other than zero.
pub proof fn law_denial_releases_nothing(events: Seq<Event>)
    requires
        replay(events) is Some,
        occurrences(events, Event::Refused) > 0,
    ensures
        occurrences(events, Event::Granted) == 0,
        occurrences(events, Event::Destroyed) == 0,
        occurrences(events, Event::Launched) + occurrences(events, Event::LaunchFailed) == 0,
        replay(events)->0.phase == Phase::Denied,
        outcome_of(replay(events)->0) == Some(Outcome::AuthorizationDenied),
        pending_action(replay(events)->0) == Action::Finish(Outcome::AuthorizationDenied),
        exit_status_of(Outcome::AuthorizationDenied) != 0,
{
    lemma_replay_counts(events);
}

/// After a failed launch the context is still held, the one action that is
/// due is its release, and the run that ends has released it once and reports
/// a status other than zero.
pub proof fn law_spawn_failure_releases_once(events: Seq<Event>)
    requires
        replay(events) is Some,
        occurrences(events, Event::LaunchFailed) > 0,
    ensures
        occurrences(events, Event::Granted) == 1,
        !is_terminal(replay(events)->0.phase) ==> pending_action(replay(events)->0)
            == Action::Release,
        is_terminal(replay(events)->0.phase) ==> {
            &&& occurrences(events, Event::Destroyed) == 1
            &&& outcome_of(replay(events)->0) == Some(Outcome::SpawnFailure)
            &&& pending_action(replay(events)->0) == Action::Finish(Outcome::SpawnFailure)
        },
        exit_status_of(Outcome::SpawnFailure) != 0,
{
    lemma_replay_counts(events);
}

/// A run reports success only where the right was granted, the process was
/// launched, its output ended, and the context was released.
pub proof fn law_completed_run(events: Seq<Event>)
    requires
        replay(events) is Some,
        outcome_of(replay(events)->0) == Some(Outcome::Completed),
    ensures
        occurrences(events, Event::Granted) == 1,
        occurrences(events, Event::Launched) == 1,
        occurrences(events, Event::LaunchFailed) == 0,
        occurrences(events, Event::Refused) == 0,
        occurrences(events, Event::Destroyed) == 1,
        exit_status_of(Outcome::Completed) == 0,
{
    lemma_replay_counts(events);
}

/// An event is accepted exactly where it reports what came of the action
/// that was due: a context is destroyed only when its release was asked for,
/// a process launched only when the launch was.
pub proof fn law_events_answer_the_pending_action(l: Ledger, e: Event)
    ensures
        step(l, e) is Some <==> answers(e, pending_action(l)),
{
}

/// The session proposes to finish exactly where nothing is held any more, and
/// accepts nothing after that: no second launch, no second release.
pub proof fn law_finish_only_when_released(l: Ledger, e: Event)
    requires
        consistent(l),
    ensures
        (pending_action(l) matches Action::Finish(_)) <==> is_terminal(l.phase),
        is_terminal(l.phase) ==> step(l, e) is None,
        is_terminal(l.phase) ==> l.released == l.acquired,
        holds_context(l.phase) ==> l.released == 0 && l.acquired == 1,
        pending_action(l) == Action::Release ==> holds_context(l.phase),
        pending_action(l) == Action::Spawn ==> l.phase == Phase::Authorized,
{
}

/// Every answer but output brings the session nearer to its end, and every
/// session that has not ended accepts some answer: wherever a context is
/// held, the release is at most three answers away.
pub proof fn law_progress(l: Ledger, e: Event)
    ensures
        step(l, e) matches Some(next) ==> {
            &&& consistent(l) ==> consistent(next)
            &&& e != Event::Output ==> steps_left(next.phase) < steps_left(l.phase)
            &&& e == Event::Output ==> next == l
        },
        !is_terminal(l.phase) ==> exists|a: Event| a != Event::Output && (#[trigger] step(l, a))
            is Some,
        is_terminal(l.phase) <==> steps_left(l.phase) == 0,
        holds_context(l.phase) ==> 1 <= steps_left(l.phase) <= 3,
{
    match l.phase {
        Phase::Unauthorized => {
            assert(step(l, Event::Granted) is Some);
        },
        Phase::Authorized => {
            assert(step(l, Event::Launched) is Some);
        },
        Phase::Spawned => {
            assert(step(l, Event::EndOfStream) is Some);
        },
        Phase::Drained => {
            assert(step(l, Event::Destroyed) is Some);
        },
        Phase::SpawnFailed => {
            assert(step(l, Event::Destroyed) is Some);
        },
        _ => {},
    }
}

/// A run that was accepted stays accepted when it is cut short: each prefix
/// of it is a run of its own.
pub proof fn law_prefix_of_a_run_is_a_run(events: Seq<Event>, n: int)
    requires
        replay(events) is Some,
        0 <= n <= events.len(),
    ensures
        replay(events.take(n)) is Some,
    decreases events.len(),
{
    if n == events.len() {
        assert(events.take(n) =~= events);
    } else {
        law_prefix_of_a_run_is_a_run(events.drop_last(), n);
        assert(events.drop_last().take(n) =~= events.take(n));
    }
}

} // verus!
