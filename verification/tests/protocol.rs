//! The order of acquire, spawn, drain and release, against a platform that
//! counts what is asked of it.

use elevated_exec::protocol::{Action, Event, Outcome, OutOfOrder, Phase, Session};
use elevated_exec::request::ExecutionRequest;
use elevated_exec::stream::LineBuffer;

/// A platform that answers as it is told to and counts the calls.
struct Platform {
    grants: bool,
    launches: bool,
    output: Vec<u8>,
    chunk: usize,
    offset: usize,
    acquire_calls: u32,
    spawn_calls: u32,
    read_calls: u32,
    release_calls: u32,
    context_held: bool,
    spawned_path: String,
    spawned_args: Vec<String>,
    requested_rights: Vec<String>,
    requested_flags: u32,
}

fn platform(grants: bool, launches: bool, output: &[u8], chunk: usize) -> Platform {
    Platform {
        grants,
        launches,
        output: output.to_vec(),
        chunk,
        offset: 0,
        acquire_calls: 0,
        spawn_calls: 0,
        read_calls: 0,
        release_calls: 0,
        context_held: false,
        spawned_path: String::new(),
        spawned_args: Vec::new(),
        requested_rights: Vec::new(),
        requested_flags: 0,
    }
}

fn session_for(path: &str, args: &[&str]) -> Session {
    let args: Vec<String> = args.iter().map(|a| a.to_string()).collect();
    let request = match ExecutionRequest::new(path.to_string(), args) {
        Ok(request) => request,
        Err(e) => panic!("{:?}", e),
    };
    Session::begin(request)
}

/// Performs the actions that the session asks for until it asks to finish.
fn drive(session: &mut Session, platform: &mut Platform) -> (Outcome, Vec<String>) {
    let mut lines: Vec<String> = Vec::new();
    let mut buffer = Some(LineBuffer::new());
    let mut action = session.pending();
    let mut steps = 0;
    loop {
        steps += 1;
        assert!(steps < 10_000);
        let event = match action {
            Action::Acquire => {
                platform.acquire_calls += 1;
                platform.requested_rights = session.authorization().right_names().clone();
                platform.requested_flags = session.authorization().flags().bits();
                if platform.grants {
                    platform.context_held = true;
                    Event::Granted
                } else {
                    Event::Refused
                }
            }
            Action::Spawn => {
                assert!(platform.context_held);
                platform.spawn_calls += 1;
                platform.spawned_path = session.execution().executable().clone();
                platform.spawned_args = session.execution().args().clone();
                if platform.launches {
                    Event::Launched
                } else {
                    Event::LaunchFailed
                }
            }
            Action::Read => {
                assert!(platform.context_held);
                platform.read_calls += 1;
                if platform.offset == platform.output.len() {
                    if let Some(b) = buffer.take() {
                        lines.extend(b.finish());
                    }
                    Event::EndOfStream
                } else {
                    let end = (platform.offset + platform.chunk).min(platform.output.len());
                    let chunk = &platform.output[platform.offset..end];
                    platform.offset = end;
                    match buffer.as_mut() {
                        Some(b) => lines.extend(b.feed(chunk)),
                        None => panic!("read after the end of the stream"),
                    }
                    Event::Output
                }
            }
            Action::Release => {
                assert!(platform.context_held);
                platform.release_calls += 1;
                platform.context_held = false;
                Event::Destroyed
            }
            Action::Finish(outcome) => {
                assert!(!platform.context_held);
                return (outcome, lines);
            }
        };
        action = match session.advance(event) {
            Ok(next) => next,
            Err(e) => panic!("{:?}", e),
        };
    }
}

const LISTING: &[u8] = b"total 0\n\
drwxr-xr-x  4 user  staff  128 Jan  1 00:00 .\n\
drwxr-xr-x  9 user  staff  288 Jan  1 00:00 ..\n\
-rw-r--r--  1 user  staff    0 Jan  1 00:00 a\n\
-rw-r--r--  1 user  staff    0 Jan  1 00:00 b\n";

#[test]
fn exec_ls() {
    let mut session = session_for("/bin/ls", &["-la"]);
    let mut p = platform(true, true, LISTING, 16);
    let (outcome, _) = drive(&mut session, &mut p);
    assert_eq!(outcome, Outcome::Completed);
    assert_eq!(outcome.exit_status(), 0);
}

#[test]
fn listing_is_relayed_line_by_line_in_order() {
    let mut session = session_for("/bin/ls", &["-la"]);
    let mut p = platform(true, true, LISTING, 7);
    let (outcome, lines) = drive(&mut session, &mut p);
    assert_eq!(outcome, Outcome::Completed);
    assert_eq!(outcome.exit_status(), 0);
    let direct: Vec<String> =
        String::from_utf8(LISTING.to_vec()).unwrap().lines().map(|l| l.to_string()).collect();
    assert_eq!(lines, direct);
    assert_eq!(lines.len(), 5);
    assert_eq!(lines[0], "total 0");
    assert_eq!(lines[3], "-rw-r--r--  1 user  staff    0 Jan  1 00:00 a");
    assert_eq!(lines[4], "-rw-r--r--  1 user  staff    0 Jan  1 00:00 b");
    assert_eq!(p.spawned_path, "/bin/ls");
    assert_eq!(p.spawned_args, vec!["-la".to_string()]);
}

#[test]
fn the_administrative_right_is_asked_for_under_the_negotiation_policy() {
    let mut session = session_for("/bin/ls", &[]);
    let mut p = platform(true, true, b"", 1);
    drive(&mut session, &mut p);
    assert_eq!(p.requested_rights, vec!["system.privilege.admin".to_string()]);
    assert_eq!(p.requested_flags, 19);
}

#[test]
fn success_releases_exactly_once() {
    let mut session = session_for("/bin/ls", &["-la"]);
    let mut p = platform(true, true, LISTING, 3);
    let (outcome, _) = drive(&mut session, &mut p);
    assert_eq!(outcome, Outcome::Completed);
    assert_eq!(p.acquire_calls, 1);
    assert_eq!(p.spawn_calls, 1);
    assert_eq!(p.release_calls, 1);
    assert_eq!(session.acquisitions(), 1);
    assert_eq!(session.spawn_attempts(), 1);
    assert_eq!(session.releases(), 1);
    assert_eq!(session.phase(), Phase::Released);
    assert!(!session.holds_context());
}

#[test]
fn denial_releases_nothing_and_fails() {
    let mut session = session_for("/bin/ls", &["-la"]);
    let mut p = platform(false, true, LISTING, 3);
    let (outcome, lines) = drive(&mut session, &mut p);
    assert_eq!(outcome, Outcome::AuthorizationDenied);
    assert_ne!(outcome.exit_status(), 0);
    assert_eq!(outcome.exit_status(), 1);
    assert_eq!(p.acquire_calls, 1);
    assert_eq!(p.spawn_calls, 0);
    assert_eq!(p.read_calls, 0);
    assert_eq!(p.release_calls, 0);
    assert!(lines.is_empty());
    assert_eq!(session.acquisitions(), 0);
    assert_eq!(session.spawn_attempts(), 0);
    assert_eq!(session.releases(), 0);
    assert_eq!(session.phase(), Phase::Denied);
    assert_eq!(session.outcome(), Some(Outcome::AuthorizationDenied));
}

#[test]
fn spawn_failure_releases_exactly_once_and_fails() {
    let mut session = session_for("/no/such/tool", &[]);
    let mut p = platform(true, false, LISTING, 3);
    let (outcome, lines) = drive(&mut session, &mut p);
    assert_eq!(outcome, Outcome::SpawnFailure);
    assert_ne!(outcome.exit_status(), 0);
    assert_eq!(outcome.exit_status(), 1);
    assert_eq!(p.acquire_calls, 1);
    assert_eq!(p.spawn_calls, 1);
    assert_eq!(p.read_calls, 0);
    assert_eq!(p.release_calls, 1);
    assert!(lines.is_empty());
    assert_eq!(session.releases(), 1);
    assert_eq!(session.phase(), Phase::Released);
    assert_eq!(session.outcome(), Some(Outcome::SpawnFailure));
}

#[test]
fn a_failed_launch_leaves_the_release_due() {
    let mut session = session_for("/no/such/tool", &[]);
    assert_eq!(session.advance(Event::Granted), Ok(Action::Spawn));
    assert_eq!(session.advance(Event::LaunchFailed), Ok(Action::Release));
    assert_eq!(session.phase(), Phase::SpawnFailed);
    assert!(session.holds_context());
    assert_eq!(session.outcome(), None);
    assert_eq!(session.advance(Event::Destroyed), Ok(Action::Finish(Outcome::SpawnFailure)));
}

#[test]
fn each_phase_has_its_action() {
    let mut session = session_for("/bin/ls", &[]);
    assert_eq!(session.phase(), Phase::Unauthorized);
    assert_eq!(session.pending(), Action::Acquire);
    assert!(!session.holds_context());
    assert_eq!(session.advance(Event::Granted), Ok(Action::Spawn));
    assert_eq!(session.phase(), Phase::Authorized);
    assert!(session.holds_context());
    assert_eq!(session.advance(Event::Launched), Ok(Action::Read));
    assert_eq!(session.phase(), Phase::Spawned);
    assert_eq!(session.advance(Event::Output), Ok(Action::Read));
    assert_eq!(session.advance(Event::Output), Ok(Action::Read));
    assert_eq!(session.phase(), Phase::Spawned);
    assert_eq!(session.advance(Event::EndOfStream), Ok(Action::Release));
    assert_eq!(session.phase(), Phase::Drained);
    assert!(session.holds_context());
    assert_eq!(session.releases(), 0);
    assert_eq!(session.advance(Event::Destroyed), Ok(Action::Finish(Outcome::Completed)));
    assert_eq!(session.phase(), Phase::Released);
    assert_eq!(session.pending(), Action::Finish(Outcome::Completed));
    assert_eq!(session.outcome(), Some(Outcome::Completed));
}

#[test]
fn an_event_out_of_order_is_refused_and_changes_nothing() {
    let mut session = session_for("/bin/ls", &[]);
    assert_eq!(
        session.advance(Event::Launched),
        Err(OutOfOrder { phase: Phase::Unauthorized, event: Event::Launched })
    );
    assert_eq!(
        session.advance(Event::Destroyed),
        Err(OutOfOrder { phase: Phase::Unauthorized, event: Event::Destroyed })
    );
    assert_eq!(session.phase(), Phase::Unauthorized);
    assert_eq!(session.pending(), Action::Acquire);
    assert_eq!(session.releases(), 0);
    assert_eq!(session.advance(Event::Granted), Ok(Action::Spawn));
    assert_eq!(
        session.advance(Event::Granted),
        Err(OutOfOrder { phase: Phase::Authorized, event: Event::Granted })
    );
    assert_eq!(
        session.advance(Event::Destroyed),
        Err(OutOfOrder { phase: Phase::Authorized, event: Event::Destroyed })
    );
    assert_eq!(session.acquisitions(), 1);
}

#[test]
fn nothing_is_launched_or_released_twice() {
    let mut session = session_for("/bin/ls", &[]);
    for event in [Event::Granted, Event::Launched, Event::EndOfStream, Event::Destroyed] {
        assert!(session.advance(event).is_ok());
    }
    for event in [
        Event::Granted,
        Event::Refused,
        Event::Launched,
        Event::LaunchFailed,
        Event::Output,
        Event::EndOfStream,
        Event::Destroyed,
    ] {
        assert_eq!(session.advance(event), Err(OutOfOrder { phase: Phase::Released, event }));
    }
    assert_eq!(session.spawn_attempts(), 1);
    assert_eq!(session.releases(), 1);
}

#[test]
fn nothing_follows_a_denial() {
    let mut session = session_for("/bin/ls", &[]);
    assert_eq!(
        session.advance(Event::Refused),
        Ok(Action::Finish(Outcome::AuthorizationDenied))
    );
    for event in [Event::Granted, Event::Launched, Event::Destroyed] {
        assert_eq!(session.advance(event), Err(OutOfOrder { phase: Phase::Denied, event }));
    }
    assert_eq!(session.releases(), 0);
    assert_eq!(session.spawn_attempts(), 0);
}

#[test]
fn only_a_completed_run_exits_with_zero() {
    assert_eq!(Outcome::Completed.exit_status(), 0);
    assert_eq!(Outcome::AuthorizationDenied.exit_status(), 1);
    assert_eq!(Outcome::SpawnFailure.exit_status(), 1);
}
