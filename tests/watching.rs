use gh_dispatch::model::JobStatus;
use gh_dispatch::watch::{Action, Phase, WatchLoop, MAX_WAIT_MS, POLL_INTERVAL_MS};

/// Drives a session through cycles begun at `times`, each poll finding the
/// run in the matching status; returns the polls made and the final phase.
fn drive(w: &mut WatchLoop, times: &[u64], statuses: &[JobStatus]) -> (usize, Vec<Action>) {
    let mut polls = 0;
    let mut actions = Vec::new();
    for (t, s) in times.iter().zip(statuses.iter()) {
        let a = w.begin_cycle(*t);
        actions.push(a);
        if a == Action::Poll {
            polls += 1;
            actions.push(w.end_cycle(*s));
        }
    }
    (polls, actions)
}

#[test]
fn defaults_are_five_seconds_and_half_an_hour() {
    let w = WatchLoop::with_defaults();
    assert_eq!(w.interval_ms, 5000);
    assert_eq!(w.max_wait_ms, 30 * 60 * 1000);
    assert_eq!(POLL_INTERVAL_MS * 360, MAX_WAIT_MS);
    assert_eq!(w.phase, Phase::Polling);
}

#[test]
fn completes_after_exactly_n_cycles() {
    let mut w = WatchLoop::new(5000, 60000);
    let times = [0, 5000, 10000, 15000, 20000];
    let statuses = [
        JobStatus::Queued,
        JobStatus::InProgress,
        JobStatus::Completed,
        JobStatus::Completed,
        JobStatus::InProgress,
    ];
    let (polls, actions) = drive(&mut w, &times, &statuses);
    assert_eq!(polls, 3);
    assert_eq!(w.phase, Phase::Done);
    assert_eq!(
        actions,
        vec![
            Action::Poll,
            Action::Sleep(5000),
            Action::Poll,
            Action::Sleep(5000),
            Action::Poll,
            Action::Finish,
            Action::Stop,
            Action::Stop,
        ]
    );
}

#[test]
fn times_out_after_the_maximum_wait() {
    let mut w = WatchLoop::new(10, 25);
    let times = [0, 10, 20, 30, 40];
    let statuses = [JobStatus::InProgress; 5];
    let (polls, actions) = drive(&mut w, &times, &statuses);
    assert_eq!(w.phase, Phase::TimedOut);
    // ceil(25 / 10) + 1 = 4 is the bound; cycles at 0, 10 and 20 poll.
    assert_eq!(polls, 3);
    assert!(polls <= 4);
    assert_eq!(actions[6], Action::TimeOut);
    assert_eq!(actions[7], Action::Stop);
}

#[test]
fn exactly_at_the_maximum_wait_still_polls() {
    let mut w = WatchLoop::new(10, 20);
    assert_eq!(w.begin_cycle(20), Action::Poll);
    assert_eq!(w.end_cycle(JobStatus::Unknown), Action::Sleep(10));
    assert_eq!(w.begin_cycle(21), Action::TimeOut);
    assert_eq!(w.phase, Phase::TimedOut);
}

#[test]
fn a_failed_fetch_ends_the_session() {
    let mut w = WatchLoop::new(10, 100);
    assert_eq!(w.begin_cycle(0), Action::Poll);
    w.fail();
    assert_eq!(w.phase, Phase::Failed);
    assert_eq!(w.end_cycle(JobStatus::Completed), Action::Stop);
    assert_eq!(w.begin_cycle(5), Action::Stop);
}
