//! The decisions of the watch loop: poll, sleep, finish or give up.
use vstd::prelude::*;
use crate::model::JobStatus;

verus! {

/// Time between two polls by default, in milliseconds.
pub const POLL_INTERVAL_MS: u64 = 5000;

/// Longest time to watch a run by default, in milliseconds (360 intervals).
pub const MAX_WAIT_MS: u64 = 1800000;

/// Where a watch session stands.
#[derive(Debug, Clone, Copy, PartialEq, Eq, Structural)]
pub enum Phase {
    Polling,
    /// The run completed.
    Done,
    /// The run did not complete within the maximum wait.
    TimedOut,
    /// A fetch failed.
    Failed,
}

/// What the driver of the loop must do next.
#[derive(Debug, Clone, Copy, PartialEq, Eq, Structural)]
pub enum Action {
    /// Fetch the run and its jobs.
    Poll,
    /// Wait this many milliseconds, then begin the next cycle.
    Sleep(u64),
    /// The run completed: flush the display and return the run.
    Finish,
    /// Give up: the maximum wait was exceeded.
    TimeOut,
    /// The session is over; do nothing.
    Stop,
}

/// The state of one watch session.
#[derive(Debug, Clone, Copy, PartialEq, Eq, Structural)]
pub struct WatchLoop {
    pub interval_ms: u64,
    pub max_wait_ms: u64,
    pub phase: Phase,
}

/// The state after a cycle begins `elapsed` milliseconds into the session,
/// and what to do.
pub open spec fn begin_spec(w: WatchLoop, elapsed: u64) -> (WatchLoop, Action) {
    if w.phase != Phase::Polling {
        (w, Action::Stop)
    } else if elapsed > w.max_wait_ms {
        (WatchLoop { phase: Phase::TimedOut, ..w }, Action::TimeOut)
    } else {
        (w, Action::Poll)
    }
}

/// The state after a poll found the run in `status`, and what to do.
pub open spec fn end_spec(w: WatchLoop, status: JobStatus) -> (WatchLoop, Action) {
    if w.phase != Phase::Polling {
        (w, Action::Stop)
    } else if status == JobStatus::Completed {
        (WatchLoop { phase: Phase::Done, ..w }, Action::Finish)
    } else {
        (w, Action::Sleep(w.interval_ms))
    }
}

impl WatchLoop {
    /// A session that polls every `interval_ms` and gives up after `max_wait_ms`.
    pub fn new(interval_ms: u64, max_wait_ms: u64) -> (r: WatchLoop)
        ensures
            r == (WatchLoop { interval_ms, max_wait_ms, phase: Phase::Polling }),
    {
        WatchLoop { interval_ms, max_wait_ms, phase: Phase::Polling }
    }

    /// A session with the default interval and maximum wait.
    pub fn with_defaults() -> (r: WatchLoop)
        ensures
            r == (WatchLoop {
                interval_ms: POLL_INTERVAL_MS,
                max_wait_ms: MAX_WAIT_MS,
                phase: Phase::Polling,
            }),
            r.max_wait_ms == 360 * r.interval_ms,
    {
        WatchLoop::new(POLL_INTERVAL_MS, MAX_WAIT_MS)
    }

    /// Begins a cycle `elapsed_ms` milliseconds after the session started:
    /// gives up once the maximum wait is exceeded, else asks for a poll.
    pub fn begin_cycle(&mut self, elapsed_ms: u64) -> (a: Action)
        ensures
            (*final(self), a) == begin_spec(*old(self), elapsed_ms),
    {
        if self.phase != Phase::Polling {
            Action::Stop
        } else if elapsed_ms > self.max_wait_ms {
            self.phase = Phase::TimedOut;
            Action::TimeOut
        } else {
            Action::Poll
        }
    }

    /// Ends a cycle whose poll found the run in `status`: only a completed
    /// run ends the session; otherwise sleep for the interval.
    pub fn end_cycle(&mut self, status: JobStatus) -> (a: Action)
        ensures
            (*final(self), a) == end_spec(*old(self), status),
    {
        if self.phase != Phase::Polling {
            Action::Stop
        } else if status == JobStatus::Completed {
            self.phase = Phase::Done;
            Action::Finish
        } else {
            Action::Sleep(self.interval_ms)
        }
    }

    /// A fetch failed: the session ends with no retry.
    pub fn fail(&mut self)
        ensures
            *final(self) == (WatchLoop { phase: Phase::Failed, ..*old(self) }),
    {
        self.phase = Phase::Failed;
    }
}

/// A session driven through `script`: each entry is one cycle, begun at the
/// given elapsed time, whose poll (if one is made) finds the run in the given
/// status. Gives the final state and the number of polls made.
pub open spec fn drive(w: WatchLoop, script: Seq<(u64, JobStatus)>) -> (WatchLoop, nat)
    decreases script.len(),
{
    if script.len() == 0 {
        (w, 0)
    } else {
        let (w1, a) = begin_spec(w, script[0].0);
        if a == Action::Poll {
            let (w2, _) = end_spec(w1, script[0].1);
            let (w3, n) = drive(w2, script.drop_first());
            (w3, n + 1)
        } else {
            drive(w1, script.drop_first())
        }
    }
}

/// Once the session is over, no cycle polls or changes it.
pub proof fn lemma_over_stays_over(w: WatchLoop, script: Seq<(u64, JobStatus)>)
    requires
        w.phase != Phase::Polling,
    ensures
        drive(w, script) == (w, 0nat),
    decreases script.len(),
{
    if script.len() > 0 {
        lemma_over_stays_over(w, script.drop_first());
    }
}

/// If the run is first seen completed by the poll of cycle `n` (1-based) and
/// no cycle begins past the maximum wait, the session ends `Done` after
/// exactly `n` polls and never polls again.
pub proof fn lemma_terminates_on_completion(
    w: WatchLoop,
    script: Seq<(u64, JobStatus)>,
    n: int,
)
    requires
        w.phase == Phase::Polling,
        1 <= n <= script.len(),
        script[n - 1].1 == JobStatus::Completed,
        forall|i: int| 0 <= i < n - 1 ==> (#[trigger] script[i]).1 != JobStatus::Completed,
        forall|i: int| 0 <= i < n ==> (#[trigger] script[i]).0 <= w.max_wait_ms,
    ensures
        drive(w, script) == (WatchLoop { phase: Phase::Done, ..w }, n as nat),
    decreases n,
{
    let rest = script.drop_first();
    if n == 1 {
        lemma_over_stays_over(WatchLoop { phase: Phase::Done, ..w }, rest);
    } else {
        assert(script[0].1 != JobStatus::Completed);
        assert forall|i: int| 0 <= i < n - 2 implies (#[trigger] rest[i]).1
            != JobStatus::Completed by {
            assert(rest[i] == script[i + 1]);
        }
        assert forall|i: int| 0 <= i < n - 1 implies (#[trigger] rest[i]).0 <= w.max_wait_ms by {
            assert(rest[i] == script[i + 1]);
        }
        lemma_terminates_on_completion(w, rest, n - 1);
    }
}

/// Cycle `i` of `script` begins no earlier than `(offset + i)` intervals.
pub open spec fn paced(script: Seq<(u64, JobStatus)>, interval: u64, offset: nat) -> bool {
    forall|i: int| 0 <= i < script.len() ==> (#[trigger] script[i]).0 >= (offset + i) * interval
}

proof fn lemma_timeout_bound(w: WatchLoop, script: Seq<(u64, JobStatus)>, offset: nat)
    requires
        w.phase == Phase::Polling,
        w.interval_ms > 0,
        paced(script, w.interval_ms, offset),
        forall|i: int| 0 <= i < script.len() ==> (#[trigger] script[i]).1 != JobStatus::Completed,
        exists|k: int| 0 <= k < script.len() && (#[trigger] script[k]).0 > w.max_wait_ms,
    ensures
        drive(w, script).0 == (WatchLoop { phase: Phase::TimedOut, ..w }),
        drive(w, script).1 == 0 || drive(w, script).1 + offset <= w.max_wait_ms / w.interval_ms
            + 1,
    decreases script.len(),
{
    let rest = script.drop_first();
    if script[0].0 > w.max_wait_ms {
        lemma_over_stays_over(WatchLoop { phase: Phase::TimedOut, ..w }, rest);
    } else {
        let k = choose|k: int| 0 <= k < script.len() && (#[trigger] script[k]).0 > w.max_wait_ms;
        assert(k > 0);
        assert(rest[k - 1] == script[k]);
        assert forall|i: int| 0 <= i < rest.len() implies (#[trigger] rest[i]).0 >= (offset + 1
            + i) * w.interval_ms by {
            assert(rest[i] == script[i + 1]);
        }
        assert forall|i: int| 0 <= i < rest.len() implies (#[trigger] rest[i]).1
            != JobStatus::Completed by {
            assert(rest[i] == script[i + 1]);
        }
        lemma_timeout_bound(w, rest, offset + 1);
        let iv = w.interval_ms as int;
        let mw = w.max_wait_ms as int;
        assert(script[0].0 >= offset * iv);
        assert(offset <= mw / iv) by (nonlinear_arith)
            requires
                offset * iv <= mw,
                iv > 0,
        {
            vstd::arithmetic::div_mod::lemma_div_is_ordered(offset * iv, mw, iv);
            vstd::arithmetic::div_mod::lemma_div_multiples_vanish(offset as int, iv);
        }
    }
}

/// A run that never completes: once a cycle begins past the maximum wait
/// `W`, the session ends `TimedOut`, having polled at most `W / I + 1` times
/// when cycles are at least the interval `I` apart (at most
/// `ceil(W / I) + 1`).
pub proof fn lemma_times_out(w: WatchLoop, script: Seq<(u64, JobStatus)>)
    requires
        w.phase == Phase::Polling,
        w.interval_ms > 0,
        paced(script, w.interval_ms, 0),
        forall|i: int| 0 <= i < script.len() ==> (#[trigger] script[i]).1 != JobStatus::Completed,
        exists|k: int| 0 <= k < script.len() && (#[trigger] script[k]).0 > w.max_wait_ms,
    ensures
        drive(w, script).0 == (WatchLoop { phase: Phase::TimedOut, ..w }),
        drive(w, script).1 <= w.max_wait_ms / w.interval_ms + 1,
{
    lemma_timeout_bound(w, script, 0);
}

} // verus!
