//! Records of a workflow run as the remote system reports them.
use vstd::prelude::*;
use vstd::string::*;

verus! {

/// Status of a job or step. Names the remote system adds later map to `Unknown`.
#[derive(Debug, Clone, Copy, PartialEq, Eq, Structural)]
pub enum JobStatus {
    Queued,
    Waiting,
    Pending,
    InProgress,
    Completed,
    Unknown,
}

/// Conclusion of a completed job or step. Unrecognised names map to `Unknown`.
#[derive(Debug, Clone, Copy, PartialEq, Eq, Structural)]
pub enum JobConclusion {
    Success,
    Failure,
    Cancelled,
    Skipped,
    Neutral,
    ActionRequired,
    TimedOut,
    Unknown,
}

/// The status that a name reported by the remote system stands for.
pub open spec fn status_named(s: Seq<char>) -> JobStatus {
    if s == "queued"@ {
        JobStatus::Queued
    } else if s == "waiting"@ {
        JobStatus::Waiting
    } else if s == "pending"@ {
        JobStatus::Pending
    } else if s == "in_progress"@ {
        JobStatus::InProgress
    } else if s == "completed"@ {
        JobStatus::Completed
    } else {
        JobStatus::Unknown
    }
}

/// The conclusion that a name reported by the remote system stands for.
pub open spec fn conclusion_named(s: Seq<char>) -> JobConclusion {
    if s == "success"@ {
        JobConclusion::Success
    } else if s == "failure"@ {
        JobConclusion::Failure
    } else if s == "cancelled"@ {
        JobConclusion::Cancelled
    } else if s == "skipped"@ {
        JobConclusion::Skipped
    } else if s == "neutral"@ {
        JobConclusion::Neutral
    } else if s == "action_required"@ {
        JobConclusion::ActionRequired
    } else if s == "timed_out"@ {
        JobConclusion::TimedOut
    } else {
        JobConclusion::Unknown
    }
}

impl JobStatus {
    /// Reads a status name; an unrecognised name gives `Unknown`, never an error.
    pub fn from_name(s: &str) -> (r: JobStatus)
        ensures
            r == status_named(s@),
    {
        if text_eq(s, "queued") {
            JobStatus::Queued
        } else if text_eq(s, "waiting") {
            JobStatus::Waiting
        } else if text_eq(s, "pending") {
            JobStatus::Pending
        } else if text_eq(s, "in_progress") {
            JobStatus::InProgress
        } else if text_eq(s, "completed") {
            JobStatus::Completed
        } else {
            JobStatus::Unknown
        }
    }
}

impl JobConclusion {
    /// Reads a conclusion name; an unrecognised name gives `Unknown`, never an error.
    pub fn from_name(s: &str) -> (r: JobConclusion)
        ensures
            r == conclusion_named(s@),
    {
        if text_eq(s, "success") {
            JobConclusion::Success
        } else if text_eq(s, "failure") {
            JobConclusion::Failure
        } else if text_eq(s, "cancelled") {
            JobConclusion::Cancelled
        } else if text_eq(s, "skipped") {
            JobConclusion::Skipped
        } else if text_eq(s, "neutral") {
            JobConclusion::Neutral
        } else if text_eq(s, "action_required") {
            JobConclusion::ActionRequired
        } else if text_eq(s, "timed_out") {
            JobConclusion::TimedOut
        } else {
            JobConclusion::Unknown
        }
    }
}

/// One step within a job.
#[derive(Debug)]
pub struct Step {
    pub name: String,
    /// 1-based position of the step within its job.
    pub number: u32,
    pub status: JobStatus,
    pub conclusion: Option<JobConclusion>,
}

/// One job within a run.
#[derive(Debug)]
pub struct Job {
    /// Stable across polls.
    pub id: u64,
    pub name: String,
    pub status: JobStatus,
    pub conclusion: Option<JobConclusion>,
    /// Start time in milliseconds since the Unix epoch.
    pub started_at_ms: Option<i64>,
    /// Completion time in milliseconds since the Unix epoch.
    pub completed_at_ms: Option<i64>,
    /// Address of the job's check run; its last path segment identifies it.
    pub check_run_url: String,
    /// Empty while the job is queued.
    pub steps: Vec<Step>,
}

/// A diagnostic message attached to a completed job's check run.
#[derive(Debug)]
pub struct Annotation {
    /// `notice`, `warning` or `failure`; absent means `notice`.
    pub level: Option<String>,
    pub title: Option<String>,
    pub message: Option<String>,
}

/// One execution of a workflow.
#[derive(Debug)]
pub struct Run {
    pub id: u64,
    pub status: JobStatus,
    /// Present once the run has completed.
    pub conclusion: Option<String>,
    pub run_number: u64,
    pub html_url: String,
}

/// Character-wise equality of two strings.
pub fn text_eq(a: &str, b: &str) -> (r: bool)
    ensures
        r == (a@ == b@),
{
    let n = a.unicode_len();
    if n != b.unicode_len() {
        return false;
    }
    let mut i: usize = 0;
    while i < n
        invariant
            n == a@.len(),
            n == b@.len(),
            i <= n,
            a@.subrange(0, i as int) == b@.subrange(0, i as int),
        decreases n - i,
    {
        if a.get_char(i) != b.get_char(i) {
            return false;
        }
        assert(a@.subrange(0, i + 1) == a@.subrange(0, i as int).push(a@[i as int]));
        assert(b@.subrange(0, i + 1) == b@.subrange(0, i as int).push(b@[i as int]));
        i = i + 1;
    }
    assert(a@ == a@.subrange(0, n as int));
    assert(b@ == b@.subrange(0, n as int));
    true
}

} // verus!
