//! What each record looks like to the operator, before any styling.
use vstd::prelude::*;
use crate::model::{Job, JobConclusion, JobStatus, Step, text_eq};

verus! {

/// The mark shown beside a job.
#[derive(Debug, Clone, Copy, PartialEq, Eq, Structural)]
pub enum JobMark {
    Succeeded,
    Failed,
    Cancelled,
    /// Completed with any other conclusion.
    Finished,
    Running,
    /// Queued, waiting, pending or unknown.
    Idle,
}

/// The mark shown beside a completed step.
#[derive(Debug, Clone, Copy, PartialEq, Eq, Structural)]
pub enum StepMark {
    Succeeded,
    Failed,
    Skipped,
    Other,
}

/// What follows a job's name.
#[derive(Debug, PartialEq, Eq)]
pub enum JobSuffix {
    Queued,
    Waiting,
    /// In progress, with the name of the step that runs.
    CurrentStep(String),
    /// In progress, with no step running.
    Running,
    /// Completed after this many minutes and seconds.
    Took { minutes: u64, seconds: u64 },
    Nothing,
}

/// Severity of an annotation.
#[derive(Debug, Clone, Copy, PartialEq, Eq, Structural)]
pub enum AnnotationLevel {
    Notice,
    Warning,
    Failure,
}

/// Which parts of an annotation are shown.
#[derive(Debug, Clone, Copy, PartialEq, Eq, Structural)]
pub enum AnnotationLayout {
    /// `title: message`
    TitleAndMessage,
    TitleOnly,
    /// The message alone, possibly empty.
    MessageOnly,
}

/// How a completed run ended, for its caller.
#[derive(Debug, PartialEq, Eq)]
pub enum RunOutcome {
    Success,
    /// The caller must report an error.
    Failure,
    Cancelled,
    /// Any other conclusion, passed through by name.
    Other(String),
}

/// The mark of a job with `status` and `conclusion`.
pub open spec fn job_mark_spec(status: JobStatus, conclusion: Option<JobConclusion>) -> JobMark {
    if status == JobStatus::Completed {
        match conclusion {
            Some(JobConclusion::Success) => JobMark::Succeeded,
            Some(JobConclusion::Failure) => JobMark::Failed,
            Some(JobConclusion::Cancelled) => JobMark::Cancelled,
            _ => JobMark::Finished,
        }
    } else if status == JobStatus::InProgress {
        JobMark::Running
    } else {
        JobMark::Idle
    }
}

/// The mark of a job with `status` and `conclusion`.
pub fn job_mark(status: JobStatus, conclusion: Option<JobConclusion>) -> (r: JobMark)
    ensures
        r == job_mark_spec(status, conclusion),
{
    match status {
        JobStatus::Completed => match conclusion {
            Some(JobConclusion::Success) => JobMark::Succeeded,
            Some(JobConclusion::Failure) => JobMark::Failed,
            Some(JobConclusion::Cancelled) => JobMark::Cancelled,
            _ => JobMark::Finished,
        },
        JobStatus::InProgress => JobMark::Running,
        _ => JobMark::Idle,
    }
}

/// The mark of a completed step with `conclusion`.
pub open spec fn step_mark_spec(conclusion: Option<JobConclusion>) -> StepMark {
    match conclusion {
        Some(JobConclusion::Success) => StepMark::Succeeded,
        Some(JobConclusion::Failure) => StepMark::Failed,
        Some(JobConclusion::Skipped) => StepMark::Skipped,
        _ => StepMark::Other,
    }
}

/// The mark of a completed step with `conclusion`.
pub fn step_mark(conclusion: Option<JobConclusion>) -> (r: StepMark)
    ensures
        r == step_mark_spec(conclusion),
{
    match conclusion {
        Some(JobConclusion::Success) => StepMark::Succeeded,
        Some(JobConclusion::Failure) => StepMark::Failed,
        Some(JobConclusion::Skipped) => StepMark::Skipped,
        _ => StepMark::Other,
    }
}

/// Whole seconds between two instants given in milliseconds; 0 when the end
/// is not after the start.
pub open spec fn elapsed_seconds(start_ms: i64, end_ms: i64) -> int {
    if end_ms > start_ms {
        (end_ms - start_ms) / 1000
    } else {
        0
    }
}

/// Minutes and seconds a job took, when both of its timestamps are known.
pub open spec fn duration_spec(job: Job) -> Option<(u64, u64)> {
    match (job.started_at_ms, job.completed_at_ms) {
        (Some(s), Some(e)) => Some(
            ((elapsed_seconds(s, e) / 60) as u64, (elapsed_seconds(s, e) % 60) as u64),
        ),
        _ => None,
    }
}

/// Minutes and seconds a job took, or `None` if a timestamp is missing.
pub fn job_duration(job: &Job) -> (r: Option<(u64, u64)>)
    ensures
        r == duration_spec(*job),
{
    match (job.started_at_ms, job.completed_at_ms) {
        (Some(s), Some(e)) => {
            let secs: u64 = if e > s {
                let diff: i128 = (e as i128) - (s as i128);
                (diff / 1000) as u64
            } else {
                0
            };
            Some((secs / 60, secs % 60))
        },
        _ => None,
    }
}

/// The index of the first step of `steps` that is in progress.
pub open spec fn first_running(steps: Seq<Step>) -> Option<int> {
    if exists|i: int| 0 <= i < steps.len() && steps[i].status == JobStatus::InProgress {
        Some(
            choose|i: int|
                0 <= i < steps.len() && steps[i].status == JobStatus::InProgress && forall|j: int|
                    0 <= j < i ==> (#[trigger] steps[j]).status != JobStatus::InProgress,
        )
    } else {
        None
    }
}

/// What follows the name of `job`.
pub open spec fn job_suffix_spec(job: Job) -> JobSuffix {
    if job.status == JobStatus::Queued {
        JobSuffix::Queued
    } else if job.status == JobStatus::Waiting {
        JobSuffix::Waiting
    } else if job.status == JobStatus::InProgress {
        match first_running(job.steps@) {
            Some(i) => JobSuffix::CurrentStep(job.steps@[i].name),
            None => JobSuffix::Running,
        }
    } else if job.status == JobStatus::Completed {
        match duration_spec(job) {
            Some((m, s)) => JobSuffix::Took { minutes: m, seconds: s },
            None => JobSuffix::Nothing,
        }
    } else {
        JobSuffix::Nothing
    }
}

/// Finds the first step in progress.
fn find_running(steps: &Vec<Step>) -> (r: Option<usize>)
    ensures
        match r {
            Some(i) => i < steps@.len() && steps@[i as int].status == JobStatus::InProgress
                && forall|j: int| 0 <= j < i ==> (#[trigger] steps@[j]).status != JobStatus::InProgress,
            None => forall|j: int| 0 <= j < steps@.len() ==> (#[trigger] steps@[j]).status
                != JobStatus::InProgress,
        },
{
    let mut i: usize = 0;
    while i < steps.len()
        invariant
            i <= steps@.len(),
            forall|j: int| 0 <= j < i ==> (#[trigger] steps@[j]).status != JobStatus::InProgress,
        decreases steps.len() - i,
    {
        if steps[i].status == JobStatus::InProgress {
            return Some(i);
        }
        i = i + 1;
    }
    None
}

/// What follows the name of `job`: its queue state, the step that runs, or
/// how long it took.
pub fn job_suffix(job: &Job) -> (r: JobSuffix)
    ensures
        r == job_suffix_spec(*job),
{
    match job.status {
        JobStatus::Queued => JobSuffix::Queued,
        JobStatus::Waiting => JobSuffix::Waiting,
        JobStatus::InProgress => match find_running(&job.steps) {
            Some(i) => {
                proof {
                    let steps = job.steps@;
                    let k = choose|k: int|
                        0 <= k < steps.len() && steps[k].status == JobStatus::InProgress
                            && forall|j: int|
                            0 <= j < k ==> (#[trigger] steps[j]).status != JobStatus::InProgress;
                    assert(k == i as int) by {
                        if k < i {
                            assert(steps[k].status != JobStatus::InProgress);
                        } else if k > i {
                            assert(steps[i as int].status != JobStatus::InProgress);
                        }
                    }
                }
                JobSuffix::CurrentStep(job.steps[i].name.clone())
            },
            None => JobSuffix::Running,
        },
        JobStatus::Completed => match job_duration(job) {
            Some((m, s)) => JobSuffix::Took { minutes: m, seconds: s },
            None => JobSuffix::Nothing,
        },
        _ => JobSuffix::Nothing,
    }
}

/// The text of an optional string; empty when absent.
pub open spec fn text_or_empty(s: Option<String>) -> Seq<char> {
    match s {
        Some(t) => t@,
        None => Seq::empty(),
    }
}

/// The severity named by `level`.
pub open spec fn level_spec(level: Option<String>) -> AnnotationLevel {
    if text_or_empty(level) == "failure"@ {
        AnnotationLevel::Failure
    } else if text_or_empty(level) == "warning"@ {
        AnnotationLevel::Warning
    } else {
        AnnotationLevel::Notice
    }
}

/// The severity named by an annotation level; anything else, or none, is a notice.
pub fn annotation_level(level: &Option<String>) -> (r: AnnotationLevel)
    ensures
        r == level_spec(*level),
{
    proof {
        reveal_strlit("failure");
        reveal_strlit("warning");
        reveal_strlit("");
    }
    let text: &str = match level {
        Some(l) => l.as_str(),
        None => "",
    };
    assert(text@ == text_or_empty(*level));
    if text_eq(text, "failure") {
        AnnotationLevel::Failure
    } else if text_eq(text, "warning") {
        AnnotationLevel::Warning
    } else {
        AnnotationLevel::Notice
    }
}

/// The parts of an annotation with `title` and `message` that are shown.
pub open spec fn layout_spec(title: Option<String>, message: Option<String>) -> AnnotationLayout {
    if text_or_empty(title).len() > 0 && text_or_empty(message).len() > 0 {
        AnnotationLayout::TitleAndMessage
    } else if text_or_empty(title).len() > 0 {
        AnnotationLayout::TitleOnly
    } else {
        AnnotationLayout::MessageOnly
    }
}

/// Which parts of an annotation are shown: an empty or missing part is left out.
pub fn annotation_layout(title: &Option<String>, message: &Option<String>) -> (r:
    AnnotationLayout)
    ensures
        r == layout_spec(*title, *message),
{
    let has_title = match title {
        Some(t) => !t.as_str().is_empty(),
        None => false,
    };
    let has_message = match message {
        Some(m) => !m.as_str().is_empty(),
        None => false,
    };
    if has_title && has_message {
        AnnotationLayout::TitleAndMessage
    } else if has_title {
        AnnotationLayout::TitleOnly
    } else {
        AnnotationLayout::MessageOnly
    }
}

/// The conclusion's name; `unknown` when the run reports none.
pub open spec fn conclusion_name(conclusion: Option<String>) -> Seq<char> {
    match conclusion {
        Some(c) => c@,
        None => "unknown"@,
    }
}

/// How a run with `conclusion` ended: success returns normally, failure is an
/// error, cancellation is informational, and any other name is passed through.
pub fn run_outcome(conclusion: &Option<String>) -> (r: RunOutcome)
    ensures
        ({
            let name = conclusion_name(*conclusion);
            match r {
                RunOutcome::Success => name == "success"@,
                RunOutcome::Failure => name == "failure"@,
                RunOutcome::Cancelled => name == "cancelled"@,
                RunOutcome::Other(s) => s@ == name && name != "success"@ && name != "failure"@
                    && name != "cancelled"@,
            }
        }),
{
    let name: String = match conclusion {
        Some(c) => c.clone(),
        None => "unknown".to_owned(),
    };
    if text_eq(name.as_str(), "success") {
        RunOutcome::Success
    } else if text_eq(name.as_str(), "failure") {
        RunOutcome::Failure
    } else if text_eq(name.as_str(), "cancelled") {
        RunOutcome::Cancelled
    } else {
        RunOutcome::Other(name)
    }
}

} // verus!
