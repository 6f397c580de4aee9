//! Per-job bookkeeping that keeps a watch session from reporting anything twice.
use std::collections::HashMap;
use vstd::prelude::*;
use crate::model::{Job, JobConclusion, JobStatus, Step};

verus! {

broadcast use vstd::std_specs::hash::group_hash_axioms;

/// What has already been reported for one job.
#[derive(Debug, Clone, Copy, PartialEq, Eq, Structural)]
pub struct Cursor {
    /// Highest step number reported as completed; 0 before any.
    pub last_step: u32,
    /// Whether the job's annotations were already requested.
    pub annotations_fetched: bool,
}

/// The cursor of a job that has not been seen yet.
pub open spec fn fresh_cursor() -> Cursor {
    Cursor { last_step: 0, annotations_fetched: false }
}

/// Something for the presentation sink to draw.
#[derive(Debug)]
pub enum RenderEvent {
    /// A step of a job finished.
    StepCompleted { job_id: u64, name: String, conclusion: Option<JobConclusion> },
    /// The current record of a job.
    JobUpdated(Job),
    /// A diagnostic message of a completed job.
    AnnotationEmitted {
        job_id: u64,
        level: Option<String>,
        title: Option<String>,
        message: Option<String>,
    },
}

/// Step `i` finished and has a number above `last`.
pub open spec fn is_candidate(steps: Seq<Step>, last: u32, i: int) -> bool {
    &&& 0 <= i < steps.len()
    &&& steps[i].status == JobStatus::Completed
    &&& steps[i].number > last
}

/// Step `i` is the first candidate with the smallest number.
pub open spec fn is_next_index(steps: Seq<Step>, last: u32, i: int) -> bool {
    &&& is_candidate(steps, last, i)
    &&& forall|j: int| #[trigger]
        is_candidate(steps, last, j) ==> steps[i].number <= steps[j].number
    &&& forall|j: int|
        0 <= j < i && #[trigger] is_candidate(steps, last, j) ==> steps[j].number != steps[i].number
}

/// Index of the next step to report after `last`, if any.
pub open spec fn next_index(steps: Seq<Step>, last: u32) -> Option<int> {
    if exists|i: int| is_next_index(steps, last, i) {
        Some(choose|i: int| is_next_index(steps, last, i))
    } else {
        None
    }
}

/// The completed steps numbered above `last`, one per number, in ascending order.
pub open spec fn new_steps(steps: Seq<Step>, last: u32) -> Seq<Step>
    decreases u32::MAX - last,
{
    match next_index(steps, last) {
        Some(i) => if 0 <= i < steps.len() && steps[i].number > last {
            seq![steps[i]] + new_steps(steps, steps[i].number)
        } else {
            Seq::empty()
        },
        None => Seq::empty(),
    }
}

/// The highest completed step number, or `last` if none is above it.
pub open spec fn advanced(steps: Seq<Step>, last: u32) -> u32
    decreases u32::MAX - last,
{
    match next_index(steps, last) {
        Some(i) => if 0 <= i < steps.len() && steps[i].number > last {
            advanced(steps, steps[i].number)
        } else {
            last
        },
        None => last,
    }
}

/// The event that reports one completed step of job `job_id`.
pub open spec fn step_event(job_id: u64, s: Step) -> RenderEvent {
    RenderEvent::StepCompleted { job_id, name: s.name, conclusion: s.conclusion }
}

/// The events that report `steps` of job `job_id`, in order.
pub open spec fn step_events(job_id: u64, steps: Seq<Step>) -> Seq<RenderEvent> {
    steps.map_values(|s: Step| step_event(job_id, s))
}

/// Whether the annotations of a job in `status` must be fetched now.
pub open spec fn needs_annotations(c: Cursor, status: JobStatus) -> bool {
    status == JobStatus::Completed && !c.annotations_fetched
}

/// The cursor after a job with `status` and `steps` was reconciled.
pub open spec fn cursor_after(c: Cursor, status: JobStatus, steps: Seq<Step>) -> Cursor {
    Cursor {
        last_step: advanced(steps, c.last_step),
        annotations_fetched: c.annotations_fetched || status == JobStatus::Completed,
    }
}

/// The cursor of job `id` in `m`.
pub open spec fn cursor_in(m: Map<u64, Cursor>, id: u64) -> Cursor {
    if m.contains_key(id) {
        m[id]
    } else {
        fresh_cursor()
    }
}

/// The events that reconciling `job` against cursor `c` produces.
pub open spec fn reconcile_events(c: Cursor, job: Job) -> Seq<RenderEvent> {
    step_events(job.id, new_steps(job.steps@, c.last_step)).push(RenderEvent::JobUpdated(job))
}

/// There is at most one next index.
proof fn lemma_next_index_unique(steps: Seq<Step>, last: u32, i: int, j: int)
    requires
        is_next_index(steps, last, i),
        is_next_index(steps, last, j),
    ensures
        i == j,
{
    assert(is_candidate(steps, last, i));
    assert(is_candidate(steps, last, j));
    if i < j {
        assert(steps[i].number != steps[j].number);
    } else if j < i {
        assert(steps[j].number != steps[i].number);
    }
}

/// The next index is the one found.
proof fn lemma_next_index_is(steps: Seq<Step>, last: u32, i: int)
    requires
        is_next_index(steps, last, i),
    ensures
        next_index(steps, last) == Some(i),
{
    let k = choose|k: int| is_next_index(steps, last, k);
    lemma_next_index_unique(steps, last, i, k);
}

/// Without candidates there is no next index.
proof fn lemma_next_index_none(steps: Seq<Step>, last: u32)
    requires
        forall|j: int| !is_candidate(steps, last, j),
    ensures
        next_index(steps, last) is None,
{
}

/// The next index, when there is one, is the first candidate with the smallest number.
proof fn lemma_next_index_some(steps: Seq<Step>, last: u32)
    ensures
        match next_index(steps, last) {
            Some(i) => is_next_index(steps, last, i),
            None => forall|j: int| !is_next_index(steps, last, j),
        },
{
}

/// The steps reported after `last` lie above it, ascend strictly and end at
/// the advanced cursor, past which nothing is left to report.
pub proof fn lemma_new_steps(steps: Seq<Step>, last: u32)
    ensures
        advanced(steps, last) >= last,
        next_index(steps, advanced(steps, last)) is None,
        forall|k: int|
            0 <= k < new_steps(steps, last).len() ==> last < #[trigger] new_steps(steps, last)[k].number
                <= advanced(steps, last),
        forall|a: int, b: int|
            0 <= a < b < new_steps(steps, last).len() ==> #[trigger] new_steps(steps, last)[a].number
                < #[trigger] new_steps(steps, last)[b].number,
    decreases u32::MAX - last,
{
    lemma_next_index_some(steps, last);
    match next_index(steps, last) {
        Some(i) => {
            let n = steps[i].number;
            lemma_new_steps(steps, n);
            let rest = new_steps(steps, n);
            let all = new_steps(steps, last);
            assert(all == seq![steps[i]] + rest);
            assert forall|k: int| 0 <= k < all.len() implies last < #[trigger] all[k].number
                <= advanced(steps, last) by {
                if k > 0 {
                    assert(all[k] == rest[k - 1]);
                }
            }
            assert forall|a: int, b: int| 0 <= a < b < all.len() implies #[trigger] all[a].number
                < #[trigger] all[b].number by {
                assert(all[b] == rest[b - 1]);
                if a > 0 {
                    assert(all[a] == rest[a - 1]);
                }
            }
        },
        None => {},
    }
}

/// Cursor and emissions after a job was reconciled once per poll in `polls`,
/// each poll giving the job's status and steps.
pub open spec fn replay(c: Cursor, polls: Seq<(JobStatus, Seq<Step>)>) -> Cursor
    decreases polls.len(),
{
    if polls.len() == 0 {
        c
    } else {
        replay(cursor_after(c, polls[0].0, polls[0].1), polls.drop_first())
    }
}

/// The steps reported, in order, over all of `polls`.
pub open spec fn replay_steps(c: Cursor, polls: Seq<(JobStatus, Seq<Step>)>) -> Seq<Step>
    decreases polls.len(),
{
    if polls.len() == 0 {
        Seq::empty()
    } else {
        new_steps(polls[0].1, c.last_step) + replay_steps(
            cursor_after(c, polls[0].0, polls[0].1),
            polls.drop_first(),
        )
    }
}

/// For each poll in `polls`, whether it asked for the job's annotations.
pub open spec fn replay_needs(c: Cursor, polls: Seq<(JobStatus, Seq<Step>)>) -> Seq<bool>
    decreases polls.len(),
{
    if polls.len() == 0 {
        Seq::empty()
    } else {
        seq![needs_annotations(c, polls[0].0)] + replay_needs(
            cursor_after(c, polls[0].0, polls[0].1),
            polls.drop_first(),
        )
    }
}

/// Over any sequence of polls, step numbers are reported in strictly
/// ascending order, each above the starting cursor and no higher than the
/// final one.
pub proof fn lemma_reported_steps_ascend(c: Cursor, polls: Seq<(JobStatus, Seq<Step>)>)
    ensures
        replay(c, polls).last_step >= c.last_step,
        forall|k: int|
            0 <= k < replay_steps(c, polls).len() ==> c.last_step < #[trigger] replay_steps(
                c,
                polls,
            )[k].number <= replay(c, polls).last_step,
        forall|a: int, b: int|
            0 <= a < b < replay_steps(c, polls).len() ==> #[trigger] replay_steps(c, polls)[a].number
                < #[trigger] replay_steps(c, polls)[b].number,
    decreases polls.len(),
{
    if polls.len() > 0 {
        let head = new_steps(polls[0].1, c.last_step);
        let c1 = cursor_after(c, polls[0].0, polls[0].1);
        lemma_new_steps(polls[0].1, c.last_step);
        lemma_reported_steps_ascend(c1, polls.drop_first());
        let tail = replay_steps(c1, polls.drop_first());
        let all = replay_steps(c, polls);
        assert(all == head + tail);
        assert forall|k: int| 0 <= k < all.len() implies c.last_step < #[trigger] all[k].number
            <= replay(c, polls).last_step by {
            if k >= head.len() {
                assert(all[k] == tail[k - head.len()]);
            } else {
                assert(all[k] == head[k]);
            }
        }
        assert forall|a: int, b: int| 0 <= a < b < all.len() implies #[trigger] all[a].number
            < #[trigger] all[b].number by {
            if b < head.len() {
                assert(all[a] == head[a]);
                assert(all[b] == head[b]);
            } else if a >= head.len() {
                assert(all[a] == tail[a - head.len()]);
                assert(all[b] == tail[b - head.len()]);
            } else {
                assert(all[a] == head[a]);
                assert(all[b] == tail[b - head.len()]);
            }
        }
    }
}

/// Over any sequence of polls the cursor never moves back, and no step
/// number is reported twice.
pub proof fn lemma_cursor_monotonic(c: Cursor, polls: Seq<(JobStatus, Seq<Step>)>, i: int, j: int)
    requires
        0 <= i <= j <= polls.len(),
    ensures
        replay(c, polls.take(i)).last_step <= replay(c, polls.take(j)).last_step,
        forall|a: int, b: int|
            0 <= a < b < replay_steps(c, polls).len() ==> #[trigger] replay_steps(c, polls)[a].number
                != #[trigger] replay_steps(c, polls)[b].number,
    decreases polls.len(),
{
    lemma_reported_steps_ascend(c, polls);
    if i > 0 {
        let c1 = cursor_after(c, polls[0].0, polls[0].1);
        let rest = polls.drop_first();
        assert(polls.take(i).drop_first() == rest.take(i - 1));
        assert(polls.take(j).drop_first() == rest.take(j - 1));
        lemma_cursor_monotonic(c1, rest, i - 1, j - 1);
    } else {
        lemma_reported_steps_ascend(c, polls.take(j));
        assert(polls.take(0) == Seq::<(JobStatus, Seq<Step>)>::empty());
    }
}

/// Starting from a fresh cursor, the annotations of a job are asked for in
/// exactly one poll: the first that sees the job completed.
pub proof fn lemma_annotations_at_most_once(polls: Seq<(JobStatus, Seq<Step>)>, i: int)
    requires
        0 <= i < polls.len(),
    ensures
        replay_needs(fresh_cursor(), polls).len() == polls.len(),
        replay_needs(fresh_cursor(), polls)[i] <==> (polls[i].0 == JobStatus::Completed && forall|
            j: int,
        |
            0 <= j < i ==> (#[trigger] polls[j]).0 != JobStatus::Completed),
{
    lemma_needs_flags(fresh_cursor(), polls, i);
}

proof fn lemma_needs_flags(c: Cursor, polls: Seq<(JobStatus, Seq<Step>)>, i: int)
    requires
        0 <= i < polls.len(),
    ensures
        replay_needs(c, polls).len() == polls.len(),
        replay_needs(c, polls)[i] <==> (!c.annotations_fetched && polls[i].0 == JobStatus::Completed
            && forall|j: int| 0 <= j < i ==> (#[trigger] polls[j]).0 != JobStatus::Completed),
    decreases polls.len(),
{
    lemma_needs_len(c, polls);
    let c1 = cursor_after(c, polls[0].0, polls[0].1);
    let rest = polls.drop_first();
    if i > 0 {
        lemma_needs_flags(c1, rest, i - 1);
        assert(replay_needs(c, polls)[i] == replay_needs(c1, rest)[i - 1]);
        if replay_needs(c, polls)[i] {
            assert forall|j: int| 0 <= j < i implies (#[trigger] polls[j]).0 != JobStatus::Completed by {
                if j > 0 {
                    assert(polls[j] == rest[j - 1]);
                }
            }
        }
        if !c.annotations_fetched && polls[i].0 == JobStatus::Completed && forall|j: int|
            0 <= j < i ==> (#[trigger] polls[j]).0 != JobStatus::Completed {
            assert(polls[0].0 != JobStatus::Completed);
            assert forall|j: int| 0 <= j < i - 1 implies (#[trigger] rest[j]).0
                != JobStatus::Completed by {
                assert(rest[j] == polls[j + 1]);
            }
        }
    }
}

proof fn lemma_needs_len(c: Cursor, polls: Seq<(JobStatus, Seq<Step>)>)
    ensures
        replay_needs(c, polls).len() == polls.len(),
    decreases polls.len(),
{
    if polls.len() > 0 {
        lemma_needs_len(cursor_after(c, polls[0].0, polls[0].1), polls.drop_first());
    }
}

/// Reconciling the same job record twice in a row: the second time reports
/// no step and asks for no annotations, only the job record itself, and
/// leaves the cursor as it was.
pub proof fn lemma_repoll_idempotent(c: Cursor, job: Job)
    ensures
        ({
            let c1 = cursor_after(c, job.status, job.steps@);
            &&& reconcile_events(c1, job) == seq![RenderEvent::JobUpdated(job)]
            &&& !needs_annotations(c1, job.status)
            &&& cursor_after(c1, job.status, job.steps@) == c1
        }),
{
    let c1 = cursor_after(c, job.status, job.steps@);
    lemma_new_steps(job.steps@, c.last_step);
    assert(new_steps(job.steps@, c1.last_step) == Seq::<Step>::empty());
    assert(advanced(job.steps@, c1.last_step) == c1.last_step);
    assert(step_events(job.id, Seq::<Step>::empty()) =~= Seq::<RenderEvent>::empty());
    assert(reconcile_events(c1, job) =~= seq![RenderEvent::JobUpdated(job)]);
}

/// Finds the first completed step with the smallest number above `last`.
fn find_next(steps: &Vec<Step>, last: u32) -> (r: Option<usize>)
    ensures
        match r {
            Some(i) => is_next_index(steps@, last, i as int),
            None => forall|j: int| !is_candidate(steps@, last, j),
        },
{
    let mut best: Option<usize> = None;
    let mut k: usize = 0;
    while k < steps.len()
        invariant
            k <= steps.len(),
            match best {
                Some(b) => {
                    &&& b < k
                    &&& is_candidate(steps@, last, b as int)
                    &&& forall|j: int|
                        0 <= j < k && #[trigger] is_candidate(steps@, last, j)
                            ==> steps@[b as int].number <= steps@[j].number
                    &&& forall|j: int|
                        0 <= j < b && #[trigger] is_candidate(steps@, last, j)
                            ==> steps@[j].number != steps@[b as int].number
                },
                None => forall|j: int| 0 <= j < k ==> !is_candidate(steps@, last, j),
            },
        decreases steps.len() - k,
    {
        let s = &steps[k];
        if s.status == JobStatus::Completed && s.number > last {
            match best {
                None => {
                    best = Some(k);
                },
                Some(b) => {
                    if s.number < steps[b].number {
                        best = Some(k);
                    }
                },
            }
        }
        k = k + 1;
    }
    best
}

/// Per-job cursors of one watch session, keyed by job id.
pub struct Tracker {
    cursors: HashMap<u64, Cursor>,
}

impl View for Tracker {
    type V = Map<u64, Cursor>;

    closed spec fn view(&self) -> Map<u64, Cursor> {
        self.cursors@
    }
}

impl Tracker {
    /// A tracker that has seen no job.
    pub fn new() -> (r: Tracker)
        ensures
            r@ == Map::<u64, Cursor>::empty(),
    {
        Tracker { cursors: HashMap::new() }
    }

    /// The cursor kept for job `id`.
    pub fn cursor(&self, id: u64) -> (r: Cursor)
        ensures
            r == cursor_in(self@, id),
    {
        match self.cursors.get(&id) {
            Some(c) => *c,
            None => Cursor { last_step: 0, annotations_fetched: false },
        }
    }

    /// Compares a fresh record of a job with what was reported before.
    ///
    /// Returns the events to draw (newly completed steps in ascending number,
    /// then the job record) and whether the job's annotations must be fetched
    /// now. The cursor is advanced so that nothing is reported twice; the
    /// annotation flag is set before any fetch happens.
    pub fn reconcile(&mut self, job: Job) -> (r: (Vec<RenderEvent>, bool))
        ensures
            r.0@ == reconcile_events(cursor_in(old(self)@, job.id), job),
            r.1 == needs_annotations(cursor_in(old(self)@, job.id), job.status),
            final(self)@ == old(self)@.insert(
                job.id,
                cursor_after(cursor_in(old(self)@, job.id), job.status, job.steps@),
            ),
    {
        let c = self.cursor(job.id);
        let mut events: Vec<RenderEvent> = Vec::new();
        let mut last = c.last_step;
        loop
            invariant
                last >= c.last_step,
                step_events(job.id, new_steps(job.steps@, c.last_step)) == events@ + step_events(
                    job.id,
                    new_steps(job.steps@, last),
                ),
                advanced(job.steps@, c.last_step) == advanced(job.steps@, last),
            ensures
                step_events(job.id, new_steps(job.steps@, c.last_step)) == events@,
                advanced(job.steps@, c.last_step) == last,
            decreases u32::MAX - last,
        {
            match find_next(&job.steps, last) {
                None => {
                    proof {
                        lemma_next_index_none(job.steps@, last);
                        assert(new_steps(job.steps@, last) == Seq::<Step>::empty());
                        assert(step_events(job.id, Seq::<Step>::empty()) =~= Seq::<RenderEvent>::empty());
                        assert(events@ + Seq::<RenderEvent>::empty() =~= events@);
                        assert(advanced(job.steps@, last) == last);
                    }
                    break;
                },
                Some(i) => {
                    let s = &job.steps[i];
                    proof {
                        lemma_next_index_is(job.steps@, last, i as int);
                        let rest = new_steps(job.steps@, s.number);
                        assert(new_steps(job.steps@, last) == seq![*s] + rest);
                        assert(step_events(job.id, seq![*s] + rest) =~= seq![step_event(job.id, *s)]
                            + step_events(job.id, rest));
                        assert(events@ + (seq![step_event(job.id, *s)] + step_events(job.id, rest))
                            =~= events@.push(step_event(job.id, *s)) + step_events(job.id, rest));
                    }
                    events.push(
                        RenderEvent::StepCompleted {
                            job_id: job.id,
                            name: s.name.clone(),
                            conclusion: s.conclusion,
                        },
                    );
                    last = s.number;
                },
            }
        }
        let needs = job.status == JobStatus::Completed && !c.annotations_fetched;
        let next = Cursor {
            last_step: last,
            annotations_fetched: c.annotations_fetched || job.status == JobStatus::Completed,
        };
        self.cursors.insert(job.id, next);
        events.push(RenderEvent::JobUpdated(job));
        (events, needs)
    }
}

} // verus!
