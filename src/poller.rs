//! One polling cycle: what to draw and what to fetch from a fresh snapshot.
use vstd::prelude::*;
use crate::github::{check_run_id_from_url, check_run_id_of};
use crate::model::{Annotation, Job};
use crate::tracker::{
    Cursor, RenderEvent, Tracker, cursor_after, cursor_in, needs_annotations, reconcile_events,
};

verus! {

/// Annotations to fetch for one job that has just completed.
#[derive(Debug, Clone, Copy, PartialEq, Eq, Structural)]
pub struct AnnotationFetch {
    pub job_id: u64,
    pub check_run_id: u64,
}

/// The result of reconciling every job of one snapshot.
#[derive(Debug)]
pub struct CyclePlan {
    /// Events to draw, per job: completed steps, then the job record.
    pub events: Vec<RenderEvent>,
    /// Annotation lists to fetch, one per job that has just completed.
    pub fetches: Vec<AnnotationFetch>,
}

/// The cursors after reconciling `jobs` in order.
pub open spec fn cycle_cursors(m: Map<u64, Cursor>, jobs: Seq<Job>) -> Map<u64, Cursor>
    decreases jobs.len(),
{
    if jobs.len() == 0 {
        m
    } else {
        let c = cursor_in(m, jobs[0].id);
        cycle_cursors(
            m.insert(jobs[0].id, cursor_after(c, jobs[0].status, jobs[0].steps@)),
            jobs.drop_first(),
        )
    }
}

/// The events of reconciling `jobs` in order.
pub open spec fn cycle_events(m: Map<u64, Cursor>, jobs: Seq<Job>) -> Seq<RenderEvent>
    decreases jobs.len(),
{
    if jobs.len() == 0 {
        Seq::empty()
    } else {
        let c = cursor_in(m, jobs[0].id);
        reconcile_events(c, jobs[0]) + cycle_events(
            m.insert(jobs[0].id, cursor_after(c, jobs[0].status, jobs[0].steps@)),
            jobs.drop_first(),
        )
    }
}

/// The annotation fetch owed for `job` under cursor `c`, if any: the job has
/// just completed and its address carries a check-run id.
pub open spec fn fetch_for(c: Cursor, job: Job) -> Seq<AnnotationFetch> {
    if needs_annotations(c, job.status) && check_run_id_of(job.check_run_url@) is Some {
        seq![
            AnnotationFetch {
                job_id: job.id,
                check_run_id: check_run_id_of(job.check_run_url@)->0,
            },
        ]
    } else {
        Seq::empty()
    }
}

/// The annotation fetches of reconciling `jobs` in order.
pub open spec fn cycle_fetches(m: Map<u64, Cursor>, jobs: Seq<Job>) -> Seq<AnnotationFetch>
    decreases jobs.len(),
{
    if jobs.len() == 0 {
        Seq::empty()
    } else {
        let c = cursor_in(m, jobs[0].id);
        fetch_for(c, jobs[0]) + cycle_fetches(
            m.insert(jobs[0].id, cursor_after(c, jobs[0].status, jobs[0].steps@)),
            jobs.drop_first(),
        )
    }
}

/// Over one cycle, annotation flags are never cleared; every job listed for
/// an annotation fetch had its flag clear before the cycle and set after it;
/// and no job is listed twice. Together with the flags staying set across
/// cycles, a job's annotations are fetched at most once per session.
pub proof fn lemma_cycle_fetches_once(m: Map<u64, Cursor>, jobs: Seq<Job>)
    ensures
        forall|id: u64|
            cursor_in(m, id).annotations_fetched ==> #[trigger] cursor_in(
                cycle_cursors(m, jobs),
                id,
            ).annotations_fetched,
        forall|k: int|
            0 <= k < cycle_fetches(m, jobs).len() ==> {
                let id = (#[trigger] cycle_fetches(m, jobs)[k]).job_id;
                !cursor_in(m, id).annotations_fetched && cursor_in(
                    cycle_cursors(m, jobs),
                    id,
                ).annotations_fetched
            },
        forall|a: int, b: int|
            0 <= a < b < cycle_fetches(m, jobs).len() ==> (#[trigger] cycle_fetches(m, jobs)[a]).job_id
                != (#[trigger] cycle_fetches(m, jobs)[b]).job_id,
    decreases jobs.len(),
{
    if jobs.len() > 0 {
        let j = jobs[0];
        let c = cursor_in(m, j.id);
        let m1 = m.insert(j.id, cursor_after(c, j.status, j.steps@));
        let rest = jobs.drop_first();
        lemma_cycle_fetches_once(m1, rest);
        let head = fetch_for(c, j);
        let tail = cycle_fetches(m1, rest);
        let all = cycle_fetches(m, jobs);
        let ms = cycle_cursors(m, jobs);
        assert(all == head + tail);
        assert(ms == cycle_cursors(m1, rest));
        assert forall|id: u64| cursor_in(m, id).annotations_fetched implies #[trigger] cursor_in(
            ms,
            id,
        ).annotations_fetched by {
            assert(cursor_in(m1, id).annotations_fetched);
        }
        assert forall|k: int| 0 <= k < all.len() implies {
            let id = (#[trigger] all[k]).job_id;
            !cursor_in(m, id).annotations_fetched && cursor_in(ms, id).annotations_fetched
        } by {
            if k < head.len() {
                assert(all[k] == head[k]);
                assert(cursor_in(m1, j.id).annotations_fetched);
            } else {
                assert(all[k] == tail[k - head.len()]);
                let id = tail[k - head.len()].job_id;
                assert(!cursor_in(m1, id).annotations_fetched);
            }
        }
        assert forall|a: int, b: int| 0 <= a < b < all.len() implies (#[trigger] all[a]).job_id
            != (#[trigger] all[b]).job_id by {
            if b < head.len() {
            } else if a >= head.len() {
                assert(all[a] == tail[a - head.len()]);
                assert(all[b] == tail[b - head.len()]);
            } else {
                assert(all[a] == head[a]);
                assert(all[b] == tail[b - head.len()]);
                assert(cursor_in(m1, j.id).annotations_fetched);
                assert(!cursor_in(m1, tail[b - head.len()].job_id).annotations_fetched);
            }
        }
    }
}

/// The event that reports one annotation of job `job_id`.
pub open spec fn annotation_event(job_id: u64, a: Annotation) -> RenderEvent {
    RenderEvent::AnnotationEmitted { job_id, level: a.level, title: a.title, message: a.message }
}

/// Reconciles every job of a fresh snapshot, in the order given.
///
/// Within one job the events come as the tracker orders them; the
/// annotation fetches are listed for the jobs seen completed for the first
/// time whose address carries a check-run id.
pub fn plan_cycle(tracker: &mut Tracker, jobs: Vec<Job>) -> (r: CyclePlan)
    ensures
        r.events@ == cycle_events(old(tracker)@, jobs@),
        r.fetches@ == cycle_fetches(old(tracker)@, jobs@),
        final(tracker)@ == cycle_cursors(old(tracker)@, jobs@),
{
    let mut jobs = jobs;
    let ghost all = jobs@;
    let ghost m0 = tracker@;
    let mut events: Vec<RenderEvent> = Vec::new();
    let mut fetches: Vec<AnnotationFetch> = Vec::new();
    while jobs.len() > 0
        invariant
            cycle_events(m0, all) == events@ + cycle_events(tracker@, jobs@),
            cycle_fetches(m0, all) == fetches@ + cycle_fetches(tracker@, jobs@),
            cycle_cursors(m0, all) == cycle_cursors(tracker@, jobs@),
        decreases jobs.len(),
    {
        let ghost m = tracker@;
        let ghost rest = jobs@.drop_first();
        let job = jobs.remove(0);
        assert(jobs@ == rest);
        let id = job.id;
        let check_run = check_run_id_from_url(&job.check_run_url);
        let ghost c = cursor_in(m, job.id);
        let ghost job_copy = job;
        let (mut job_events, needs) = tracker.reconcile(job);
        proof {
            assert(events@ + (reconcile_events(c, job_copy) + cycle_events(tracker@, rest))
                =~= (events@ + reconcile_events(c, job_copy)) + cycle_events(tracker@, rest));
        }
        events.append(&mut job_events);
        match check_run {
            Some(check_run_id) => {
                if needs {
                    proof {
                        assert(fetches@ + (fetch_for(c, job_copy) + cycle_fetches(tracker@, rest))
                            =~= fetches@.push(AnnotationFetch { job_id: id, check_run_id })
                            + cycle_fetches(tracker@, rest));
                    }
                    fetches.push(AnnotationFetch { job_id: id, check_run_id });
                } else {
                    assert(fetch_for(c, job_copy) =~= Seq::<AnnotationFetch>::empty());
                    assert(fetches@ + (fetch_for(c, job_copy) + cycle_fetches(tracker@, rest))
                        =~= fetches@ + cycle_fetches(tracker@, rest));
                }
            },
            None => {
                assert(fetch_for(c, job_copy) =~= Seq::<AnnotationFetch>::empty());
                assert(fetches@ + (fetch_for(c, job_copy) + cycle_fetches(tracker@, rest))
                    =~= fetches@ + cycle_fetches(tracker@, rest));
            },
        }
    }
    assert(events@ + Seq::<RenderEvent>::empty() =~= events@);
    assert(fetches@ + Seq::<AnnotationFetch>::empty() =~= fetches@);
    CyclePlan { events, fetches }
}

/// The events that report the annotations of job `job_id`, in the order returned.
pub fn annotation_events(job_id: u64, annotations: Vec<Annotation>) -> (r: Vec<RenderEvent>)
    ensures
        r@ == annotations@.map_values(|a: Annotation| annotation_event(job_id, a)),
{
    let mut annotations = annotations;
    let ghost all = annotations@;
    let mut events: Vec<RenderEvent> = Vec::new();
    while annotations.len() > 0
        invariant
            all.map_values(|a: Annotation| annotation_event(job_id, a)) == events@
                + annotations@.map_values(|a: Annotation| annotation_event(job_id, a)),
        decreases annotations.len(),
    {
        let ghost rest = annotations@.drop_first();
        let a = annotations.remove(0);
        assert(annotations@ == rest);
        proof {
            let f = |a: Annotation| annotation_event(job_id, a);
            assert(seq![a].add(rest).map_values(f) =~= seq![f(a)] + rest.map_values(f));
            assert(seq![a].add(rest) =~= annotations@.insert(0, a));
        }
        events.push(
            RenderEvent::AnnotationEmitted {
                job_id,
                level: a.level,
                title: a.title,
                message: a.message,
            },
        );
        proof {
            let f = |a: Annotation| annotation_event(job_id, a);
            assert(events@.drop_last() + (seq![f(a)] + rest.map_values(f)) =~= events@
                + rest.map_values(f));
        }
    }
    assert(events@ + Seq::<RenderEvent>::empty() =~= events@);
    events
}

} // verus!
