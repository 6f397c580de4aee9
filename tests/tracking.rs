use gh_dispatch::model::{Annotation, Job, JobConclusion, JobStatus, Step};
use gh_dispatch::poller::{annotation_events, plan_cycle, AnnotationFetch};
use gh_dispatch::tracker::{Cursor, RenderEvent, Tracker};

fn step(number: u32, status: JobStatus, conclusion: Option<JobConclusion>) -> Step {
    Step { name: format!("step {number}"), number, status, conclusion }
}

fn job(id: u64, status: JobStatus, steps: Vec<Step>) -> Job {
    Job {
        id,
        name: format!("job {id}"),
        status,
        conclusion: None,
        started_at_ms: None,
        completed_at_ms: None,
        check_run_url: format!("https://api.github.com/repos/o/r/check-runs/{}", id + 1000),
        steps,
    }
}

fn completed_steps(events: &[RenderEvent]) -> Vec<(u64, String, Option<JobConclusion>)> {
    events
        .iter()
        .filter_map(|e| match e {
            RenderEvent::StepCompleted { job_id, name, conclusion } => {
                Some((*job_id, name.clone(), *conclusion))
            }
            _ => None,
        })
        .collect()
}

fn is_job_updated(e: &RenderEvent, id: u64) -> bool {
    matches!(e, RenderEvent::JobUpdated(j) if j.id == id)
}

#[test]
fn three_polls_of_one_job() {
    let mut t = Tracker::new();
    let (a, needs_a) = t.reconcile(job(1, JobStatus::InProgress, vec![step(1, JobStatus::Queued, None)]));
    assert_eq!(a.len(), 1);
    assert!(is_job_updated(&a[0], 1));
    assert!(!needs_a);

    let (b, needs_b) = t.reconcile(job(
        1,
        JobStatus::InProgress,
        vec![
            step(1, JobStatus::Completed, Some(JobConclusion::Success)),
            step(2, JobStatus::InProgress, None),
        ],
    ));
    assert_eq!(b.len(), 2);
    assert_eq!(
        completed_steps(&b),
        vec![(1, "step 1".to_string(), Some(JobConclusion::Success))]
    );
    assert!(is_job_updated(&b[1], 1));
    assert!(!needs_b);

    let (c, needs_c) = t.reconcile(job(
        1,
        JobStatus::Completed,
        vec![
            step(1, JobStatus::Completed, Some(JobConclusion::Success)),
            step(2, JobStatus::Completed, Some(JobConclusion::Failure)),
        ],
    ));
    assert_eq!(c.len(), 2);
    assert_eq!(
        completed_steps(&c),
        vec![(1, "step 2".to_string(), Some(JobConclusion::Failure))]
    );
    assert!(is_job_updated(&c[1], 1));
    assert!(needs_c);

    let anns = vec![
        Annotation { level: Some("warning".to_string()), title: None, message: Some("slow".to_string()) },
        Annotation { level: None, title: Some("note".to_string()), message: None },
    ];
    let ev = annotation_events(1, anns);
    assert_eq!(ev.len(), 2);
    match &ev[0] {
        RenderEvent::AnnotationEmitted { job_id, level, title, message } => {
            assert_eq!(*job_id, 1);
            assert_eq!(level.as_deref(), Some("warning"));
            assert_eq!(title.as_deref(), None);
            assert_eq!(message.as_deref(), Some("slow"));
        }
        _ => panic!("expected an annotation"),
    }
    match &ev[1] {
        RenderEvent::AnnotationEmitted { title, .. } => assert_eq!(title.as_deref(), Some("note")),
        _ => panic!("expected an annotation"),
    }
    assert_eq!(t.cursor(1), Cursor { last_step: 2, annotations_fetched: true });
}

#[test]
fn repeated_snapshot_reports_only_the_job() {
    let mut t = Tracker::new();
    let make = || {
        job(
            7,
            JobStatus::Completed,
            vec![
                step(1, JobStatus::Completed, Some(JobConclusion::Success)),
                step(2, JobStatus::Completed, Some(JobConclusion::Skipped)),
            ],
        )
    };
    let (first, needs_first) = t.reconcile(make());
    assert_eq!(completed_steps(&first).len(), 2);
    assert!(needs_first);
    let before = t.cursor(7);
    let (second, needs_second) = t.reconcile(make());
    assert_eq!(second.len(), 1);
    assert!(is_job_updated(&second[0], 7));
    assert!(!needs_second);
    assert_eq!(t.cursor(7), before);
}

#[test]
fn unsorted_steps_come_out_ascending_and_once() {
    let mut t = Tracker::new();
    let (ev, _) = t.reconcile(job(
        3,
        JobStatus::InProgress,
        vec![
            step(3, JobStatus::Completed, Some(JobConclusion::Success)),
            step(1, JobStatus::Completed, Some(JobConclusion::Success)),
            step(4, JobStatus::InProgress, None),
            step(2, JobStatus::Completed, Some(JobConclusion::Failure)),
            step(1, JobStatus::Completed, Some(JobConclusion::Failure)),
        ],
    ));
    let names: Vec<String> = completed_steps(&ev).into_iter().map(|s| s.1).collect();
    assert_eq!(names, vec!["step 1", "step 2", "step 3"]);
    // The first step listed with a number is the one reported.
    assert_eq!(completed_steps(&ev)[0].2, Some(JobConclusion::Success));
    assert_eq!(t.cursor(3).last_step, 3);

    // A shrunk list reports nothing already reported, and the cursor stays.
    let (ev2, _) = t.reconcile(job(3, JobStatus::InProgress, vec![step(2, JobStatus::Completed, None)]));
    assert!(completed_steps(&ev2).is_empty());
    assert_eq!(t.cursor(3).last_step, 3);

    let (ev3, _) = t.reconcile(job(
        3,
        JobStatus::InProgress,
        vec![step(4, JobStatus::Completed, Some(JobConclusion::Success))],
    ));
    assert_eq!(completed_steps(&ev3).len(), 1);
    assert_eq!(t.cursor(3).last_step, 4);
}

#[test]
fn job_without_steps_is_still_reported() {
    let mut t = Tracker::new();
    for _ in 0..3 {
        let (ev, needs) = t.reconcile(job(9, JobStatus::Queued, vec![]));
        assert_eq!(ev.len(), 1);
        assert!(is_job_updated(&ev[0], 9));
        assert!(!needs);
    }
    assert_eq!(t.cursor(9), Cursor { last_step: 0, annotations_fetched: false });
}

#[test]
fn annotations_are_asked_for_once() {
    let mut t = Tracker::new();
    let (_, n1) = t.reconcile(job(5, JobStatus::InProgress, vec![]));
    let (_, n2) = t.reconcile(job(5, JobStatus::Completed, vec![]));
    let (_, n3) = t.reconcile(job(5, JobStatus::Completed, vec![]));
    let (_, n4) = t.reconcile(job(5, JobStatus::InProgress, vec![]));
    let (_, n5) = t.reconcile(job(5, JobStatus::Completed, vec![]));
    assert_eq!((n1, n2, n3, n4, n5), (false, true, false, false, false));
}

#[test]
fn cycle_plans_events_and_fetches() {
    let mut t = Tracker::new();
    let mut odd = job(2, JobStatus::Completed, vec![]);
    odd.check_run_url = "https://example.com/check-runs/not-a-number".to_string();
    let jobs = vec![
        job(1, JobStatus::Completed, vec![step(1, JobStatus::Completed, Some(JobConclusion::Success))]),
        odd,
        job(3, JobStatus::InProgress, vec![]),
    ];
    let plan = plan_cycle(&mut t, jobs);
    assert_eq!(plan.events.len(), 4);
    assert!(matches!(plan.events[0], RenderEvent::StepCompleted { job_id: 1, .. }));
    assert!(is_job_updated(&plan.events[1], 1));
    assert!(is_job_updated(&plan.events[2], 2));
    assert!(is_job_updated(&plan.events[3], 3));
    assert_eq!(plan.fetches, vec![AnnotationFetch { job_id: 1, check_run_id: 1001 }]);
    // The job whose address carries no id is still marked as handled.
    assert!(t.cursor(2).annotations_fetched);

    let again = plan_cycle(&mut t, vec![job(1, JobStatus::Completed, vec![])]);
    assert_eq!(again.events.len(), 1);
    assert!(again.fetches.is_empty());
}
