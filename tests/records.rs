use gh_dispatch::cli::{Args, Workflow};
use gh_dispatch::config::{AppConfig, ConfigError, WorkflowRef};
use gh_dispatch::github::check_run_id_from_url;
use gh_dispatch::model::{text_eq, Job, JobConclusion, JobStatus, Step};
use gh_dispatch::prompts::{plan_input, InputError, InputPlan, WorkflowInput};
use gh_dispatch::report::{
    annotation_layout, annotation_level, job_duration, job_mark, job_suffix, run_outcome,
    step_mark, AnnotationLayout, AnnotationLevel, JobMark, JobSuffix, RunOutcome, StepMark,
};
use gh_dispatch::schema::{decode_content, strip_white_space, text_of_bytes, white_space, ContentError};

fn job(status: JobStatus, conclusion: Option<JobConclusion>, steps: Vec<Step>) -> Job {
    Job {
        id: 1,
        name: "build".to_string(),
        status,
        conclusion,
        started_at_ms: None,
        completed_at_ms: None,
        check_run_url: String::new(),
        steps,
    }
}

#[test]
fn check_run_id_is_the_last_segment() {
    assert_eq!(
        check_run_id_from_url("https://api.github.com/repos/o/r/check-runs/123"),
        Some(123)
    );
    assert_eq!(check_run_id_from_url("42"), Some(42));
    assert_eq!(check_run_id_from_url("a/+7"), Some(7));
    assert_eq!(check_run_id_from_url("a/18446744073709551615"), Some(u64::MAX));
    assert_eq!(check_run_id_from_url("a/18446744073709551616"), None);
    assert_eq!(check_run_id_from_url("a/12/"), None);
    assert_eq!(check_run_id_from_url("a/1x"), None);
    assert_eq!(check_run_id_from_url("a/+"), None);
    assert_eq!(check_run_id_from_url("a/-3"), None);
    assert_eq!(check_run_id_from_url(""), None);
}

#[test]
fn status_and_conclusion_names() {
    assert_eq!(JobStatus::from_name("queued"), JobStatus::Queued);
    assert_eq!(JobStatus::from_name("waiting"), JobStatus::Waiting);
    assert_eq!(JobStatus::from_name("pending"), JobStatus::Pending);
    assert_eq!(JobStatus::from_name("in_progress"), JobStatus::InProgress);
    assert_eq!(JobStatus::from_name("completed"), JobStatus::Completed);
    assert_eq!(JobStatus::from_name("requested"), JobStatus::Unknown);
    assert_eq!(JobConclusion::from_name("success"), JobConclusion::Success);
    assert_eq!(JobConclusion::from_name("action_required"), JobConclusion::ActionRequired);
    assert_eq!(JobConclusion::from_name("timed_out"), JobConclusion::TimedOut);
    assert_eq!(JobConclusion::from_name("stale"), JobConclusion::Unknown);
    assert!(text_eq("abc", "abc"));
    assert!(!text_eq("abc", "abd"));
    assert!(!text_eq("abc", "ab"));
}

#[test]
fn job_marks_and_suffixes() {
    assert_eq!(job_mark(JobStatus::Completed, Some(JobConclusion::Success)), JobMark::Succeeded);
    assert_eq!(job_mark(JobStatus::Completed, Some(JobConclusion::Failure)), JobMark::Failed);
    assert_eq!(job_mark(JobStatus::Completed, Some(JobConclusion::Cancelled)), JobMark::Cancelled);
    assert_eq!(job_mark(JobStatus::Completed, None), JobMark::Finished);
    assert_eq!(job_mark(JobStatus::InProgress, None), JobMark::Running);
    assert_eq!(job_mark(JobStatus::Waiting, None), JobMark::Idle);
    assert_eq!(step_mark(Some(JobConclusion::Success)), StepMark::Succeeded);
    assert_eq!(step_mark(Some(JobConclusion::Failure)), StepMark::Failed);
    assert_eq!(step_mark(Some(JobConclusion::Skipped)), StepMark::Skipped);
    assert_eq!(step_mark(Some(JobConclusion::Neutral)), StepMark::Other);
    assert_eq!(step_mark(None), StepMark::Other);

    assert_eq!(job_suffix(&job(JobStatus::Queued, None, vec![])), JobSuffix::Queued);
    assert_eq!(job_suffix(&job(JobStatus::Waiting, None, vec![])), JobSuffix::Waiting);
    assert_eq!(job_suffix(&job(JobStatus::Pending, None, vec![])), JobSuffix::Nothing);
    assert_eq!(job_suffix(&job(JobStatus::InProgress, None, vec![])), JobSuffix::Running);
    let steps = vec![
        Step { name: "checkout".to_string(), number: 1, status: JobStatus::Completed, conclusion: None },
        Step { name: "compile".to_string(), number: 2, status: JobStatus::InProgress, conclusion: None },
        Step { name: "test".to_string(), number: 3, status: JobStatus::InProgress, conclusion: None },
    ];
    assert_eq!(
        job_suffix(&job(JobStatus::InProgress, None, steps)),
        JobSuffix::CurrentStep("compile".to_string())
    );
    assert_eq!(job_suffix(&job(JobStatus::Completed, None, vec![])), JobSuffix::Nothing);
}

#[test]
fn durations_in_minutes_and_seconds() {
    let mut j = job(JobStatus::Completed, Some(JobConclusion::Success), vec![]);
    j.started_at_ms = Some(1_700_000_000_000);
    j.completed_at_ms = Some(1_700_000_125_999);
    assert_eq!(job_duration(&j), Some((2, 5)));
    assert_eq!(job_suffix(&j), JobSuffix::Took { minutes: 2, seconds: 5 });
    j.completed_at_ms = Some(1_699_999_990_000);
    assert_eq!(job_duration(&j), Some((0, 0)));
    j.started_at_ms = Some(i64::MIN);
    j.completed_at_ms = Some(i64::MAX);
    let secs = (u64::MAX / 1000) as u64;
    assert_eq!(job_duration(&j), Some((secs / 60, secs % 60)));
    j.completed_at_ms = None;
    assert_eq!(job_duration(&j), None);
}

#[test]
fn annotation_levels_and_layouts() {
    assert_eq!(annotation_level(&Some("failure".to_string())), AnnotationLevel::Failure);
    assert_eq!(annotation_level(&Some("warning".to_string())), AnnotationLevel::Warning);
    assert_eq!(annotation_level(&Some("notice".to_string())), AnnotationLevel::Notice);
    assert_eq!(annotation_level(&None), AnnotationLevel::Notice);
    let s = |t: &str| Some(t.to_string());
    assert_eq!(annotation_layout(&s("T"), &s("M")), AnnotationLayout::TitleAndMessage);
    assert_eq!(annotation_layout(&s("T"), &None), AnnotationLayout::TitleOnly);
    assert_eq!(annotation_layout(&s("T"), &s("")), AnnotationLayout::TitleOnly);
    assert_eq!(annotation_layout(&s(""), &s("M")), AnnotationLayout::MessageOnly);
    assert_eq!(annotation_layout(&None, &None), AnnotationLayout::MessageOnly);
}

#[test]
fn run_outcomes() {
    assert_eq!(run_outcome(&Some("success".to_string())), RunOutcome::Success);
    assert_eq!(run_outcome(&Some("failure".to_string())), RunOutcome::Failure);
    assert_eq!(run_outcome(&Some("cancelled".to_string())), RunOutcome::Cancelled);
    assert_eq!(run_outcome(&Some("skipped".to_string())), RunOutcome::Other("skipped".to_string()));
    assert_eq!(run_outcome(&None), RunOutcome::Other("unknown".to_string()));
}

#[test]
fn workflow_references() {
    let r = WorkflowRef::parse("octo/app", "build.yml".to_string()).unwrap();
    assert_eq!((r.owner.as_str(), r.repo.as_str(), r.workflow.as_str()), ("octo", "app", "build.yml"));
    let r = WorkflowRef::parse("a/b/c", "w.yml".to_string()).unwrap();
    assert_eq!((r.owner.as_str(), r.repo.as_str()), ("a", "b/c"));
    let r = WorkflowRef::parse("/x", "w.yml".to_string()).unwrap();
    assert_eq!((r.owner.as_str(), r.repo.as_str()), ("", "x"));
    assert_eq!(
        WorkflowRef::parse("noslash", "w.yml".to_string()).unwrap_err(),
        ConfigError::InvalidRepo("noslash".to_string())
    );
    let app = AppConfig {
        build: WorkflowRef::parse("o/r", "build.yml".to_string()).unwrap(),
        deploy: WorkflowRef::parse("o/r", "deploy.yml".to_string()).unwrap(),
    };
    assert_eq!(app.workflow_ref(Workflow::Build).workflow, "build.yml");
    assert_eq!(app.workflow_ref(Workflow::Deploy).workflow, "deploy.yml");
    assert_eq!(Workflow::Build.label(), "Build");
    assert_eq!(Workflow::Deploy.label(), "Deploy");
    let args = Args { app: Some("web".to_string()), workflow: Some(Workflow::Deploy), no_wait: true };
    assert!(args.no_wait && args.app.is_some() && args.workflow == Some(Workflow::Deploy));
}

fn input(t: Option<&str>, default: Option<&str>, description: Option<&str>) -> WorkflowInput {
    WorkflowInput {
        default: default.map(|s| s.to_string()),
        description: description.map(|s| s.to_string()),
        input_type: t.map(|s| s.to_string()),
        options: None,
        required: None,
    }
}

#[test]
fn input_plans() {
    match plan_input("env", input(Some("choice"), None, None), Some("prod".to_string())) {
        Ok(InputPlan::Use(v)) => assert_eq!(v, "prod"),
        other => panic!("unexpected {other:?}"),
    }
    let mut choice = input(Some("choice"), None, Some("Environment"));
    choice.options = Some(vec!["dev".to_string(), "prod".to_string()]);
    match plan_input("env", choice, None) {
        Ok(InputPlan::Choice { label, options }) => {
            assert_eq!(label, "Environment");
            assert_eq!(options, vec!["dev", "prod"]);
        }
        other => panic!("unexpected {other:?}"),
    }
    assert_eq!(
        plan_input("env", input(Some("choice"), None, None), None).unwrap_err(),
        InputError::NoOptions("env".to_string())
    );
    match plan_input("dry", input(Some("boolean"), Some("true"), None), None) {
        Ok(InputPlan::Boolean { label, default_yes }) => {
            assert_eq!(label, "dry");
            assert!(default_yes);
        }
        other => panic!("unexpected {other:?}"),
    }
    match plan_input("dry", input(Some("boolean"), Some("yes"), None), None) {
        Ok(InputPlan::Boolean { default_yes, .. }) => assert!(!default_yes),
        other => panic!("unexpected {other:?}"),
    }
    let mut text = input(None, Some("v1"), None);
    text.required = Some(true);
    match plan_input("tag", text, None) {
        Ok(InputPlan::Text { label, default, required }) => {
            assert_eq!(label, "tag");
            assert_eq!(default.as_deref(), Some("v1"));
            assert!(required);
        }
        other => panic!("unexpected {other:?}"),
    }
    match plan_input("tag", input(Some("string"), None, None), None) {
        Ok(InputPlan::Text { default, required, .. }) => {
            assert_eq!(default, None);
            assert!(!required);
        }
        other => panic!("unexpected {other:?}"),
    }
}

#[test]
fn workflow_file_content() {
    assert_eq!(decode_content("aGVs\nbG8=\n").unwrap(), "hello");
    assert_eq!(decode_content("bmFtZTog\r\n Q0k=").unwrap(), "name: CI");
    assert_eq!(decode_content("").unwrap(), "");
    assert_eq!(decode_content("!!!!").unwrap_err(), ContentError::NotBase64);
    assert_eq!(decode_content("/w==").unwrap_err(), ContentError::NotUtf8);
    assert_eq!(text_of_bytes(vec![0xC3, 0xA9]).unwrap(), "é");
    assert_eq!(text_of_bytes(vec![0xC3]).unwrap_err(), ContentError::NotUtf8);
    assert_eq!(strip_white_space(" a\tb\u{3000}c\n"), vec!['a', 'b', 'c']);
    assert!(white_space('\u{A0}'));
    assert!(!white_space('x'));
}
