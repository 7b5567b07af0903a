use actioneer::header::{classify_run, subtitle_text, StatusGroup};
use actioneer::models::WorkflowRun;

fn run_stub(status: Option<&str>, conclusion: Option<&str>) -> WorkflowRun {
    WorkflowRun {
        id: 1,
        run_number: Some(1),
        workflow_id: None,
        name: Some("CI".into()),
        display_title: None,
        head_branch: Some("main".into()),
        head_commit: None,
        status: status.map(str::to_string),
        conclusion: conclusion.map(str::to_string),
        run_started_at: None,
        event: None,
        created_at: None,
        updated_at: None,
        html_url: None,
        actor: None,
        triggering_actor: None,
    }
}

#[test]
fn classify_run_buckets_statuses() {
    assert_eq!(
        classify_run(&run_stub(Some("completed"), Some("success"))),
        StatusGroup::Success
    );
    assert_eq!(
        classify_run(&run_stub(Some("completed"), Some("failure"))),
        StatusGroup::Failed
    );
    assert_eq!(
        classify_run(&run_stub(Some("in_progress"), None)),
        StatusGroup::Running
    );
    assert_eq!(
        classify_run(&run_stub(Some("queued"), None)),
        StatusGroup::Running
    );
}

#[test]
fn classify_run_counts_non_success_conclusions_as_failed() {
    for conclusion in [
        "cancelled",
        "timed_out",
        "startup_failure",
        "action_required",
        "neutral",
        "skipped",
    ] {
        assert_eq!(
            classify_run(&run_stub(Some("completed"), Some(conclusion))),
            StatusGroup::Failed,
            "conclusion {conclusion} should be counted as failed"
        );
    }
}

#[test]
fn subtitle_uses_singular_workflow_form() {
    assert!(subtitle_text(1, None).starts_with("1 workflow"));
    assert!(subtitle_text(2, None).starts_with(&"{count} workflows".replace("{count}", "2")));
}
