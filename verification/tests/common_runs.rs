use actioneer::filters::{
    classify_run_status, run_matches_filters, summarize_visible_runs, update_filters, FilterKind,
    RunFilters, RunStatusFilterKind,
};
use actioneer::models::WorkflowRun;

fn build_run(id: i64, status: Option<&str>, conclusion: Option<&str>) -> WorkflowRun {
    WorkflowRun {
        id,
        run_number: Some(id),
        workflow_id: None,
        name: Some("Run".into()),
        display_title: Some("Run".into()),
        head_branch: Some("main".into()),
        head_commit: None,
        status: status.map(|s| s.to_string()),
        conclusion: conclusion.map(|c| c.to_string()),
        run_started_at: None,
        event: None,
        created_at: None,
        updated_at: None,
        html_url: None,
        actor: None,
        triggering_actor: None,
    }
}

#[test]
fn classify_run_status_identifies_running() {
    let run = build_run(1, Some("in_progress"), None);
    assert_eq!(classify_run_status(&run), RunStatusFilterKind::Running);
}

#[test]
fn classify_run_status_prefers_conclusion_over_status() {
    let run = build_run(1, Some("completed"), Some("failure"));
    assert_eq!(classify_run_status(&run), RunStatusFilterKind::Failed);
}

#[test]
fn classify_run_status_defaults_to_success() {
    let run = build_run(1, None, None);
    assert_eq!(classify_run_status(&run), RunStatusFilterKind::Success);
}

#[test]
fn run_matches_filters_respects_flags() {
    let run = build_run(1, Some("completed"), Some("success"));
    let filters = RunFilters {
        include_success: false,
        include_failed: true,
        include_running: true,
    };
    assert!(!run_matches_filters(&run, &filters));
}

#[test]
fn limits_visible_runs_to_ten() {
    let runs: Vec<_> = (0..15)
        .map(|i| build_run(i, Some("completed"), Some("success")))
        .collect();
    let summary = summarize_visible_runs(&runs, &RunFilters::default());
    assert_eq!(summary.filtered_total, 15);
    assert_eq!(summary.visible_runs.len(), 10);
}

#[test]
fn respects_filters_when_collecting_runs() {
    let runs = vec![
        build_run(1, Some("completed"), Some("success")),
        build_run(2, Some("completed"), Some("failure")),
        build_run(3, Some("in_progress"), None),
    ];
    let filters = RunFilters {
        include_failed: false,
        ..RunFilters::default()
    };
    let summary = summarize_visible_runs(&runs, &filters);
    assert_eq!(summary.filtered_total, 2);
    assert_eq!(summary.visible_runs.len(), 2);
    assert_eq!(summary.visible_runs[0].id, 1);
    assert_eq!(summary.visible_runs[1].id, 3);
}

#[test]
fn update_filters_sets_success_field() {
    let mut filters = RunFilters::default();
    update_filters(&mut filters, FilterKind::Success, false);
    assert!(!filters.include_success);
    assert!(filters.include_failed);
    assert!(filters.include_running);
}

#[test]
fn update_filters_sets_failed_field() {
    let mut filters = RunFilters::default();
    update_filters(&mut filters, FilterKind::Failed, false);
    assert!(filters.include_success);
    assert!(!filters.include_failed);
}

#[test]
fn update_filters_sets_running_field() {
    let mut filters = RunFilters::default();
    update_filters(&mut filters, FilterKind::Running, false);
    assert!(filters.include_success);
    assert!(filters.include_failed);
    assert!(!filters.include_running);
}

#[test]
fn a_queued_run_counts_as_running_and_other_statuses_as_failed() {
    assert_eq!(
        classify_run_status(&build_run(1, Some("QUEUED"), None)),
        RunStatusFilterKind::Running
    );
    assert_eq!(
        classify_run_status(&build_run(1, Some("cancelled"), None)),
        RunStatusFilterKind::Failed
    );
    assert_eq!(
        classify_run_status(&build_run(1, Some("completed"), None)),
        RunStatusFilterKind::Success
    );
    assert_eq!(
        classify_run_status(&build_run(1, Some("completed"), Some("Success"))),
        RunStatusFilterKind::Success
    );
}
