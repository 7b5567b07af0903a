use actioneer::filters::RunFilters;
use actioneer::models::WorkflowRun;
use actioneer::run_list::{
    format_runs_counts, format_runs_header, state_requires_load, ListState, RunListModel,
    STATE_CONTENT, STATE_ERROR, STATE_IDLE,
};
use std::collections::HashSet;

fn run(id: i64, status: &str, conclusion: Option<&str>) -> WorkflowRun {
    WorkflowRun {
        id,
        run_number: Some(id),
        workflow_id: None,
        name: Some(format!("Run {id}")),
        display_title: Some(format!("Run {id}")),
        head_branch: Some("main".into()),
        head_commit: None,
        status: Some(status.into()),
        conclusion: conclusion.map(|c| c.into()),
        run_started_at: None,
        event: None,
        created_at: None,
        updated_at: None,
        html_url: None,
        actor: None,
        triggering_actor: None,
    }
}

#[test]
fn formats_header_with_partial_visible() {
    assert_eq!(format_runs_header(5, 5, 12), "Recent runs (showing 5 of 12)");
}

#[test]
fn formats_header_with_matching_filters() {
    assert_eq!(
        format_runs_header(3, 4, 10),
        "Recent runs (showing 3 of 4 matching filters)"
    );
}

#[test]
fn formats_header_with_exact_count() {
    assert_eq!(format_runs_header(10, 10, 10), "Recent runs (10)");
}

#[test]
fn list_requires_load_for_idle_or_error() {
    assert!(state_requires_load(Some(STATE_IDLE)));
    assert!(state_requires_load(Some(STATE_ERROR)));
}

#[test]
fn list_does_not_require_load_for_content() {
    assert!(!state_requires_load(Some(STATE_CONTENT)));
}

#[test]
fn list_treats_missing_state_as_needing_load() {
    assert!(state_requires_load(None));
}

#[test]
fn counts_report_overall_total_when_no_filter_narrows_it() {
    assert_eq!(format_runs_counts(10, 10, 10), "Showing 10 of 10");
}

#[test]
fn counts_report_filtered_total_when_filters_hide_runs() {
    assert_eq!(format_runs_counts(5, 5, 12), "Showing 5 of 5 matching filters");
}

#[test]
fn counts_report_cap_and_filters_together() {
    assert_eq!(format_runs_counts(3, 4, 10), "Showing 3 of 4 matching filters");
}

#[test]
fn tests_requires_load_for_idle_or_error() {
    assert!(state_requires_load(Some(STATE_IDLE)));
    assert!(state_requires_load(Some(STATE_ERROR)));
}

#[test]
fn tests_does_not_require_load_for_content() {
    assert!(!state_requires_load(Some(STATE_CONTENT)));
}

#[test]
fn tests_treats_missing_state_as_needing_load() {
    assert!(state_requires_load(None));
}

#[test]
fn list_reapply_filters_updates_from_last_runs() {
    let mut model = RunListModel::new(0, false);
    model.set_runs(vec![
        run(1, "completed", Some("success")),
        run(2, "completed", Some("failure")),
    ]);
    let mut expanded = HashSet::new();
    expanded.insert(2);
    let filters = RunFilters {
        include_success: false,
        include_failed: true,
        include_running: false,
    };
    assert!(model.reapply_filters(&filters, &expanded));
    assert_eq!(model.entries.len(), 1, "only failed run should remain");
    assert!(model.entries[0].expand_jobs);
    assert!(model.entries[0].is_first);
    assert_eq!(model.state, ListState::Content);
    assert_eq!(
        model.header_text.as_deref(),
        Some("Recent runs (showing 1 of 2)")
    );
}

#[test]
fn list_prepend_run_deduplicates_cached_runs() {
    let mut model = RunListModel::new(0, false);
    model.set_runs(vec![run(2, "completed", Some("success"))]);
    model.prepend_run(run(2, "queued", None), &RunFilters::default());
    assert_eq!(model.last_runs.len(), 1);
    assert_eq!(model.last_runs[0].status.as_deref(), Some("queued"));
}

#[test]
fn tests_reapply_filters_updates_from_last_runs() {
    let mut model = RunListModel::new(0, true);
    assert!(!model.reapply_filters(&RunFilters::default(), &HashSet::new()));
    model.set_runs(vec![run(1, "completed", Some("success")), run(2, "in_progress", None)]);
    assert!(model.reapply_filters(&RunFilters::default(), &HashSet::new()));
    assert_eq!(model.entries.len(), 2);
    assert_eq!(model.counts_text.as_deref(), Some("Showing 2 of 2"));
    assert!(model.has_active_runs());
    assert!(model.run_completed(1));
    assert!(!model.run_completed(2));
    assert!(!model.run_completed(3));
}

#[test]
fn tests_prepend_run_deduplicates_cached_runs() {
    let mut model = RunListModel::new(0, false);
    model.set_runs(vec![run(1, "completed", Some("success")), run(2, "completed", Some("failure"))]);
    model.prepend_run(run(3, "queued", None), &RunFilters::default());
    let ids: Vec<i64> = model.last_runs.iter().map(|r| r.id).collect();
    assert_eq!(ids, vec![3, 1, 2]);
}

#[test]
fn the_list_pages_follow_what_happened() {
    let mut model = RunListModel::new(4, false);
    assert!(model.should_load_runs());
    model.show_loading();
    assert_eq!(model.state, ListState::Loading);
    assert!(!model.should_load_runs());
    model.set_runs(Vec::new());
    assert!(model.reapply_filters(&RunFilters::default(), &HashSet::new()));
    assert_eq!(model.state, ListState::Empty);
    model.set_runs(vec![run(1, "completed", Some("success"))]);
    let none = RunFilters {
        include_success: false,
        include_failed: false,
        include_running: false,
    };
    assert!(model.reapply_filters(&none, &HashSet::new()));
    assert_eq!(model.state, ListState::Filtered);
    model.show_error("Error: boom".to_string());
    assert_eq!(model.state, ListState::Error);
    assert!(model.should_load_runs());
    model.set_run_expanded(9, true);
    assert!(model.expanded_run_ids().contains(&9));
    model.set_run_expanded(9, false);
    assert!(!model.expanded_run_ids().contains(&9));
}
