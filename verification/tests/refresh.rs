use actioneer::errors::GitHubError;
use actioneer::models::{Workflow, WorkflowRun};
use actioneer::refresh::{
    auto_refresh_tick, latest_runs_per_workflow, should_listen_for_refresh_updates,
    should_reconfigure_auto_refresh, should_refresh_workflow_runs_in_background,
    should_skip_silent_workflow_refresh, workflow_load_result, workflow_load_task_dropped_error,
    workflows_differ, AutoRefreshSlot, AutoRefreshTick, SilentRefresh, SilentRefreshOutcome,
    TimerPlan, WorkflowLoadMessage, SILENT_WORKFLOW_REFRESH_TTL_MS,
};

fn workflow(id: i64) -> Workflow {
    Workflow {
        id,
        name: format!("wf-{id}"),
        path: format!(".github/workflows/{id}.yml"),
    }
}

#[test]
fn silent_workflow_refresh_honors_ttl() {
    let now = 100_000u64;
    assert!(!should_skip_silent_workflow_refresh(None, now));
    assert!(should_skip_silent_workflow_refresh(
        Some(now - SILENT_WORKFLOW_REFRESH_TTL_MS + 1000),
        now
    ));
    assert!(!should_skip_silent_workflow_refresh(
        Some(now - SILENT_WORKFLOW_REFRESH_TTL_MS - 1000),
        now
    ));
}

#[test]
fn background_run_refresh_skips_collapsed_inactive_workflows() {
    assert!(should_refresh_workflow_runs_in_background(true, false));
    assert!(should_refresh_workflow_runs_in_background(false, true));
    assert!(!should_refresh_workflow_runs_in_background(false, false));
}

#[test]
fn auto_refresh_reconfigure_skips_matching_live_timer() {
    assert!(!should_reconfigure_auto_refresh(Some(10), true, 10));
    assert!(should_reconfigure_auto_refresh(Some(30), true, 10));
    assert!(should_reconfigure_auto_refresh(Some(10), false, 10));
}

#[test]
fn auto_refresh_tick_respects_inactive_panes() {
    assert_eq!(auto_refresh_tick(true, false), AutoRefreshTick::Stop);
    assert_eq!(auto_refresh_tick(false, false), AutoRefreshTick::Stop);
    assert_eq!(auto_refresh_tick(false, true), AutoRefreshTick::Skip);
    assert_eq!(auto_refresh_tick(true, true), AutoRefreshTick::Refresh);
}

#[test]
fn refresh_updates_require_live_active_pane() {
    assert!(should_listen_for_refresh_updates(true, true, true));
    assert!(!should_listen_for_refresh_updates(false, true, true));
    assert!(!should_listen_for_refresh_updates(true, false, true));
    assert!(!should_listen_for_refresh_updates(true, true, false));
}

#[test]
fn dropped_workflow_load_becomes_api_error() {
    let error = match workflow_load_result(WorkflowLoadMessage::Dropped, "Workflow load") {
        Err(e) => e,
        Ok(_) => panic!("dropped task should fail"),
    };
    assert_eq!(
        error.message(),
        workflow_load_task_dropped_error("Workflow load").message()
    );
    assert_eq!(
        error,
        GitHubError::ApiError("Workflow load ended without returning a result".into())
    );
}

#[test]
fn finished_workflow_load_returns_payload() {
    let workflows = vec![Workflow {
        id: 1,
        name: "CI".to_string(),
        path: ".github/workflows/ci.yml".to_string(),
    }];
    let result = match workflow_load_result(WorkflowLoadMessage::Finished(Ok(workflows)), "Workflow load") {
        Ok(list) => list,
        Err(_) => panic!("finished task should succeed"),
    };
    assert_eq!(result.len(), 1);
}

#[test]
fn workflows_differ_returns_true_for_length_mismatch() {
    assert!(workflows_differ(&[workflow(1)], &[workflow(1), workflow(2)]));
}

#[test]
fn workflows_differ_detects_id_changes() {
    assert!(workflows_differ(&[workflow(1), workflow(2)], &[workflow(1), workflow(3)]));
}

#[test]
fn workflows_differ_returns_false_for_identical_sets() {
    assert!(!workflows_differ(&[workflow(1), workflow(2)], &[workflow(2), workflow(1)]));
}

#[test]
fn the_timer_slot_follows_the_interval() {
    let mut slot = AutoRefreshSlot { interval: None, has_timer: false };
    assert_eq!(slot.configure(10), TimerPlan::Start(10));
    assert_eq!(slot.configure(10), TimerPlan::Keep);
    assert_eq!(slot.configure(0), TimerPlan::Disable);
    assert!(!slot.has_timer);
    assert_eq!(slot.configure(0), TimerPlan::Disable);
}

#[test]
fn the_silent_refresh_rebuilds_only_on_a_new_set() {
    let mut refresh = SilentRefresh { loading: false, last_refresh: None, workflows: vec![workflow(1)] };
    assert!(refresh.begin(0));
    assert!(!refresh.begin(1));
    let outcome = refresh.finish(WorkflowLoadMessage::Finished(Ok(vec![workflow(1)])));
    assert_eq!(outcome, SilentRefreshOutcome::RefreshSummary);
    assert!(!refresh.begin(5_000));
    assert!(refresh.begin(40_000));
    let outcome = refresh.finish(WorkflowLoadMessage::Finished(Ok(vec![workflow(2)])));
    assert_eq!(outcome, SilentRefreshOutcome::Rebuild);
    assert_eq!(refresh.workflows[0].id, 2);
    assert!(refresh.begin(80_000));
    assert_eq!(refresh.finish(WorkflowLoadMessage::Dropped), SilentRefreshOutcome::Failed(true));
    assert!(refresh.begin(80_001));
    let outcome = refresh.finish(WorkflowLoadMessage::Finished(Err(GitHubError::ApiError(
        "Not modified".into(),
    ))));
    assert_eq!(outcome, SilentRefreshOutcome::Failed(false));
}

#[test]
fn the_newest_run_per_workflow_is_the_first_listed() {
    let mk = |id: i64, wid: Option<i64>| WorkflowRun {
        id,
        run_number: None,
        workflow_id: wid,
        name: None,
        display_title: None,
        head_branch: None,
        head_commit: None,
        status: None,
        conclusion: None,
        run_started_at: None,
        event: None,
        created_at: None,
        updated_at: None,
        html_url: None,
        actor: None,
        triggering_actor: None,
    };
    let runs = vec![mk(9, Some(1)), mk(8, None), mk(7, Some(2)), mk(6, Some(1))];
    let latest: Vec<(i64, i64)> = latest_runs_per_workflow(&runs)
        .iter()
        .map(|(w, r)| (*w, r.id))
        .collect();
    assert_eq!(latest, vec![(1, 9), (2, 7)]);
}
