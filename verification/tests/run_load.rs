use actioneer::digest::RunDigestStore;
use actioneer::errors::GitHubError;
use actioneer::filters::RunFilters;
use actioneer::models::WorkflowRun;
use actioneer::run_list::{ListState, RunListModel};
use actioneer::run_load::{
    apply_runs_failed, apply_runs_loaded, parse_expander_widget_name,
    resolve_preserved_expanded_run_ids, runs_have_activity, set_expander_active,
    should_render_run_list, stale_job_contexts, union_active_workflows, workflow_row_name,
    handle_runs_reply, start_run_load, LoadStart, QueuedLoad, RunLoadGate, RunLoadQueue,
};
use std::collections::HashSet;

fn queued<T>(workflow_id: i64, background: bool, params: T) -> QueuedLoad<T> {
    QueuedLoad { workflow_id, background, params, expanded_run_ids: HashSet::new() }
}

fn run_stub(id: i64) -> WorkflowRun {
    WorkflowRun {
        id,
        run_number: Some(id),
        workflow_id: Some(1),
        name: Some(format!("Run {id}")),
        display_title: None,
        head_branch: Some("main".into()),
        head_commit: None,
        status: Some("in_progress".into()),
        conclusion: None,
        run_started_at: None,
        event: None,
        created_at: None,
        updated_at: None,
        html_url: None,
        actor: None,
        triggering_actor: None,
    }
}

#[test]
fn background_refresh_updates_collapsed_rows_when_data_changes() {
    assert!(should_render_run_list(true, false, true));
}

#[test]
fn background_refresh_skips_collapsed_rows_without_changes() {
    assert!(!should_render_run_list(true, false, false));
}

#[test]
fn background_refresh_updates_expanded_rows_even_without_changes() {
    assert!(should_render_run_list(true, true, false));
}

#[test]
fn foreground_refresh_always_updates() {
    assert!(should_render_run_list(false, false, false));
}

#[test]
fn preserved_expanded_runs_use_current_ui_state_and_job_contexts() {
    let requested = HashSet::from([10]);
    let current = HashSet::from([20]);
    let contexts = vec![30];
    let runs = vec![run_stub(20), run_stub(30), run_stub(40)];
    let preserved = resolve_preserved_expanded_run_ids(&requested, &current, &contexts, &runs);
    assert_eq!(preserved, HashSet::from([20, 30]));
}

#[test]
fn preserved_expanded_runs_keep_requested_ids_when_still_valid() {
    let requested = HashSet::from([10]);
    let current = HashSet::new();
    let contexts = Vec::new();
    let runs = vec![run_stub(10), run_stub(20)];
    let preserved = resolve_preserved_expanded_run_ids(&requested, &current, &contexts, &runs);
    assert_eq!(preserved, HashSet::from([10]));
}

#[test]
fn parses_active_expander_names() {
    assert_eq!(parse_expander_widget_name("workflow_123_ACTIVE"), Some((123, true)));
}

#[test]
fn parses_inactive_expander_names() {
    assert_eq!(parse_expander_widget_name("workflow_5"), Some((5, false)));
}

#[test]
fn rejects_invalid_prefixes() {
    assert_eq!(parse_expander_widget_name("foo"), None);
}

#[test]
fn rejects_non_numeric_ids() {
    assert_eq!(parse_expander_widget_name("workflow_bar"), None);
}

#[test]
fn union_active_workflows_preserves_previous_ids() {
    let observed = HashSet::from([1, 2]);
    let previous = HashSet::from([2, 3]);
    let combined = union_active_workflows(&observed, &previous);
    assert_eq!(combined, HashSet::from([1, 2, 3]));
}

#[test]
fn union_active_workflows_handles_empty_observed() {
    let observed = HashSet::new();
    let previous = HashSet::from([5]);
    let combined = union_active_workflows(&observed, &previous);
    assert_eq!(combined, HashSet::from([5]));
}

#[test]
fn row_names_round_trip_through_the_live_marker() {
    let name = workflow_row_name(-42);
    assert_eq!(name, "workflow_-42");
    let live = set_expander_active(&name, true);
    assert_eq!(live, "workflow_-42_ACTIVE");
    assert_eq!(set_expander_active(&live, true), "workflow_-42_ACTIVE");
    assert_eq!(set_expander_active(&live, false), "workflow_-42");
    assert_eq!(parse_expander_widget_name(&live), Some((-42, true)));
    assert_eq!(parse_expander_widget_name("workflow_+7"), Some((7, false)));
    assert_eq!(parse_expander_widget_name("workflow_99999999999999999999"), None);
    assert_eq!(
        parse_expander_widget_name(&workflow_row_name(i64::MIN)),
        Some((i64::MIN, false))
    );
}

#[test]
fn activity_and_stale_contexts() {
    let mut done = run_stub(2);
    done.status = Some("completed".into());
    assert!(!runs_have_activity(&[done.clone()]));
    assert!(runs_have_activity(&[done, run_stub(3)]));
    let contexts = vec![(10, 1), (11, 1), (12, 2)];
    assert_eq!(stale_job_contexts(&contexts, 1, &[run_stub(11)]), vec![10]);
}

#[test]
fn the_gate_debounces_background_loads_and_blocks_duplicates() {
    let mut gate = RunLoadGate::new();
    assert_eq!(gate.begin(1, 1000, true), LoadStart::Start);
    assert_eq!(gate.begin(1, 1500, false), LoadStart::AlreadyLoading);
    assert_eq!(gate.begin(1, 2000, true), LoadStart::Debounced);
    gate.finish(1);
    assert_eq!(gate.begin(1, 3300, true), LoadStart::Start);
}

#[test]
fn a_second_request_for_the_same_workflow_replaces_the_first() {
    let mut queue: RunLoadQueue<&str> = RunLoadQueue::new();
    assert!(queue.request(queued(11, false, "first")));
    assert!(!queue.request(queued(11, true, "second")));
    assert_eq!(queue.pending.len(), 1, "coalesced by workflow id");
    assert!(queue.pending[0].background, "the later parameters replaced the earlier ones");
    assert_eq!(queue.pending[0].params, "second");
    assert!(!queue.request(queued(22, false, "other")));
    assert_eq!(queue.pending.len(), 2, "a different workflow queues separately");
    let order: Vec<(i64, &str)> = queue.pending.iter().map(|l| (l.workflow_id, l.params)).collect();
    assert_eq!(order, vec![(11, "second"), (22, "other")]);
}

#[test]
fn a_replaced_request_moves_to_the_back_of_the_queue() {
    let mut queue: RunLoadQueue<&str> = RunLoadQueue::new();
    assert!(queue.request(queued(1, true, "first")));
    assert!(!queue.request(queued(2, false, "other")));
    assert!(!queue.request(queued(1, false, "second")));
    let order: Vec<(i64, &str)> = queue.pending.iter().map(|l| (l.workflow_id, l.params)).collect();
    assert_eq!(order, vec![(2, "other"), (1, "second")]);
}

#[test]
fn a_workflow_already_in_flight_is_left_queued() {
    let mut gate = RunLoadGate::new();
    assert_eq!(gate.begin(11, 0, false), LoadStart::Start);
    let mut queue: RunLoadQueue<u8> = RunLoadQueue::new();
    queue.request(queued(11, false, 0));
    let (ready, retry) = queue.process(&gate, 10, &|_: &u8| HashSet::new());
    assert!(ready.is_empty());
    assert!(retry);
    assert_eq!(queue.pending.len(), 1, "an in-flight workflow stays queued for the retry");
    assert!(!queue.scheduled);
    gate.finish(11);
    let (ready, retry) = queue.process(&gate, 20, &|_: &u8| HashSet::new());
    assert_eq!(ready.len(), 1);
    assert_eq!(ready[0].workflow_id, 11);
    assert!(!retry);
    assert!(queue.pending.is_empty(), "once the flight ends the request is dispatched");
}

#[test]
fn ready_loads_go_last_first_with_their_expanded_runs_read_again() {
    let mut gate = RunLoadGate::new();
    assert_eq!(gate.begin(2, 0, false), LoadStart::Start);
    let mut queue: RunLoadQueue<u8> = RunLoadQueue::new();
    let stale = HashSet::from([99_i64]);
    queue.request(QueuedLoad { workflow_id: 1, background: false, params: 10, expanded_run_ids: stale.clone() });
    queue.request(QueuedLoad { workflow_id: 2, background: false, params: 20, expanded_run_ids: stale.clone() });
    queue.request(QueuedLoad { workflow_id: 3, background: true, params: 30, expanded_run_ids: stale });
    let (ready, retry) = queue.process(&gate, 10, &|p: &u8| HashSet::from([i64::from(*p) + 1]));
    let order: Vec<(i64, u8)> = ready.iter().map(|l| (l.workflow_id, l.params)).collect();
    assert_eq!(order, vec![(3, 30), (1, 10)]);
    assert_eq!(ready[0].expanded_run_ids, HashSet::from([31]));
    assert_eq!(ready[1].expanded_run_ids, HashSet::from([11]));
    assert!(ready[0].background);
    assert!(retry);
    assert_eq!(queue.pending.len(), 1);
    assert_eq!(queue.pending[0].workflow_id, 2);
    assert_eq!(queue.pending[0].params, 20);
}

#[test]
fn a_recent_background_load_waits_out_the_debounce() {
    let mut gate = RunLoadGate::new();
    assert_eq!(gate.begin(5, 1000, false), LoadStart::Start);
    gate.finish(5);
    let mut queue: RunLoadQueue<u8> = RunLoadQueue::new();
    queue.request(queued(5, true, 0));
    let (ready, retry) = queue.process(&gate, 1500, &|_: &u8| HashSet::new());
    assert!(ready.is_empty());
    assert!(retry);
    let (ready, retry) = queue.process(&gate, 2200, &|_: &u8| HashSet::new());
    assert_eq!(ready.len(), 1);
    assert!(!retry);
}

#[test]
fn loaded_runs_fill_the_list_and_mark_the_workflow_live() {
    let mut list = RunListModel::new(1, false);
    let mut store = RunDigestStore::new();
    let mut active = HashSet::new();
    let requested = HashSet::from([5]);
    let effects = apply_runs_loaded(
        &mut list,
        &mut store,
        &mut active,
        1,
        vec![run_stub(5), run_stub(6)],
        false,
        false,
        &RunFilters::default(),
        &requested,
        &[],
    );
    assert!(effects.changed);
    assert!(effects.notifications.is_none());
    assert_eq!(effects.has_active_runs, Some(true));
    assert!(!effects.refresh_jobs);
    assert_eq!(effects.latest_run.map(|r| r.id), Some(5));
    assert!(active.contains(&1));
    assert_eq!(list.state, ListState::Content);
    assert_eq!(list.entries.len(), 2);
    assert!(list.entries[0].expand_jobs);
    assert!(!list.entries[1].expand_jobs);

    let effects = apply_runs_loaded(
        &mut list,
        &mut store,
        &mut active,
        1,
        Vec::new(),
        true,
        false,
        &RunFilters::default(),
        &requested,
        &[],
    );
    assert!(effects.has_active_runs.is_none());
    assert_eq!(list.state, ListState::Empty);
    assert!(store.get(&1).map(|m| m.is_empty()).unwrap_or(false));
    assert!(active.contains(&1));

    apply_runs_failed(&mut list, true, &GitHubError::NotFound);
    assert_eq!(list.state, ListState::Empty);
    apply_runs_failed(&mut list, false, &GitHubError::NotFound);
    assert_eq!(list.state, ListState::Error);
    assert_eq!(list.error_detail.as_deref(), Some("Error: Not found"));
}

#[test]
fn a_load_shows_loading_only_when_asked_for_and_its_reply_ends_it() {
    let mut gate = RunLoadGate::new();
    let mut list = RunListModel::new(1, false);
    assert_eq!(start_run_load(&mut gate, &mut list, 1, 0, true), LoadStart::Start);
    assert_eq!(list.state, ListState::Idle, "a background load shows no loading page");
    assert_eq!(start_run_load(&mut gate, &mut list, 1, 5000, false), LoadStart::AlreadyLoading);
    assert_eq!(list.state, ListState::Idle);

    let mut store = RunDigestStore::new();
    let mut active = HashSet::new();
    let filters = RunFilters::default();
    let effects = handle_runs_reply(
        &mut gate, &mut list, &mut store, &mut active, 1,
        Ok(vec![run_stub(3)]), true, true, &filters, &HashSet::new(), &[],
    );
    assert!(effects.is_some());
    assert!(!gate.is_loading(1));
    assert!(active.contains(&1));

    assert_eq!(start_run_load(&mut gate, &mut list, 1, 9000, false), LoadStart::Start);
    assert_eq!(list.state, ListState::Loading, "a load the user asked for shows the loading page");
    let failed = handle_runs_reply(
        &mut gate, &mut list, &mut store, &mut active, 1,
        Err(GitHubError::NotFound), false, true, &filters, &HashSet::new(), &[],
    );
    assert!(failed.is_none());
    assert!(!gate.is_loading(1));
    assert_eq!(list.state, ListState::Error);
    assert!(active.contains(&1), "a failed load leaves the live mark alone");
}
