use actioneer::models::{Repo, RepoPermissions, User};
use actioneer::selection::{
    determine_actions_state, determine_activation_action, determine_selection_action,
    determine_sidebar_selection_plan, due_status_refreshes, reconcile_repo_state,
    refresh_delay_for_interval, selected_repo_for_status_refresh, should_handle_selection_change,
    sidebar_shows_list, RepoActionsState, RepoActivationAction, SelectionAction,
    SidebarSelectionPlan, WorkflowStatusCounts,
};
use std::collections::HashMap;

fn repo(id: i64, name: &str) -> Repo {
    Repo {
        id,
        name: name.into(),
        full_name: format!("mak/{name}"),
        owner: User { login: "mak".into() },
        is_private: false,
        permissions: None,
        default_branch: Some("main".into()),
    }
}

#[test]
fn same_selected_and_active_returns_none() {
    assert_eq!(determine_selection_action(Some(1), Some(1)), SelectionAction::Nothing);
}

#[test]
fn new_selected_id_requests_selection() {
    assert_eq!(determine_selection_action(Some(2), Some(1)), SelectionAction::Select(2));
    assert_eq!(determine_selection_action(Some(3), None), SelectionAction::Select(3));
}

#[test]
fn clear_when_active_without_selection() {
    assert_eq!(determine_selection_action(None, Some(1)), SelectionAction::Clear);
}

#[test]
fn no_action_when_none_selected_and_active() {
    assert_eq!(determine_selection_action(None, None), SelectionAction::Nothing);
}

#[test]
fn keeps_requested_repo_when_it_is_visible() {
    let plan = determine_sidebar_selection_plan(Some(42), Some(3), Some((0, 7)));
    assert_eq!(plan, SidebarSelectionPlan { index: Some(3), repo_id: Some(42) });
}

#[test]
fn falls_back_to_first_visible_repo_when_requested_repo_is_hidden() {
    let plan = determine_sidebar_selection_plan(Some(42), None, Some((0, 7)));
    assert_eq!(plan, SidebarSelectionPlan { index: Some(0), repo_id: Some(7) });
}

#[test]
fn clears_selection_when_no_visible_repo_exists() {
    let plan = determine_sidebar_selection_plan(Some(42), None, None);
    assert_eq!(plan, SidebarSelectionPlan { index: None, repo_id: None });
}

#[test]
fn activation_selects_row_when_user_activates_a_different_position() {
    assert_eq!(determine_activation_action(2, 5, Some(42), 7), RepoActivationAction::SelectOnly);
}

#[test]
fn activation_handles_selected_row_when_detail_pane_is_out_of_sync() {
    assert_eq!(
        determine_activation_action(3, 3, Some(42), 7),
        RepoActivationAction::HandleSelection
    );
}

#[test]
fn activation_is_noop_when_selected_row_already_matches_detail_pane() {
    assert_eq!(determine_activation_action(3, 3, Some(7), 7), RepoActivationAction::Nothing);
}

#[test]
fn determine_actions_state_prefers_push_or_admin() {
    let perms = RepoPermissions { admin: false, push: true, pull: true };
    assert_eq!(determine_actions_state(Some(&perms)), RepoActionsState::Enabled);
    let admin_perms = RepoPermissions { admin: true, push: false, pull: true };
    assert_eq!(determine_actions_state(Some(&admin_perms)), RepoActionsState::Enabled);
}

#[test]
fn determine_actions_state_disables_pull_only() {
    let perms = RepoPermissions { admin: false, push: false, pull: true };
    assert_eq!(determine_actions_state(Some(&perms)), RepoActionsState::Disabled);
}

#[test]
fn determine_actions_state_unknown_without_permissions() {
    assert_eq!(determine_actions_state(None), RepoActionsState::Unknown);
}

#[test]
fn selected_repo_status_refresh_targets_only_selected_repo() {
    let repos = vec![repo(1, "one"), repo(2, "two")];
    assert_eq!(
        selected_repo_for_status_refresh(&repos, Some(2)).as_ref().map(|repo| repo.id),
        Some(2)
    );
    assert!(selected_repo_for_status_refresh(&repos, Some(99)).is_none());
    assert!(selected_repo_for_status_refresh(&repos, None).is_none());
}

#[test]
fn refresh_delay_handles_disabled_interval() {
    assert_eq!(refresh_delay_for_interval(0), None);
    assert_eq!(refresh_delay_for_interval(10), Some(10));
}

#[test]
fn selection_changes_are_handled_once() {
    assert!(!should_handle_selection_change(true, None, Some(1), false));
    assert!(!should_handle_selection_change(false, Some(1), None, true));
    assert!(should_handle_selection_change(false, Some(1), None, false));
    assert!(!should_handle_selection_change(false, Some(1), Some(1), false));
    assert!(should_handle_selection_change(false, Some(1), Some(2), true));
    assert!(sidebar_shows_list(false, false));
    assert!(!sidebar_shows_list(false, true));
}

#[test]
fn status_refreshes_respect_the_ttl() {
    let mut checked = HashMap::new();
    assert_eq!(due_status_refreshes(&mut checked, &[1, 2, 1], 1_000), vec![1, 2]);
    assert_eq!(due_status_refreshes(&mut checked, &[1, 3], 2_000), vec![3]);
    assert_eq!(due_status_refreshes(&mut checked, &[1], 301_000), vec![1]);
}

#[test]
fn repo_state_follows_the_loaded_list() {
    let mut actions = HashMap::from([(1, RepoActionsState::Disabled), (9, RepoActionsState::Enabled)]);
    let mut checked = HashMap::from([(1, 5u64), (9, 6u64)]);
    let mut counts = HashMap::from([(9, WorkflowStatusCounts { active: 1, failed: 0 })]);
    let mut second = repo(2, "two");
    second.permissions = Some(RepoPermissions { admin: false, push: true, pull: true });
    reconcile_repo_state(&mut actions, &mut checked, &mut counts, &[repo(1, "one"), second]);
    assert_eq!(actions.len(), 2);
    assert_eq!(actions[&1], RepoActionsState::Disabled);
    assert_eq!(actions[&2], RepoActionsState::Enabled);
    assert_eq!(checked, HashMap::from([(1, 5u64)]));
    assert_eq!(counts.len(), 2);
    assert_eq!(counts[&2], WorkflowStatusCounts::default());
}
