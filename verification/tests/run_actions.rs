use actioneer::models::{Repo, User, Workflow, WorkflowRun};
use actioneer::run_actions::{
    action_toast, confirm_prompt, response_confirms, run_actions, RunAction,
};
use actioneer::filters::RunFilters;
use actioneer::run_list::RunListModel;
use actioneer::session::{
    crash_report_text, favorite_button_classes, favorite_write, pane_needs_rebuild,
    FavoriteWrite, SelectionEffect, WindowSession,
};
use actioneer::workflow_list::{
    actions_disabled_content, chip_count_texts, current_job_context_run_ids,
    refilter_workflow, retain_job_contexts, status_page_content, workflow_fallback_label, workflow_row_settings,
};
use std::collections::{HashMap, HashSet};

fn run(status: &str, conclusion: Option<&str>, url: bool) -> WorkflowRun {
    WorkflowRun {
        id: 5,
        run_number: Some(12),
        workflow_id: Some(1),
        name: Some("Test".into()),
        display_title: None,
        head_branch: None,
        head_commit: None,
        status: Some(status.to_string()),
        conclusion: conclusion.map(str::to_string),
        run_started_at: None,
        event: None,
        created_at: None,
        updated_at: None,
        html_url: if url { Some("https://example.com".into()) } else { None },
        actor: None,
        triggering_actor: None,
    }
}

fn repo(name: &str, is_private: bool) -> Repo {
    Repo {
        id: 1,
        name: name.to_string(),
        full_name: format!("owner/{name}"),
        owner: User { login: "owner".to_string() },
        is_private,
        permissions: None,
        default_branch: Some("main".to_string()),
    }
}

#[test]
fn run_row_buttons_follow_the_run() {
    assert_eq!(
        run_actions(&run("completed", Some("failure"), true)),
        vec![RunAction::Rerun, RunAction::RerunFailed, RunAction::Open]
    );
    assert_eq!(run_actions(&run("completed", Some("success"), false)), vec![RunAction::Rerun]);
    assert_eq!(
        run_actions(&run("in_progress", None, true)),
        vec![RunAction::Cancel, RunAction::Open]
    );
}

#[test]
fn confirmations_and_toasts_name_the_run() {
    let r = run("in_progress", None, false);
    let cancel = confirm_prompt(RunAction::Cancel, &r).expect("cancel asks first");
    assert_eq!(cancel.heading, "Cancel Workflow Run");
    assert_eq!(
        cancel.body,
        "Do you want to cancel the in-progress run \"Test #12\"?\n\nThis action cannot be undone."
    );
    assert!(cancel.destructive);
    let rerun = confirm_prompt(RunAction::Rerun, &r).expect("re-run asks first");
    assert_eq!(rerun.body, "Do you want to re-run \"Test #12\"?");
    assert!(!rerun.destructive);
    assert!(confirm_prompt(RunAction::Open, &r).is_none());

    assert!(response_confirms("confirm"));
    assert!(!response_confirms("cancel"));

    assert_eq!(
        action_toast(RunAction::Cancel, true, "Test #12"),
        Some(("✓ Cancelled run 'Test #12'".to_string(), 3))
    );
    assert_eq!(
        action_toast(RunAction::RerunFailed, false, "Test #12"),
        Some(("✗ Failed to re-run failed jobs".to_string(), 5))
    );
    assert_eq!(action_toast(RunAction::Open, true, "x"), None);
}

#[test]
fn status_pages_of_the_detail_pane() {
    let none = status_page_content(None);
    assert_eq!(none.icon, "system-search-symbolic");
    assert_eq!(none.title, "Select a repository");

    let public = status_page_content(Some(&repo("hello", false)));
    assert_eq!(public.title, "hello");
    assert_eq!(public.icon, "folder-remote-symbolic");
    assert!(public.description.contains("owner/hello"));

    let private = status_page_content(Some(&repo("secret", true)));
    assert_eq!(private.icon, "emblem-readonly-symbolic");

    let disabled = actions_disabled_content(&repo("archived", false));
    assert_eq!(disabled.title, "archived");
    assert_eq!(disabled.icon, "emblem-unreadable-symbolic");
    assert!(disabled.description.contains("Actions"));
}

#[test]
fn rebuilt_rows_keep_their_expansion() {
    let workflows = vec![
        Workflow { id: 7, name: "CI".into(), path: ".github/workflows/ci.yml".into() },
        Workflow { id: 8, name: "Deploy".into(), path: ".github/workflows/deploy.yml".into() },
    ];
    let expanded: HashSet<i64> = [8].into_iter().collect();
    let mut runs: HashMap<i64, HashSet<i64>> = HashMap::new();
    runs.insert(8, [81, 82].into_iter().collect());
    let contexts = vec![(11, 7, true), (22, 7, false), (33, 9, true)];

    assert_eq!(current_job_context_run_ids(&contexts, 7), vec![11]);

    let settings = workflow_row_settings(&workflows, &expanded, &runs, &contexts);
    assert_eq!(settings.len(), 2);
    assert_eq!(settings[0].workflow_id, 7);
    assert!(!settings[0].should_expand);
    assert!(settings[0].is_first);
    assert_eq!(settings[0].initial_expanded_run_ids, [11].into_iter().collect());
    assert!(settings[1].should_expand);
    assert!(!settings[1].is_first);
    assert_eq!(settings[1].initial_expanded_run_ids, [81, 82].into_iter().collect());
}

#[test]
fn chip_counts_are_decimal() {
    assert_eq!(
        chip_count_texts(7, 1, 2),
        ("7".to_string(), "1".to_string(), "2".to_string())
    );
}

#[test]
fn sign_out_forgets_the_account() {
    let mut session = WindowSession::new(true);
    session.selected_repo_id = Some(1);
    session.repos.push(repo("hello", false));
    session.favorites.insert(1);
    session.actions_checked_at.insert(1, 5);
    session.rate_limit = Some((10, 5000));
    session.sign_out();
    assert_eq!(session.selected_repo_id, None);
    assert!(session.repos.is_empty());
    assert!(session.favorites.is_empty());
    assert!(session.actions_checked_at.is_empty());
    assert_eq!(session.rate_limit, None);
    assert!(!session.demo_mode);
}

#[test]
fn favorite_toggles_write_only_changes() {
    assert_eq!(favorite_write(true, true), FavoriteWrite::Nothing);
    assert_eq!(favorite_write(false, true), FavoriteWrite::Add);
    assert_eq!(favorite_write(true, false), FavoriteWrite::Remove);
    assert_eq!(favorite_button_classes(true), ("suggested-action", "flat"));
    assert_eq!(favorite_button_classes(false), ("flat", "suggested-action"));
}

#[test]
fn crash_report_falls_back_to_its_path() {
    assert_eq!(crash_report_text(Some("trace".into()), "/tmp/x"), "trace");
    assert_eq!(crash_report_text(None, "/tmp/x"), "Crash report file:\n/tmp/x");
}

#[test]
fn selection_follows_the_sidebar() {
    let mut session = WindowSession::new(false);
    session.repos.push(repo("hello", false));
    assert_eq!(session.handle_repo_selection(Some(1)), SelectionEffect::Show { repo_id: 1 });
    assert_eq!(session.selected_repo_id, Some(1));
    assert!(!session.handling_selection);
    assert_eq!(session.detail_sync(Some(1)), None);
    assert_eq!(session.detail_sync(None), Some(Some(1)));
    session.selected_repo_id = Some(42);
    assert_eq!(session.detail_sync(Some(1)), Some(None));
    assert_eq!(session.handle_repo_selection(None), SelectionEffect::Placeholder);
    assert_eq!(session.detail_sync(Some(1)), Some(None));
    session.handling_selection = true;
    assert_eq!(session.detail_sync(Some(1)), None);
    assert!(!pane_needs_rebuild(Some(1), 1));
    assert!(pane_needs_rebuild(Some(2), 1));
    assert!(pane_needs_rebuild(None, 1));
}

#[test]
fn new_filters_redraw_or_reload() {
    let filters = RunFilters::default();
    let mut empty = RunListModel::new(7, false);
    let (needs_load, kept) = refilter_workflow(&mut empty, &filters, &vec![3], true);
    assert!(needs_load, "an open workflow with nothing cached loads its runs");
    assert_eq!(kept, [3].into_iter().collect());
    let (needs_load, _) = refilter_workflow(&mut empty, &filters, &vec![], false);
    assert!(!needs_load, "a closed workflow waits until it is opened");

    let mut loaded = RunListModel::new(7, false);
    loaded.set_runs(vec![run("completed", Some("success"), false)]);
    loaded.set_run_expanded(5, true);
    let (needs_load, kept) = refilter_workflow(&mut loaded, &filters, &vec![3], true);
    assert!(!needs_load);
    assert_eq!(kept, [5].into_iter().collect());

    assert_eq!(workflow_fallback_label("o", "r", 12), "o/r • Workflow 12");
}

#[test]
fn a_rebuilt_list_keeps_the_panels_of_listed_workflows() {
    let ids: HashSet<i64> = [7, 8].into_iter().collect();
    let contexts = vec![(11, 7), (22, 9), (33, 8), (44, 9)];
    assert_eq!(retain_job_contexts(&contexts, &ids), vec![(11, 7), (33, 8)]);
}
