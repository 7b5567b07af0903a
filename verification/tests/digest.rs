use actioneer::digest::{
    collect_completed_notifications, digest_runs, update_digest_and_collect_notifications,
    RunDigestStore,
};
use actioneer::models::WorkflowRun;

fn build_run(id: i64, status: &str, conclusion: Option<&str>) -> WorkflowRun {
    WorkflowRun {
        id,
        run_number: Some(id),
        workflow_id: None,
        name: Some(format!("Run {id}")),
        display_title: Some(format!("Run {id}")),
        head_branch: Some("main".to_string()),
        head_commit: None,
        status: Some(status.to_string()),
        conclusion: conclusion.map(|c| c.to_string()),
        run_started_at: None,
        event: None,
        created_at: None,
        updated_at: Some("2024-01-01T00:00:00Z".to_string()),
        html_url: None,
        actor: None,
        triggering_actor: None,
    }
}

#[test]
fn digest_runs_treats_reordering_as_unchanged() {
    let run_a = build_run(1, "completed", Some("success"));
    let run_b = build_run(2, "in_progress", None);

    let digest_first = digest_runs(&[run_a.clone(), run_b.clone()]);
    let digest_second = digest_runs(&[run_b, run_a]);

    assert_eq!(digest_first, digest_second);
}

#[test]
fn collect_completed_notifications_detects_new_completion() {
    let previous = digest_runs(&[build_run(1, "in_progress", None)]);
    let current = vec![build_run(1, "completed", Some("success"))];

    let notifications = collect_completed_notifications(&previous, &current);
    assert_eq!(notifications.len(), 1);
    assert_eq!(notifications[0].0, "Run 1 (main)");
    assert_eq!(notifications[0].1, "completed");
    assert_eq!(notifications[0].2, Some("success".to_string()));
}

#[test]
fn update_digest_marks_notifications_once() {
    let mut store = RunDigestStore::new();

    let initial_runs = vec![build_run(1, "in_progress", None)];
    let (changed_initial, notifications_initial) =
        update_digest_and_collect_notifications(&mut store, 1, &initial_runs);

    assert!(changed_initial);
    assert!(notifications_initial.is_none());

    let completed_runs = vec![build_run(1, "completed", Some("success"))];
    let (changed_completed, notifications_completed) =
        update_digest_and_collect_notifications(&mut store, 1, &completed_runs);

    assert!(changed_completed);
    let notes = notifications_completed.expect("expected notifications");
    assert_eq!(notes.len(), 1);

    let (changed_repeat, notifications_repeat) =
        update_digest_and_collect_notifications(&mut store, 1, &completed_runs);

    assert!(!changed_repeat);
    assert!(notifications_repeat.is_none());
}

#[test]
fn a_run_unknown_before_earns_no_notification() {
    let previous = digest_runs(&[build_run(1, "in_progress", None)]);
    let current = vec![build_run(2, "completed", Some("failure"))];
    assert!(collect_completed_notifications(&previous, &current).is_empty());
}

#[test]
fn a_changed_conclusion_notifies_again() {
    let mut store = RunDigestStore::new();
    let first = vec![build_run(1, "in_progress", None)];
    update_digest_and_collect_notifications(&mut store, 7, &first);
    let done = vec![build_run(1, "completed", Some("failure"))];
    let (_, notes) = update_digest_and_collect_notifications(&mut store, 7, &done);
    assert_eq!(notes.map(|n| n.len()), Some(1));
    let rerun = vec![build_run(1, "completed", Some("success"))];
    let (changed, notes) = update_digest_and_collect_notifications(&mut store, 7, &rerun);
    assert!(changed);
    let notes = notes.expect("a new conclusion is notified");
    assert_eq!(notes[0].2, Some("success".to_string()));
}

#[test]
fn the_title_falls_back_to_the_number_and_skips_an_empty_branch() {
    let previous = digest_runs(&[build_run(5, "queued", None)]);
    let mut run = build_run(5, "COMPLETED", Some("success"));
    run.display_title = None;
    run.name = None;
    run.head_branch = Some(String::new());
    let notes = collect_completed_notifications(&previous, &[run]);
    assert_eq!(notes.len(), 1);
    assert_eq!(notes[0].0, "Run #5");
    assert_eq!(notes[0].1, "COMPLETED");
}
