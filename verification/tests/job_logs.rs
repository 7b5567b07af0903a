use actioneer::errors::GitHubError;
use actioneer::job_logs::{
    copy_logs_outcome, default_file_name, fetch_error_message, job_display_name,
    most_relevant_job, sanitize_filename_segment, LoadReply, LoadStep, LogCache, LogViewer,
};
use actioneer::models::Job;

fn job_stub(name: &str, conclusion: Option<&str>) -> Job {
    Job {
        id: name.len() as i64,
        run_id: 1,
        name: Some(name.to_string()),
        status: Some("completed".into()),
        conclusion: conclusion.map(str::to_string),
        started_at: None,
        completed_at: None,
        html_url: None,
        steps: Vec::new(),
    }
}

#[test]
fn most_relevant_job_prefers_the_failure_then_the_running_one() {
    let jobs = vec![
        job_stub("lock-sync", Some("success")),
        job_stub("build", Some("failure")),
        job_stub("publish", Some("success")),
    ];
    assert_eq!(most_relevant_job(&jobs), Some(1));

    let jobs = vec![job_stub("lock-sync", Some("success")), job_stub("build", None)];
    assert_eq!(most_relevant_job(&jobs), Some(1));

    let jobs = vec![
        job_stub("lock-sync", Some("success")),
        job_stub("build", Some("success")),
    ];
    assert_eq!(most_relevant_job(&jobs), Some(0));

    assert_eq!(most_relevant_job(&[]), None);
}

#[test]
fn cache_keeps_finished_jobs_and_skips_running_ones() {
    let mut cache = LogCache::default();
    let finished = job_stub("build", Some("failure"));
    let running = job_stub("deploy", None);

    cache.store(&finished, "boom");
    cache.store(&running, "half a log");

    assert_eq!(cache.get(finished.id).as_deref(), Some("boom"));
    assert_eq!(cache.get(running.id), None);
}

#[test]
fn file_names_are_made_safe() {
    assert_eq!(default_file_name("CI", "build"), "CI - build.log");
    assert_eq!(
        default_file_name(" ..CI: main #3.. ", "a/b"),
        "CI_ main #3 - a_b.log"
    );
    assert_eq!(default_file_name("...", "\u{7}"), "run - _.log");
    assert_eq!(sanitize_filename_segment("  "), None);
    assert_eq!(default_file_name("", " . "), "run - job.log");
}

#[test]
fn a_job_without_a_name_reads_as_job() {
    let mut job = job_stub("x", None);
    job.name = None;
    assert_eq!(job_display_name(&job), "Job");
}

#[test]
fn the_viewer_keeps_the_reader_on_their_job() {
    let jobs = vec![job_stub("a", Some("success")), job_stub("bb", Some("failure"))];
    let mut viewer = LogViewer::new("CI #1".to_string(), jobs, 1);
    assert_eq!(viewer.selected_job_id(), 2);
    assert!(!viewer.show_job(1, false));
    assert!(!viewer.show_job(5, false));
    assert!(!viewer.show_job(0, true));
    assert!(viewer.show_job(0, false));
    assert_eq!(viewer.selected_job_id(), 1);

    let fresh = vec![job_stub("ccc", None), job_stub("a", Some("success"))];
    assert_eq!(viewer.apply_jobs(fresh, true), Some(true));
    assert_eq!(viewer.selected, 1);
    assert_eq!(viewer.apply_jobs(Vec::new(), true), None);
    assert_eq!(viewer.apply_jobs(vec![job_stub("dddd", None)], false), None);
    assert_eq!(viewer.apply_jobs(vec![job_stub("dddd", None)], true), Some(false));
    assert_eq!(viewer.selected, 0);
    assert_eq!(viewer.save_file_name(), "CI #1 - dddd.log");
}

#[test]
fn the_viewer_caches_finished_logs_and_ignores_stale_replies() {
    let jobs = vec![job_stub("a", Some("success")), job_stub("bb", None)];
    let mut viewer = LogViewer::new("CI".to_string(), jobs, 0);
    assert!(matches!(viewer.begin_load(false), LoadStep::Fetch(1)));
    match viewer.finish_load(1, Ok("log of a".to_string()), true) {
        LoadReply::Render(text) => assert_eq!(text, "log of a"),
        _ => panic!("the log on screen renders"),
    }
    match viewer.begin_load(false) {
        LoadStep::Cached(text) => assert_eq!(text, "log of a"),
        LoadStep::Fetch(_) => panic!("a finished log comes from the cache"),
    }
    assert!(matches!(viewer.begin_load(true), LoadStep::Fetch(1)));
    assert!(matches!(
        viewer.finish_load(2, Ok("log of bb".to_string()), true),
        LoadReply::Nothing
    ));
    assert!(viewer.cache.get(2).is_none());
    match viewer.finish_load(1, Err(GitHubError::Gone), true) {
        LoadReply::ShowError(text) => assert!(text.contains("expired")),
        _ => panic!("the error shows"),
    }
    assert!(matches!(
        viewer.finish_load(1, Err(GitHubError::NotFound), false),
        LoadReply::Nothing
    ));
}

#[test]
fn error_and_copy_texts() {
    assert!(fetch_error_message(&GitHubError::NotFound).starts_with("Logs are not yet available"));
    assert!(fetch_error_message(&GitHubError::Network("offline".into()))
        .ends_with("Details: Network error: offline"));
    assert_eq!(copy_logs_outcome("", true), ("Logs are empty; nothing to copy".to_string(), 3, false));
    assert_eq!(copy_logs_outcome("x", false), ("Unable to access the clipboard".to_string(), 5, false));
    assert_eq!(copy_logs_outcome("x", true), ("Logs copied to clipboard".to_string(), 3, true));
}

#[test]
fn the_viewer_clamps_its_selection_and_takes_the_run_of_the_first_job() {
    let mut jobs = vec![job_stub("a", Some("success")), job_stub("bb", None)];
    jobs[0].run_id = 42;
    jobs[1].run_id = 43;
    let viewer = LogViewer::new("CI".to_string(), jobs, 9);
    assert_eq!(viewer.selected, 1);
    assert_eq!(viewer.run_id, 42);
}
