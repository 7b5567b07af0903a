use actioneer::formatting::{
    format_run_title, format_run_tooltip, format_workflow_meta, friendly_conclusion,
    friendly_status, get_job_status_icon, get_run_status_class, get_run_status_icon,
    relative_time, replace_underscores, run_live_start, run_meta_live_text, run_meta_rest_text,
    status_presentation, workflow_status_text,
};
use actioneer::models::{HeadCommit, Job, User, WorkflowRun};
use actioneer::timing::{
    age_text, clock_text, duration_text, fallback_date_order, fallback_localized_numeric_date,
    relative_time_from_iso, running_duration_string, DateOrder, Instant,
    LocalDate,
};

fn run_stub() -> WorkflowRun {
    WorkflowRun {
        id: 1,
        run_number: None,
        workflow_id: None,
        name: None,
        display_title: None,
        head_branch: None,
        head_commit: None,
        status: None,
        conclusion: None,
        run_started_at: None,
        event: None,
        created_at: None,
        updated_at: None,
        html_url: None,
        actor: None,
        triggering_actor: None,
    }
}

/// The system clock, read as the library takes it.
fn clock() -> Instant {
    let now = chrono::Utc::now();
    Instant { secs: now.timestamp(), nanos: now.timestamp_subsec_nanos() }
}

/// 2024-01-01T00:00:00Z.
const NEW_YEAR: i64 = 1_704_067_200;

#[test]
fn status_presentation_covers_every_failure_conclusion() {
    for conclusion in ["failure", "timed_out", "startup_failure"] {
        let (icon, class) = status_presentation(Some("completed"), Some(conclusion));
        assert_eq!(class, "error", "{conclusion} should tint as an error");
        assert_eq!(icon, "dialog-error-symbolic");
    }

    for conclusion in ["cancelled", "action_required", "stale"] {
        let (icon, class) = status_presentation(Some("completed"), Some(conclusion));
        assert_eq!(class, "warning", "{conclusion} should tint as a warning");
        assert_ne!(icon, "dialog-question-symbolic");
    }

    for conclusion in ["neutral", "skipped"] {
        let (_, class) = status_presentation(Some("completed"), Some(conclusion));
        assert_eq!(class, "idle");
    }
}

#[test]
fn status_presentation_maps_pending_states() {
    assert_eq!(
        status_presentation(Some("in_progress"), None),
        ("media-playback-start-symbolic", "accent")
    );
    for status in ["queued", "waiting", "pending", "requested"] {
        assert_eq!(
            status_presentation(Some(status), None),
            ("alarm-symbolic", "warning"),
            "{status} should read as pending"
        );
    }
}

#[test]
fn format_run_title_uses_display_title_and_number() {
    let mut run = run_stub();
    run.run_number = Some(42);
    run.display_title = Some("Nightly".into());

    assert_eq!(format_run_title(&run), "Nightly #42");
}

#[test]
fn get_job_status_icon_handles_unknowns() {
    let job = Job {
        id: 1,
        run_id: 1,
        status: Some("unknown".into()),
        conclusion: None,
        started_at: None,
        completed_at: None,
        name: None,
        steps: Vec::new(),
        html_url: None,
    };

    assert_eq!(get_job_status_icon(&job), "dialog-question-symbolic");
}

#[test]
fn format_workflow_meta_combines_when_branch_and_number() {
    let mut run = run_stub();
    run.run_number = Some(128);
    run.head_branch = Some("main".into());
    run.run_started_at = Some("2024-01-01T00:00:00Z".into());

    let when = relative_time(&run, clock(), "en", None);
    let meta = format_workflow_meta(&run, &when);
    assert!(meta.contains("main"));
    assert!(meta.contains("#128"));
}

#[test]
fn run_meta_rest_text_prefers_the_live_elapsed() {
    let mut run = run_stub();
    run.status = Some("in_progress".into());
    run.run_started_at = Some("2024-01-01T00:00:00Z".into());
    run.updated_at = Some("2024-01-01T00:00:05Z".into());

    let when = relative_time(&run, clock(), "en", None);
    let text = run_meta_rest_text(&run, Some("01:23"), &when);
    assert!(
        text.contains("01:23"),
        "the live elapsed must show while running"
    );
    assert!(
        !text.contains("00:05"),
        "the API duration must not leak into a live row"
    );
}

#[test]
fn run_meta_rest_text_falls_back_to_the_api_duration() {
    let mut run = run_stub();
    run.status = Some("completed".into());
    run.conclusion = Some("success".into());
    run.run_started_at = Some("2024-01-01T00:00:00Z".into());
    run.updated_at = Some("2024-01-01T00:00:45Z".into());

    let when = relative_time(&run, clock(), "en", None);
    let text = run_meta_rest_text(&run, None, &when);
    assert!(
        text.contains("00:45"),
        "a finished run shows GitHub's duration"
    );
}

#[test]
fn a_live_run_counts_from_the_best_known_start() {
    let created = "2026-01-24T10:00:00Z".to_string();
    let started = "2026-01-24T10:00:05Z".to_string();
    let mut run = run_stub();

    run.status = Some("completed".into());
    run.run_started_at = Some(started.clone());
    assert_eq!(run_live_start(&run), None);

    run.status = Some("in_progress".into());
    assert_eq!(run_live_start(&run), Some(started.clone()));

    run.status = Some("queued".into());
    assert_eq!(run_live_start(&run), Some(started.clone()));

    run.run_started_at = None;
    run.created_at = Some(created.clone());
    assert_eq!(run_live_start(&run), Some(created.clone()));

    run.created_at = None;
    run.updated_at = Some("2026-01-24T10:00:01Z".into());
    assert_eq!(run_live_start(&run), Some("2026-01-24T10:00:01Z".into()));

    run.updated_at = None;
    assert_eq!(run_live_start(&run), None);
}

#[test]
fn run_meta_live_text_counts_from_the_start() {
    let mut run = run_stub();
    run.status = Some("in_progress".into());
    let started = (chrono::Utc::now() - chrono::Duration::seconds(65)).to_rfc3339();
    run.run_started_at = Some(started.clone());

    let live = run_meta_live_text(&run, &started, clock(), "").expect("a running run with a start counts up");
    assert!(
        live.contains("01:05") || live.contains("01:06"),
        "expected the live minute:second count, got {live}"
    );

    assert_eq!(run_meta_live_text(&run, "not a timestamp", clock(), ""), None);
}

#[test]
fn test_relative_time_from_iso_localizes_old_dates() {
    let formatted = relative_time_from_iso("2024-01-08T13:45:00Z", clock(), "en", None);

    assert!(!formatted.is_empty());
    assert_ne!(formatted, "2024-01-08");
}

#[test]
fn test_fallback_localized_numeric_date_uses_english_order() {
    let date = LocalDate { year: 2024, month: 1, day: 8 };
    assert_eq!(fallback_localized_numeric_date(date, "en"), "01/08/2024");
}

#[test]
fn test_fallback_localized_numeric_date_uses_russian_order() {
    let date = LocalDate { year: 2024, month: 1, day: 8 };
    assert_eq!(fallback_localized_numeric_date(date, "ru"), "08.01.2024");
}

#[test]
fn numeric_dates_follow_each_language_order() {
    let date = LocalDate { year: 2024, month: 1, day: 8 };
    assert_eq!(fallback_localized_numeric_date(date, "zh_Hans"), "2024/01/08");
    assert_eq!(fallback_localized_numeric_date(date, "fr"), "08/01/2024");
    assert_eq!(fallback_localized_numeric_date(date, "de"), "08.01.2024");
    assert_eq!(fallback_localized_numeric_date(date, "xx"), "2024-01-08");
    assert_eq!(fallback_date_order("pt_BR"), DateOrder::DayMonthYear);
    let far = LocalDate { year: 12345, month: 12, day: 31 };
    assert_eq!(fallback_localized_numeric_date(far, "xx"), "+12345-12-31");
    let early = LocalDate { year: 7, month: 3, day: 4 };
    assert_eq!(fallback_localized_numeric_date(early, "en"), "03/04/0007");
}

#[test]
fn age_text_reads_each_band() {
    assert_eq!(age_text(-5).as_deref(), Some("Just now"));
    assert_eq!(age_text(59).as_deref(), Some("Just now"));
    assert_eq!(age_text(60).as_deref(), Some("1m ago"));
    assert_eq!(age_text(3599).as_deref(), Some("59m ago"));
    assert_eq!(age_text(3600).as_deref(), Some("1h ago"));
    assert_eq!(age_text(86_399).as_deref(), Some("23h ago"));
    assert_eq!(age_text(86_400).as_deref(), Some("Yesterday"));
    assert_eq!(age_text(2 * 86_400).as_deref(), Some("2d ago"));
    assert_eq!(age_text(604_799).as_deref(), Some("6d ago"));
    assert_eq!(age_text(604_800), None);
}

#[test]
fn relative_time_at_a_fixed_clock() {
    let now = Instant { secs: NEW_YEAR + 300, nanos: 0 };
    assert_eq!(relative_time_from_iso("2024-01-01T00:00:00Z", now, "en", None), "5m ago");
    let later = Instant { secs: NEW_YEAR + 30 * 86_400, nanos: 0 };
    assert_eq!(
        relative_time_from_iso("2024-01-01T00:00:00Z", later, "en", Some("  1/1/24 ")),
        "1/1/24"
    );
    assert_eq!(relative_time_from_iso("yesterday", now, "en", None), "");
    // The offset is honoured: 01:00+01:00 is midnight UTC.
    assert_eq!(
        relative_time_from_iso("2024-01-01T01:00:00+01:00", now, "en", None),
        "5m ago"
    );
}

#[test]
fn clock_text_shows_hours_only_when_needed() {
    assert_eq!(clock_text(0), "00:00");
    assert_eq!(clock_text(65), "01:05");
    assert_eq!(clock_text(3599), "59:59");
    assert_eq!(clock_text(3600), "1:00:00");
    assert_eq!(clock_text(3 * 3600 + 7 * 60 + 9), "3:07:09");
}

#[test]
fn durations_between_timestamps() {
    assert_eq!(
        duration_text("2024-01-01T00:00:00Z", "2024-01-01T00:00:45Z").as_deref(),
        Some("00:45")
    );
    assert_eq!(
        duration_text("2024-01-01T00:00:45Z", "2024-01-01T00:00:00Z").as_deref(),
        Some("00:00")
    );
    assert_eq!(duration_text("soon", "2024-01-01T00:00:00Z"), None);
    let now = Instant { secs: NEW_YEAR + 65, nanos: 500_000_000 };
    let start = "2024-01-01T00:00:00Z".to_string();
    assert_eq!(running_duration_string(Some(&start), now).as_deref(), Some("01:05"));
    assert_eq!(running_duration_string(None, now), None);
}

#[test]
fn friendly_labels_lowercase_first() {
    assert_eq!(friendly_status(Some("QUEUED"), None), "Queued");
    assert_eq!(friendly_status(Some("In_Progress"), None), "In Progress");
    assert_eq!(friendly_status(None, None), "Unknown");
    assert_eq!(friendly_status(Some("completed"), None), "Completed");
    assert_eq!(friendly_status(Some("completed"), Some("FAILURE")), "Failed");
    assert_eq!(friendly_status(Some("some_new_state"), None), "some new state");
    assert_eq!(friendly_conclusion(None), "");
    assert_eq!(friendly_conclusion(Some("Timed_Out")), "Timed Out");
    assert_eq!(friendly_conclusion(Some("startup_failure")), "startup failure");
    assert_eq!(replace_underscores("a_b__c"), "a b  c");
}

#[test]
fn workflow_status_text_reads_failed() {
    let mut run = run_stub();
    run.status = Some("completed".into());
    run.conclusion = Some("failure".into());
    let (text, css_class) = workflow_status_text(&run);
    assert_eq!(text, "Failed");
    assert_eq!(css_class, "error");

    let mut waiting = run_stub();
    waiting.status = Some("waiting".into());
    assert_eq!(workflow_status_text(&waiting), ("Queued".to_string(), "warning"));

    let mut empty = run_stub();
    empty.conclusion = Some(String::new());
    assert_eq!(workflow_status_text(&empty).0, "Unknown");
}

#[test]
fn tooltip_lists_what_is_known() {
    let mut run = run_stub();
    run.status = Some("completed".into());
    run.conclusion = Some("success".into());
    run.head_branch = Some("main".into());
    run.head_commit = Some(HeadCommit { message: Some("Fix the build\r\n\nLonger text".into()) });
    run.triggering_actor = Some(User { login: "octo".into() });
    run.event = Some("push".into());
    run.run_started_at = Some("2024-01-01T00:00:00Z".into());
    run.updated_at = Some("2024-01-01T00:01:30Z".into());

    assert_eq!(
        format_run_tooltip(&run),
        "Status: Success\nConclusion: Success\nBranch: main\nCommit: Fix the build\n\
         Triggered by: octo\nEvent: push\nDuration: 01:30\nStarted: 2024-01-01T00:00:00Z\n\
         Updated: 2024-01-01T00:01:30Z"
    );
    assert_eq!(run.actor_login().as_deref(), Some("octo"));
    assert_eq!(run.commit_message_headline().as_deref(), Some("Fix the build"));
    assert_eq!(get_run_status_icon(&run), "object-select-symbolic");
    assert_eq!(get_run_status_class(&run), "success");
}

#[test]
fn meta_lines_join_their_parts() {
    let mut run = run_stub();
    run.head_branch = Some("main".into());
    run.run_number = Some(7);
    assert_eq!(format_workflow_meta(&run, "5m ago"), "5m ago · main · #7");
    assert_eq!(format_workflow_meta(&run, ""), "main · #7");
    run.actor = Some(User { login: "me".into() });
    assert_eq!(run_meta_rest_text(&run, Some("00:10"), "Just now"), "me · 00:10 · Just now");
    assert_eq!(format_run_title(&run_stub()), "Workflow Run");
}
