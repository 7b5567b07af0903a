use actioneer::ansi::{AnsiColor, AnsiStyle};
use actioneer::log_parse::WorkflowCommandKind;
use actioneer::log_render::LogTag;
use actioneer::log_style::tag_style;
use actioneer::errors::GitHubError;
use actioneer::job_rows::{
    dot_class, icon_pixel_size, jobs_for_logs, jobs_reply_plan, step_title, JobLoadFlag,
    JobsContent, SummaryChange, JOB_DOT_SIZE, RUN_DOT_SIZE, STEP_DOT_SIZE, WORKFLOW_DOT_SIZE,
};
use actioneer::models::{Job, JobStep, WorkflowRun};
use actioneer::workflow_row::{
    dispatch_input_subtitle, dispatch_input_title, expander_should_request_runs,
    follow_up_interval, logs_button_outcome, logs_button_toast, progress_counts,
    progress_label_text, take_preserved_runs, workflow_file_name, workflow_header_plan,
    initial_expand_request, workflow_actions_url, JobSummary, LogsButtonOutcome,
    WorkflowDispatchInput,
};
use actioneer::run_list::RunListModel;

fn job(id: i64, status: &str, conclusion: Option<&str>) -> Job {
    Job {
        id,
        run_id: 1,
        status: Some(status.to_string()),
        conclusion: conclusion.map(str::to_string),
        started_at: None,
        completed_at: None,
        name: Some(format!("job {id}")),
        steps: Vec::new(),
        html_url: None,
    }
}

fn run(status: &str, conclusion: Option<&str>) -> WorkflowRun {
    WorkflowRun {
        id: 9,
        run_number: Some(3),
        workflow_id: Some(1),
        name: Some("CI".into()),
        display_title: None,
        head_branch: Some("main".into()),
        head_commit: None,
        status: Some(status.to_string()),
        conclusion: conclusion.map(str::to_string),
        run_started_at: None,
        event: None,
        created_at: None,
        updated_at: None,
        html_url: None,
        actor: None,
        triggering_actor: None,
    }
}

#[test]
fn every_dot_size_centres_its_glyph_exactly() {
    for size in [WORKFLOW_DOT_SIZE, RUN_DOT_SIZE, JOB_DOT_SIZE, STEP_DOT_SIZE] {
        let glyph = icon_pixel_size(size);
        assert_eq!(
            (size - glyph) % 2,
            0,
            "dot {size} with a {glyph}px glyph leaves an odd margin, so the \
             glyph cannot sit on the centre"
        );
        assert!(
            (8..=14).contains(&glyph),
            "glyph {glyph} for dot {size} left the legible range"
        );
        assert!(
            glyph * 2 <= size + size / 3,
            "glyph {glyph} is too large for a {size}px dot"
        );
    }
}

#[test]
fn glyph_sizes_of_each_dot() {
    assert_eq!(icon_pixel_size(26), 12);
    assert_eq!(icon_pixel_size(18), 8);
    assert_eq!(icon_pixel_size(16), 8);
    assert_eq!(icon_pixel_size(14), 8);
    assert_eq!(icon_pixel_size(15), 9);
    assert_eq!(icon_pixel_size(40), 14);
    assert_eq!(icon_pixel_size(41), 13);
    assert_eq!(dot_class(""), "idle");
    assert_eq!(dot_class("error"), "error");
}

#[test]
fn job_summary_counts_by_status() {
    let jobs = vec![
        job(1, "completed", Some("success")),
        job(2, "COMPLETED", Some("failure")),
        job(3, "in_progress", None),
        job(4, "queued", None),
        job(5, "waiting", None),
        job(6, "mystery", None),
    ];
    let s = JobSummary::from_jobs(&jobs);
    assert_eq!(s, JobSummary { completed: 2, running: 1, queued: 2 });
    assert!(!s.is_empty());
    assert_eq!(progress_counts(Some(&s)), Some((2, 5)));
    assert_eq!(progress_counts(Some(&JobSummary { completed: 0, running: 0, queued: 0 })), None);
    assert_eq!(progress_counts(None), None);
}

#[test]
fn progress_label_joins_counts_and_elapsed() {
    assert_eq!(progress_label_text(Some((2, 5)), Some("01:05")), "2 / 5 · 01:05");
    assert_eq!(progress_label_text(Some((2, 5)), None), "2 / 5");
    assert_eq!(progress_label_text(Some((0, 0)), Some("01:05")), "");
    assert_eq!(progress_label_text(None, Some("01:05")), "01:05");
    assert_eq!(progress_label_text(None, None), "");
}

#[test]
fn header_plan_follows_the_latest_run() {
    let live = run("in_progress", None);
    let summary = JobSummary { completed: 1, running: 1, queued: 0 };
    let plan = workflow_header_plan(Some(&live), Some(&summary), "Just now");
    assert_eq!(plan.icon, "media-playback-start-symbolic");
    assert_eq!(plan.class, "accent");
    assert_eq!(plan.status_text, "In Progress");
    assert_eq!(plan.meta, "Just now · main · #3");
    assert!(!plan.trigger_visible);
    assert!(plan.cancel_visible);
    assert!(plan.progress_visible);
    assert_eq!(plan.progress_counts, Some((1, 2)));

    let done = run("completed", Some("success"));
    let plan = workflow_header_plan(Some(&done), Some(&summary), "");
    assert!(plan.trigger_visible);
    assert!(!plan.cancel_visible);
    assert!(!plan.progress_visible);
    assert_eq!(plan.progress_counts, None);
    assert_eq!(plan.meta, "main · #3");

    let none = workflow_header_plan(None, None, "");
    assert_eq!(none.icon, "window-minimize-symbolic");
    assert_eq!(none.meta, "No runs yet");
    assert_eq!(none.status_text, "No runs yet");
    assert!(none.trigger_visible);
}

#[test]
fn workflow_file_name_is_the_basename() {
    assert_eq!(workflow_file_name(".github/workflows/ci.yml"), "ci.yml");
    assert_eq!(workflow_file_name("ci.yml"), "ci.yml");
    assert_eq!(workflow_file_name("dir/"), "");
}

#[test]
fn dispatch_input_captions() {
    let mut input = WorkflowDispatchInput {
        name: "env".into(),
        description: Some("Target".into()),
        required: true,
    };
    assert_eq!(dispatch_input_title(&input), "env *");
    assert_eq!(dispatch_input_subtitle(&input).as_deref(), Some("Target (required)"));
    input.required = false;
    assert_eq!(dispatch_input_title(&input), "env");
    assert_eq!(dispatch_input_subtitle(&input).as_deref(), Some("Target"));
    input.description = None;
    assert_eq!(dispatch_input_subtitle(&input), None);
    input.required = true;
    assert_eq!(dispatch_input_subtitle(&input).as_deref(), Some("Required"));
}

#[test]
fn expander_and_follow_up_decisions() {
    assert!(expander_should_request_runs(true, false, false, true));
    assert!(expander_should_request_runs(true, false, true, false));
    assert!(!expander_should_request_runs(true, true, true, true));
    assert!(!expander_should_request_runs(false, false, true, true));
    assert!(!expander_should_request_runs(true, false, false, false));

    let mut initial = Some(vec![4, 5]);
    assert_eq!(take_preserved_runs(&mut initial, vec![7]), vec![4, 5]);
    assert_eq!(initial, None);
    assert_eq!(take_preserved_runs(&mut initial, vec![7]), vec![7]);

    assert_eq!(follow_up_interval(0), None);
    assert_eq!(follow_up_interval(30), Some(30));
}

#[test]
fn logs_button_picks_the_relevant_job() {
    let jobs = vec![job(1, "completed", Some("success")), job(2, "completed", Some("failure"))];
    assert_eq!(logs_button_outcome(&Ok(jobs)), LogsButtonOutcome::Open { selected: 1 });
    assert_eq!(logs_button_outcome(&Ok(Vec::new())), LogsButtonOutcome::NoJobs);
    assert_eq!(logs_button_outcome(&Err("boom".into())), LogsButtonOutcome::LoadFailed);
    assert_eq!(logs_button_toast(LogsButtonOutcome::NoJobs), Some("No jobs found"));
    assert_eq!(logs_button_toast(LogsButtonOutcome::Open { selected: 0 }), None);
    assert_eq!(logs_button_toast(LogsButtonOutcome::NoRuns), Some("No runs yet"));
}

#[test]
fn jobs_reply_plans() {
    let empty = jobs_reply_plan(&Ok(Vec::new()), true);
    assert!(empty.clear);
    assert_eq!(empty.summary, SummaryChange::Remove);
    assert!(matches!(empty.content, JobsContent::NoJobs));

    let listed = jobs_reply_plan(&Ok(vec![job(1, "in_progress", None)]), false);
    assert_eq!(
        listed.summary,
        SummaryChange::Store(JobSummary { completed: 0, running: 1, queued: 0 })
    );
    assert!(matches!(listed.content, JobsContent::Rows));

    let uncounted = jobs_reply_plan(&Ok(vec![job(1, "mystery", None)]), false);
    assert_eq!(uncounted.summary, SummaryChange::Remove);

    let failed_bg = jobs_reply_plan(&Err(GitHubError::NotFound), true);
    assert!(!failed_bg.clear);
    assert_eq!(failed_bg.summary, SummaryChange::Keep);
    assert!(matches!(failed_bg.content, JobsContent::Unchanged));

    let failed = jobs_reply_plan(&Err(GitHubError::Network("offline".into())), false);
    assert!(failed.clear);
    match failed.content {
        JobsContent::Failed { detail } => assert!(detail.contains("offline")),
        _ => panic!("a failure the user asked for shows the error"),
    }
}

#[test]
fn logs_window_lists_the_runs_jobs() {
    let run_jobs = vec![job(1, "completed", None), job(2, "completed", None)];
    let (jobs, selected) = jobs_for_logs(&run_jobs, &run_jobs[1]);
    assert_eq!(jobs.iter().map(|j| j.id).collect::<Vec<_>>(), vec![1, 2]);
    assert_eq!(selected, 1);
    let stray = job(9, "completed", None);
    let (jobs, selected) = jobs_for_logs(&run_jobs, &stray);
    assert_eq!(jobs.iter().map(|j| j.id).collect::<Vec<_>>(), vec![9]);
    assert_eq!(selected, 0);
}

#[test]
fn step_titles_and_the_load_flag() {
    let step = JobStep {
        name: None,
        status: None,
        conclusion: None,
        number: None,
        started_at: None,
        completed_at: None,
    };
    assert_eq!(step_title(&step, 3), "#3");
    let named = JobStep { name: Some("Build".into()), ..step };
    assert_eq!(step_title(&named, 3), "Build");

    let mut flag = JobLoadFlag::new();
    assert!(flag.try_begin());
    assert!(!flag.try_begin());
    flag.finish();
    assert!(flag.try_begin());
}

#[test]
fn log_tags_have_their_styles() {
    let command = tag_style(LogTag::Command);
    assert!(command.bold && command.monospace);
    assert_eq!(command.foreground, Some("#1a73e8"));
    let secret = tag_style(LogTag::Secret);
    assert_eq!(secret.background, Some("#2b2b2b"));
    let warning = tag_style(LogTag::Annotation(WorkflowCommandKind::Warning));
    assert_eq!(warning.foreground, Some("#b26a00"));
    assert!(!tag_style(LogTag::Annotation(WorkflowCommandKind::Debug)).bold);
    let ansi = tag_style(LogTag::Ansi(AnsiStyle {
        bold: false,
        underline: true,
        fg: Some(AnsiColor::Basic(1)),
        bg: None,
    }));
    assert!(ansi.underline && !ansi.bold);
    assert_eq!(ansi.foreground, Some("#cc0000"));
    assert_eq!(ansi.background, None);
}

#[test]
fn a_row_built_open_asks_for_its_runs_once() {
    let list = RunListModel::new(7, false);
    let mut initial = Some(vec![4, 5]);
    let request = initial_expand_request(true, &list, 7, &mut initial, vec![9])
        .expect("a row built open loads its runs");
    assert_eq!(request.workflow_id, 7);
    assert!(!request.background);
    assert_eq!(request.expanded_run_ids, vec![4, 5]);
    assert_eq!(initial, None);

    let mut closed = Some(vec![4]);
    assert!(initial_expand_request(false, &list, 7, &mut closed, vec![]).is_none());
    assert_eq!(closed, Some(vec![4]));
}

#[test]
fn the_all_runs_link_points_at_the_workflow_file() {
    assert_eq!(
        workflow_actions_url("octo", "repo", ".github/workflows/ci.yml"),
        "https://github.com/octo/repo/actions/workflows/ci.yml"
    );
}
