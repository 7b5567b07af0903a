//! A workflow row: the header that follows its latest run (status dot, meta
//! line, progress of the run's jobs, which action buttons show), the job
//! counts behind the progress, the dispatch form's field captions, and the
//! decisions of the row's buttons and expander.
use vstd::prelude::*;
use crate::text::{push_str, push_int_decimal, string_of, opt_seq, chars_of, int_decimal};
use crate::models::{WorkflowRun, RunView, Job, view_is_active, status_is};
use crate::text::opt_str_is_ignore_case;
use crate::formatting::{
    presentation, workflow_status_words, get_run_status_icon, get_run_status_class,
    workflow_status_text, format_workflow_meta, meta_parts, opt_str_view,
};
use crate::text::join;
use crate::job_logs::{most_relevant_job, relevant_job};
use crate::run_list::{RunListModel, ListState, requires_load, state_name};

verus! {

// ---------------------------------------------------------------------------
// Job counts.
// ---------------------------------------------------------------------------

/// How far a run's jobs have got: completed, running and still queued.
#[derive(Clone, Copy, Debug, PartialEq, Eq, Structural)]
pub struct JobSummary {
    pub completed: i32,
    pub running: i32,
    pub queued: i32,
}

/// Whether a job has completed.
pub open spec fn job_completed(j: Job) -> bool {
    status_is(opt_seq(j.status), "completed"@)
}

/// Whether a job is running.
pub open spec fn job_running(j: Job) -> bool {
    status_is(opt_seq(j.status), "in_progress"@)
}

/// Whether a job is waiting to start: queued, waiting, pending or requested.
pub open spec fn job_queued(j: Job) -> bool {
    ||| status_is(opt_seq(j.status), "queued"@)
    ||| status_is(opt_seq(j.status), "waiting"@)
    ||| status_is(opt_seq(j.status), "pending"@)
    ||| status_is(opt_seq(j.status), "requested"@)
}

/// The counts of a list of jobs, each counted by its status (ASCII case
/// aside); a job with no status, or another one, is not counted.
pub open spec fn summary_of(jobs: Seq<Job>) -> (int, int, int)
    decreases jobs.len(),
{
    if jobs.len() == 0 {
        (0, 0, 0)
    } else {
        let (c, r, q) = summary_of(jobs.drop_last());
        let j = jobs.last();
        if job_completed(j) {
            (c + 1, r, q)
        } else if job_running(j) {
            (c, r + 1, q)
        } else if job_queued(j) {
            (c, r, q + 1)
        } else {
            (c, r, q)
        }
    }
}

proof fn lemma_summary_bounded(jobs: Seq<Job>)
    ensures
        summary_of(jobs).0 >= 0,
        summary_of(jobs).1 >= 0,
        summary_of(jobs).2 >= 0,
        summary_of(jobs).0 + summary_of(jobs).1 + summary_of(jobs).2 <= jobs.len(),
    decreases jobs.len(),
{
    if jobs.len() > 0 {
        lemma_summary_bounded(jobs.drop_last());
    }
}

impl JobSummary {
    /// Counts that can come from a list of jobs: none negative, and their
    /// sum within `i32`.
    pub open spec fn wf(self) -> bool {
        &&& self.completed >= 0
        &&& self.running >= 0
        &&& self.queued >= 0
        &&& self.completed + self.running + self.queued <= i32::MAX
    }

    /// The counts of `jobs` by status.
    pub fn from_jobs(jobs: &[Job]) -> (s: JobSummary)
        requires
            jobs.len() < 0x7fff_ffff,
        ensures
            (s.completed as int, s.running as int, s.queued as int) == summary_of(jobs@),
            s.wf(),
    {
        let mut completed: i32 = 0;
        let mut running: i32 = 0;
        let mut queued: i32 = 0;
        let mut i: usize = 0;
        while i < jobs.len()
            invariant
                i <= jobs.len() < 0x7fff_ffff,
                (completed as int, running as int, queued as int) == summary_of(jobs@.take(i as int)),
            decreases jobs.len() - i,
        {
            proof {
                lemma_summary_bounded(jobs@.take(i as int));
                assert(jobs@.take(i + 1).drop_last() =~= jobs@.take(i as int));
            }
            let j = &jobs[i];
            if opt_str_is_ignore_case(&j.status, "completed") {
                completed = completed + 1;
            } else if opt_str_is_ignore_case(&j.status, "in_progress") {
                running = running + 1;
            } else if opt_str_is_ignore_case(&j.status, "queued")
                || opt_str_is_ignore_case(&j.status, "waiting")
                || opt_str_is_ignore_case(&j.status, "pending")
                || opt_str_is_ignore_case(&j.status, "requested") {
                queued = queued + 1;
            }
            i = i + 1;
        }
        assert(jobs@.take(jobs.len() as int) =~= jobs@);
        proof {
            lemma_summary_bounded(jobs@);
        }
        JobSummary { completed, running, queued }
    }

    /// Whether no job has been counted.
    pub fn is_empty(&self) -> (r: bool)
        ensures
            r == (self.completed == 0 && self.running == 0 && self.queued == 0),
    {
        self.completed == 0 && self.running == 0 && self.queued == 0
    }
}

/// What a progress indicator counts: jobs done out of jobs counted, for a
/// summary that counted any.
pub open spec fn progress_counts_of(summary: Option<JobSummary>) -> Option<(int, int)> {
    match summary {
        Some(s) => if s.completed == 0 && s.running == 0 && s.queued == 0 {
            None
        } else {
            Some((s.completed as int, s.completed + s.running + s.queued))
        },
        None => None,
    }
}

/// Jobs done and jobs counted, for a summary that counted any.
pub fn progress_counts(summary: Option<&JobSummary>) -> (r: Option<(i32, i32)>)
    requires
        summary matches Some(s) ==> s.wf(),
    ensures
        match r {
            Some((d, t)) => progress_counts_of(match summary {
                Some(s) => Some(*s),
                None => None,
            }) == Some((d as int, t as int)),
            None => progress_counts_of(match summary {
                Some(s) => Some(*s),
                None => None,
            }) is None,
        },
{
    match summary {
        Some(s) => {
            if s.is_empty() {
                None
            } else {
                Some((s.completed, s.completed + s.running + s.queued))
            }
        },
        None => None,
    }
}

/// The progress label of a running workflow: `done / total · elapsed`, the
/// counts alone, the elapsed time alone, or nothing.
pub open spec fn progress_label(counts: Option<(int, int)>, elapsed: Option<Seq<char>>) -> Seq<char> {
    match (counts, elapsed) {
        (Some((done, total)), Some(e)) => if total > 0 {
            int_decimal(done) + " / "@ + int_decimal(total) + " · "@ + e
        } else {
            Seq::empty()
        },
        (Some((done, total)), None) => if total > 0 {
            int_decimal(done) + " / "@ + int_decimal(total)
        } else {
            Seq::empty()
        },
        (None, Some(e)) => e,
        (None, None) => Seq::empty(),
    }
}

/// The text of a workflow's progress label.
pub fn progress_label_text(counts: Option<(i32, i32)>, elapsed: Option<&str>) -> (out: String)
    ensures
        out@ == progress_label(match counts {
            Some((d, t)) => Some((d as int, t as int)),
            None => None,
        }, opt_str_view(elapsed)),
{
    match (counts, elapsed) {
        (Some((done, total)), Some(e)) => {
            if total > 0 {
                let mut out = String::new();
                push_int_decimal(&mut out, done as i64);
                push_str(&mut out, " / ");
                push_int_decimal(&mut out, total as i64);
                push_str(&mut out, " · ");
                push_str(&mut out, e);
                out
            } else {
                String::new()
            }
        },
        (Some((done, total)), None) => {
            if total > 0 {
                let mut out = String::new();
                push_int_decimal(&mut out, done as i64);
                push_str(&mut out, " / ");
                push_int_decimal(&mut out, total as i64);
                out
            } else {
                String::new()
            }
        },
        (None, Some(e)) => string_of(e),
        (None, None) => String::new(),
    }
}

// ---------------------------------------------------------------------------
// The row header.
// ---------------------------------------------------------------------------

impl WorkflowRun {
    /// Whether the run can still be cancelled: it has not completed, that
    /// is it is queued, waiting, requested, pending or in progress.
    pub fn is_cancellable(&self) -> (r: bool)
        ensures
            r == view_is_active(self@),
    {
        self.is_active()
    }
}

/// What a workflow row's header shows.
pub struct HeaderPlan {
    /// The status dot's icon.
    pub icon: &'static str,
    /// The status dot's tint class.
    pub class: &'static str,
    /// What a screen reader reads for the dot.
    pub status_text: String,
    /// The meta line under the title.
    pub meta: String,
    /// Whether the trigger button shows.
    pub trigger_visible: bool,
    /// Whether the cancel button shows.
    pub cancel_visible: bool,
    /// Whether the progress row shows (and its elapsed ticker runs).
    pub progress_visible: bool,
    /// Jobs done and jobs counted, for the progress bar and label.
    pub progress_counts: Option<(i32, i32)>,
}

/// The meta line of a workflow row: the latest run's, or "No runs yet" when
/// that is empty.
pub open spec fn header_meta(v: RunView, when: Seq<char>) -> Seq<char> {
    let m = join(meta_parts(v, when), " · "@);
    if m.len() == 0 {
        "No runs yet"@
    } else {
        m
    }
}

/// A workflow row's header for its latest run (`when` being that run's
/// age): the run's dot and status words, its meta line, the cancel button
/// while the run is live and the trigger button otherwise, and the progress
/// row while it is live. Without a run: a neutral dot, "No runs yet", the
/// trigger button and no progress.
pub fn workflow_header_plan(latest: Option<&WorkflowRun>, summary: Option<&JobSummary>, when: &str) -> (p: HeaderPlan)
    requires
        summary matches Some(s) ==> s.wf(),
    ensures
        match latest {
            Some(run) => {
                &&& (p.icon@, p.class@) == presentation(run@.status, run@.conclusion)
                &&& p.status_text@ == workflow_status_words(run@)
                &&& p.meta@ == header_meta(run@, when@)
                &&& p.trigger_visible == !view_is_active(run@)
                &&& p.cancel_visible == view_is_active(run@)
                &&& p.progress_visible == view_is_active(run@)
                &&& (view_is_active(run@) ==> match p.progress_counts {
                    Some((d, t)) => progress_counts_of(match summary {
                        Some(s) => Some(*s),
                        None => None,
                    }) == Some((d as int, t as int)),
                    None => progress_counts_of(match summary {
                        Some(s) => Some(*s),
                        None => None,
                    }) is None,
                })
                &&& (!view_is_active(run@) ==> p.progress_counts is None)
            },
            None => {
                &&& p.icon@ == "window-minimize-symbolic"@
                &&& p.class@ == "idle"@
                &&& p.status_text@ == "No runs yet"@
                &&& p.meta@ == "No runs yet"@
                &&& p.trigger_visible
                &&& !p.cancel_visible
                &&& !p.progress_visible
                &&& p.progress_counts is None
            },
        },
{
    match latest {
        Some(run) => {
            let (status_text, _) = workflow_status_text(run);
            let meta = format_workflow_meta(run, when);
            let meta = if chars_of(meta.as_str()).len() == 0 {
                string_of("No runs yet")
            } else {
                meta
            };
            let active = run.is_active();
            let counts = if active {
                progress_counts(summary)
            } else {
                None
            };
            HeaderPlan {
                icon: get_run_status_icon(run),
                class: get_run_status_class(run),
                status_text,
                meta,
                trigger_visible: !active,
                cancel_visible: active && run.is_cancellable(),
                progress_visible: active,
                progress_counts: counts,
            }
        },
        None => HeaderPlan {
            icon: "window-minimize-symbolic",
            class: "idle",
            status_text: string_of("No runs yet"),
            meta: string_of("No runs yet"),
            trigger_visible: true,
            cancel_visible: false,
            progress_visible: false,
            progress_counts: None,
        },
    }
}

// ---------------------------------------------------------------------------
// Paths, dispatch inputs, buttons and the expander.
// ---------------------------------------------------------------------------

/// Where the last segment of `path` starts: just after its last `/`.
pub open spec fn last_segment_start(path: Seq<char>, end: int) -> int
    decreases end,
{
    if end <= 0 {
        0
    } else if path[end - 1] == '/' {
        end
    } else {
        last_segment_start(path, end - 1)
    }
}

/// The basename of a workflow file path, e.g. `.github/workflows/ci.yml`
/// gives `ci.yml`.
pub open spec fn file_name_of(path: Seq<char>) -> Seq<char> {
    path.subrange(last_segment_start(path, path.len() as int), path.len() as int)
}

proof fn lemma_last_segment_bounds(path: Seq<char>, end: int)
    requires
        0 <= end <= path.len(),
    ensures
        0 <= last_segment_start(path, end) <= end,
    decreases end,
{
    if end > 0 && path[end - 1] != '/' {
        lemma_last_segment_bounds(path, end - 1);
    }
}

/// The basename of a workflow file path.
pub fn workflow_file_name(path: &str) -> (out: String)
    ensures
        out@ == file_name_of(path@),
{
    let chars = chars_of(path);
    let mut k: usize = chars.len();
    while k > 0 && chars[k - 1] != '/'
        invariant
            k <= chars.len(),
            chars@ == path@,
            last_segment_start(path@, k as int) == last_segment_start(path@, chars.len() as int),
        decreases k,
    {
        k = k - 1;
    }
    proof {
        lemma_last_segment_bounds(path@, chars.len() as int);
    }
    crate::chars::string_of_range(chars.as_slice(), k, chars.len())
}

/// One input of a manually dispatched workflow, as far as its caption goes.
#[derive(Debug, Clone)]
pub struct WorkflowDispatchInput {
    pub name: String,
    pub description: Option<String>,
    pub required: bool,
}

/// The title of a dispatch input's field: its name, starred when required.
pub fn dispatch_input_title(input: &WorkflowDispatchInput) -> (out: String)
    ensures
        out@ == if input.required {
            input.name@ + " *"@
        } else {
            input.name@
        },
{
    let mut out = string_of(input.name.as_str());
    if input.required {
        push_str(&mut out, " *");
    }
    out
}

/// The subtitle of a dispatch input's field: its description, marked
/// "(required)" when required; "Required" alone for a required input with no
/// description; none otherwise.
pub fn dispatch_input_subtitle(input: &WorkflowDispatchInput) -> (r: Option<String>)
    ensures
        opt_seq(r) == match (opt_seq(input.description), input.required) {
            (Some(d), true) => Some(d + " (required)"@),
            (Some(d), false) => Some(d),
            (None, true) => Some("Required"@),
            (None, false) => None,
        },
{
    match (&input.description, input.required) {
        (Some(description), true) => {
            let mut out = string_of(description.as_str());
            push_str(&mut out, " (required)");
            Some(out)
        },
        (Some(description), false) => Some(string_of(description.as_str())),
        (None, true) => Some(string_of("Required")),
        (None, false) => None,
    }
}

/// Whether a workflow row's expander asks for its runs on being opened: only
/// when the user opened it (not the row itself), and only when a refresh was
/// forced or the run list has nothing loaded yet.
pub fn expander_should_request_runs(expanded: bool, programmatic: bool, force_refresh: bool, list_should_load: bool) -> (r: bool)
    ensures
        r == (expanded && !programmatic && (force_refresh || list_should_load)),
{
    expanded && !programmatic && (force_refresh || list_should_load)
}

/// The runs whose expansion a load preserves: the row's initial set the
/// first time (which is then used up), the currently expanded runs after.
pub fn take_preserved_runs(initial: &mut Option<Vec<i64>>, current_expanded: Vec<i64>) -> (r: Vec<i64>)
    ensures
        match *old(initial) {
            Some(v) => r@ == v@,
            None => r@ == current_expanded@,
        },
        *final(initial) is None,
{
    match initial.take() {
        Some(v) => v,
        None => current_expanded,
    }
}

/// The period of a workflow's follow-up refresh after an action, in whole
/// seconds: none while auto-refresh is off, at least one second otherwise
/// (narrowed to 32 bits as the timer takes it).
pub fn follow_up_interval(refresh_interval_secs: u64) -> (r: Option<u32>)
    ensures
        refresh_interval_secs == 0 ==> r is None,
        refresh_interval_secs > 0 ==> r == Some((refresh_interval_secs % 0x1_0000_0000) as u32),
{
    if refresh_interval_secs == 0 {
        None
    } else {
        let secs = if refresh_interval_secs < 1 { 1 } else { refresh_interval_secs };
        let low = secs % 0x1_0000_0000;
        Some(low as u32)
    }
}

/// What the logs button of a workflow row does with its answer.
#[derive(Debug, Clone, Copy, PartialEq, Eq, Structural)]
pub enum LogsButtonOutcome {
    /// The workflow has no run to read: toast "No runs yet".
    NoRuns,
    /// Open the logs window over the run's jobs, this one selected.
    Open { selected: usize },
    /// The run has no job: toast "No jobs found".
    NoJobs,
    /// Listing the jobs failed: toast "Unable to load jobs".
    LoadFailed,
}

/// The outcome of the logs button once its job listing answered.
pub fn logs_button_outcome(answer: &Result<Vec<Job>, String>) -> (r: LogsButtonOutcome)
    ensures
        match answer {
            Ok(jobs) => match relevant_job(jobs@) {
                Some(i) => r == (LogsButtonOutcome::Open { selected: i as usize }),
                None => r == LogsButtonOutcome::NoJobs,
            },
            Err(_) => r == LogsButtonOutcome::LoadFailed,
        },
{
    match answer {
        Ok(jobs) => match most_relevant_job(jobs.as_slice()) {
            Some(i) => LogsButtonOutcome::Open { selected: i },
            None => LogsButtonOutcome::NoJobs,
        },
        Err(_) => LogsButtonOutcome::LoadFailed,
    }
}

/// The toast a logs-button outcome shows, if any.
pub fn logs_button_toast(outcome: LogsButtonOutcome) -> (r: Option<&'static str>)
    ensures
        match outcome {
            LogsButtonOutcome::NoRuns => r == Some("No runs yet"),
            LogsButtonOutcome::Open { .. } => r is None,
            LogsButtonOutcome::NoJobs => r == Some("No jobs found"),
            LogsButtonOutcome::LoadFailed => r == Some("Unable to load jobs"),
        },
{
    match outcome {
        LogsButtonOutcome::NoRuns => Some("No runs yet"),
        LogsButtonOutcome::Open { .. } => None,
        LogsButtonOutcome::NoJobs => Some("No jobs found"),
        LogsButtonOutcome::LoadFailed => Some("Unable to load jobs"),
    }
}

/// A request for a workflow's runs.
pub struct RunsRequest {
    pub workflow_id: i64,
    /// Whether it is a background refresh (no loading page, errors kept quiet).
    pub background: bool,
    /// The runs whose jobs the load keeps expanded.
    pub expanded_run_ids: Vec<i64>,
}

/// The request a new workflow row makes while it is being built: when it is
/// built open and its list asks for runs, one foreground request for them,
/// keeping the row's initial expanded runs (or, once those are used up, the
/// runs expanded now); none otherwise.
pub open spec fn initial_request(
    should_expand: bool,
    list_should_load: bool,
    workflow_id: i64,
    initial: Option<Seq<i64>>,
    current: Seq<i64>,
) -> Option<(i64, bool, Seq<i64>)> {
    if should_expand && list_should_load {
        Some((workflow_id, false, match initial {
            Some(v) => v,
            None => current,
        }))
    } else {
        None
    }
}

/// The request a workflow row makes while it is being built (see
/// `initial_request`). Opening the row is programmatic, so its expander
/// asks for nothing more (`expander_should_request_runs`); the initial
/// expanded runs are used up by the request.
pub fn initial_expand_request(
    should_expand: bool,
    list: &RunListModel,
    workflow_id: i64,
    initial: &mut Option<Vec<i64>>,
    current_expanded: Vec<i64>,
) -> (r: Option<RunsRequest>)
    ensures
        match initial_request(
            should_expand,
            requires_load(Some(state_name(list.state))),
            workflow_id,
            match *old(initial) {
                Some(v) => Some(v@),
                None => None,
            },
            current_expanded@,
        ) {
            Some((w, bg, ids)) => r matches Some(q) && q.workflow_id == w && q.background == bg
                && q.expanded_run_ids@ == ids && *final(initial) is None,
            None => r is None && *final(initial) == *old(initial),
        },
{
    if should_expand && list.should_load_runs() {
        let ids = take_preserved_runs(initial, current_expanded);
        Some(RunsRequest { workflow_id, background: false, expanded_run_ids: ids })
    } else {
        None
    }
}

/// A row built open makes exactly one foreground request, for its workflow
/// and with its initial expanded runs, since a new run list asks for its
/// runs; a row built closed makes none.
pub proof fn lemma_new_row_requests_once(should_expand: bool, workflow_id: i64, initial: Seq<i64>, current: Seq<i64>)
    ensures
        should_expand ==> initial_request(
            should_expand,
            requires_load(Some(state_name(ListState::Idle))),
            workflow_id,
            Some(initial),
            current,
        ) == Some((workflow_id, false, initial)),
        !should_expand ==> initial_request(
            should_expand,
            requires_load(Some(state_name(ListState::Idle))),
            workflow_id,
            Some(initial),
            current,
        ) is None,
{
}

/// The page on GitHub that lists every run of a workflow:
/// `https://github.com/<owner>/<repo>/actions/workflows/<file name>`.
pub open spec fn actions_url_of(owner: Seq<char>, repo: Seq<char>, path: Seq<char>) -> Seq<char> {
    "https://github.com/"@ + owner + "/"@ + repo + "/actions/workflows/"@ + file_name_of(path)
}

/// The link behind "All on GitHub" for the workflow at `path`.
pub fn workflow_actions_url(owner: &str, repo: &str, path: &str) -> (out: String)
    ensures
        out@ == actions_url_of(owner@, repo@, path@),
{
    let mut out = string_of("https://github.com/");
    push_str(&mut out, owner);
    push_str(&mut out, "/");
    push_str(&mut out, repo);
    push_str(&mut out, "/actions/workflows/");
    let file = workflow_file_name(path);
    push_str(&mut out, file.as_str());
    out
}

} // verus!
