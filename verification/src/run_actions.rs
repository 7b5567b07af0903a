//! The action buttons of a run row: which show, what their confirmation
//! asks, and what the toast says once GitHub has answered.
use vstd::prelude::*;
use crate::text::{push_str, string_of, opt_str_is_ignore_case};
use crate::models::{WorkflowRun, RunView, view_is_active, status_is};
use crate::formatting::{format_run_title, run_title};

verus! {

/// A run that has completed may be run again.
pub open spec fn view_is_rerunnable(v: RunView) -> bool {
    status_is(v.status, "completed"@)
}

/// A completed run that failed, timed out or was cancelled has jobs worth
/// running again.
pub open spec fn view_has_failed_jobs(v: RunView) -> bool {
    &&& status_is(v.status, "completed"@)
    &&& (status_is(v.conclusion, "failure"@) || status_is(v.conclusion, "timed_out"@)
        || status_is(v.conclusion, "cancelled"@))
}

impl WorkflowRun {
    /// Whether the run has completed and may be run again.
    pub fn is_rerunnable(&self) -> (r: bool)
        ensures
            r == view_is_rerunnable(self@),
    {
        opt_str_is_ignore_case(&self.status, "completed")
    }

    /// Whether the run completed with jobs that failed, timed out or were
    /// cancelled.
    pub fn has_failed_jobs(&self) -> (r: bool)
        ensures
            r == view_has_failed_jobs(self@),
    {
        opt_str_is_ignore_case(&self.status, "completed") && (opt_str_is_ignore_case(
            &self.conclusion,
            "failure",
        ) || opt_str_is_ignore_case(&self.conclusion, "timed_out") || opt_str_is_ignore_case(
            &self.conclusion,
            "cancelled",
        ))
    }
}

/// A button of a run row.
#[derive(Debug, Clone, Copy, PartialEq, Eq, Structural)]
pub enum RunAction {
    /// Re-run the whole workflow run.
    Rerun,
    /// Re-run only its failed jobs.
    RerunFailed,
    /// Cancel the run.
    Cancel,
    /// Open the run on GitHub.
    Open,
}

/// The buttons of a run row, in order: re-run when it may be re-run,
/// re-run failed jobs when it has some, cancel while it is live, open when
/// it has a page on GitHub.
pub open spec fn actions_of(v: RunView) -> Seq<RunAction> {
    let a = if view_is_rerunnable(v) {
        seq![RunAction::Rerun]
    } else {
        Seq::empty()
    };
    let b = if view_has_failed_jobs(v) {
        a.push(RunAction::RerunFailed)
    } else {
        a
    };
    let c = if view_is_active(v) {
        b.push(RunAction::Cancel)
    } else {
        b
    };
    if v.html_url is Some {
        c.push(RunAction::Open)
    } else {
        c
    }
}

/// The buttons a run row shows.
pub fn run_actions(run: &WorkflowRun) -> (r: Vec<RunAction>)
    ensures
        r@ == actions_of(run@),
{
    let mut r: Vec<RunAction> = Vec::new();
    if run.is_rerunnable() {
        r.push(RunAction::Rerun);
    }
    if run.has_failed_jobs() {
        r.push(RunAction::RerunFailed);
    }
    if run.is_cancellable() {
        r.push(RunAction::Cancel);
    }
    if run.html_url.is_some() {
        r.push(RunAction::Open);
    }
    proof {
        assert(r@ =~= actions_of(run@));
    }
    r
}

/// A yes/no question asked before an action. "No" is the safe default.
pub struct ConfirmPrompt {
    pub heading: String,
    pub body: String,
    /// Whether "Yes" is styled as destructive rather than suggested.
    pub destructive: bool,
}

/// What the confirmation of an action asks about the run titled `title`.
pub open spec fn prompt_of(action: RunAction, title: Seq<char>) -> Option<(Seq<char>, Seq<char>, bool)> {
    match action {
        RunAction::Rerun => Some(("Re-run Workflow"@, "Do you want to re-run \""@ + title + "\"?"@, false)),
        RunAction::RerunFailed => Some((
            "Re-run Failed Jobs"@,
            "Do you want to re-run all failed jobs in \""@ + title + "\"?"@,
            false,
        )),
        RunAction::Cancel => Some((
            "Cancel Workflow Run"@,
            "Do you want to cancel the in-progress run \""@ + title
                + "\"?\n\nThis action cannot be undone."@,
            true,
        )),
        RunAction::Open => None,
    }
}

fn quoted(prefix: &str, title: &str, suffix: &str) -> (out: String)
    ensures
        out@ == prefix@ + title@ + suffix@,
{
    let mut out = string_of(prefix);
    push_str(&mut out, title);
    push_str(&mut out, suffix);
    out
}

/// The confirmation an action asks for on `run`; opening asks nothing.
pub fn confirm_prompt(action: RunAction, run: &WorkflowRun) -> (r: Option<ConfirmPrompt>)
    ensures
        match r {
            Some(p) => prompt_of(action, run_title(run@)) == Some((p.heading@, p.body@, p.destructive)),
            None => prompt_of(action, run_title(run@)) is None,
        },
{
    let title = format_run_title(run);
    match action {
        RunAction::Rerun => Some(ConfirmPrompt {
            heading: string_of("Re-run Workflow"),
            body: quoted("Do you want to re-run \"", title.as_str(), "\"?"),
            destructive: false,
        }),
        RunAction::RerunFailed => Some(ConfirmPrompt {
            heading: string_of("Re-run Failed Jobs"),
            body: quoted("Do you want to re-run all failed jobs in \"", title.as_str(), "\"?"),
            destructive: false,
        }),
        RunAction::Cancel => Some(ConfirmPrompt {
            heading: string_of("Cancel Workflow Run"),
            body: quoted(
                "Do you want to cancel the in-progress run \"",
                title.as_str(),
                "\"?\n\nThis action cannot be undone.",
            ),
            destructive: true,
        }),
        RunAction::Open => None,
    }
}

/// Whether a dialog response confirms the action: only `confirm` does.
pub fn response_confirms(response: &str) -> (r: bool)
    ensures
        r == (response@ == "confirm"@),
{
    crate::text::str_eq(response, "confirm")
}

/// The toast after GitHub answered an action on the run titled `title`, and
/// how many seconds it stays: three for a success, five for a failure.
pub open spec fn toast_of(action: RunAction, success: bool, title: Seq<char>) -> Option<(Seq<char>, u32)> {
    match action {
        RunAction::Rerun => if success {
            Some(("✓ Re-running '"@ + title + "'"@, 3))
        } else {
            Some(("✗ Failed to re-run workflow"@, 5))
        },
        RunAction::RerunFailed => if success {
            Some(("✓ Re-running failed jobs for '"@ + title + "'"@, 3))
        } else {
            Some(("✗ Failed to re-run failed jobs"@, 5))
        },
        RunAction::Cancel => if success {
            Some(("✓ Cancelled run '"@ + title + "'"@, 3))
        } else {
            Some(("✗ Failed to cancel run"@, 5))
        },
        RunAction::Open => None,
    }
}

/// The toast for an answered action on a run with title `title`.
pub fn action_toast(action: RunAction, success: bool, title: &str) -> (r: Option<(String, u32)>)
    ensures
        match r {
            Some((t, secs)) => toast_of(action, success, title@) == Some((t@, secs)),
            None => toast_of(action, success, title@) is None,
        },
{
    match action {
        RunAction::Rerun => if success {
            Some((quoted("✓ Re-running '", title, "'"), 3))
        } else {
            Some((string_of("✗ Failed to re-run workflow"), 5))
        },
        RunAction::RerunFailed => if success {
            Some((quoted("✓ Re-running failed jobs for '", title, "'"), 3))
        } else {
            Some((string_of("✗ Failed to re-run failed jobs"), 5))
        },
        RunAction::Cancel => if success {
            Some((quoted("✓ Cancelled run '", title, "'"), 3))
        } else {
            Some((string_of("✗ Failed to cancel run"), 5))
        },
        RunAction::Open => None,
    }
}

} // verus!
