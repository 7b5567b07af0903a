//! The GitHub records the views work on: workflow runs, jobs and their steps,
//! repositories and workflows. Every text field is optional where GitHub may
//! leave it out.
use vstd::prelude::*;
use crate::text::{opt_seq, opt_clone, opt_str_is_ignore_case, eq_ignore_ascii_case, string_of};

verus! {

/// A GitHub account, by its login.
#[derive(Debug, Clone)]
pub struct User {
    pub login: String,
}

/// The commit a run was started for.
#[derive(Debug, Clone)]
pub struct HeadCommit {
    pub message: Option<String>,
}

/// One run of a workflow.
#[derive(Debug, Clone)]
pub struct WorkflowRun {
    pub id: i64,
    pub run_number: Option<i64>,
    pub workflow_id: Option<i64>,
    pub name: Option<String>,
    pub display_title: Option<String>,
    pub head_branch: Option<String>,
    pub head_commit: Option<HeadCommit>,
    pub status: Option<String>,
    pub conclusion: Option<String>,
    pub run_started_at: Option<String>,
    pub event: Option<String>,
    pub created_at: Option<String>,
    pub updated_at: Option<String>,
    pub html_url: Option<String>,
    pub actor: Option<User>,
    pub triggering_actor: Option<User>,
}

/// One step of a job.
#[derive(Debug, Clone)]
pub struct JobStep {
    pub name: Option<String>,
    pub status: Option<String>,
    pub conclusion: Option<String>,
    pub number: Option<i64>,
    pub started_at: Option<String>,
    pub completed_at: Option<String>,
}

/// One job of a run.
#[derive(Debug, Clone)]
pub struct Job {
    pub id: i64,
    pub run_id: i64,
    pub status: Option<String>,
    pub conclusion: Option<String>,
    pub started_at: Option<String>,
    pub completed_at: Option<String>,
    pub name: Option<String>,
    pub steps: Vec<JobStep>,
    pub html_url: Option<String>,
}

/// What the signed-in account may do in a repository.
#[derive(Debug, Clone, Copy, PartialEq, Eq, Structural)]
pub struct RepoPermissions {
    pub admin: bool,
    pub push: bool,
    pub pull: bool,
}

/// A repository.
#[derive(Debug, Clone)]
pub struct Repo {
    pub id: i64,
    pub name: String,
    pub full_name: String,
    pub owner: User,
    pub default_branch: Option<String>,
    pub is_private: bool,
    pub permissions: Option<RepoPermissions>,
}

/// A workflow file of a repository.
#[derive(Debug, Clone)]
pub struct Workflow {
    pub id: i64,
    pub name: String,
    pub path: String,
}

/// A run as plain values.
pub struct RunView {
    pub id: i64,
    pub run_number: Option<i64>,
    pub workflow_id: Option<i64>,
    pub name: Option<Seq<char>>,
    pub display_title: Option<Seq<char>>,
    pub head_branch: Option<Seq<char>>,
    pub head_commit: Option<Option<Seq<char>>>,
    pub status: Option<Seq<char>>,
    pub conclusion: Option<Seq<char>>,
    pub run_started_at: Option<Seq<char>>,
    pub event: Option<Seq<char>>,
    pub created_at: Option<Seq<char>>,
    pub updated_at: Option<Seq<char>>,
    pub html_url: Option<Seq<char>>,
    pub actor: Option<Seq<char>>,
    pub triggering_actor: Option<Seq<char>>,
}

/// The login of an optional account.
pub open spec fn login_of(u: Option<User>) -> Option<Seq<char>> {
    match u {
        Some(v) => Some(v.login@),
        None => None,
    }
}

impl View for WorkflowRun {
    type V = RunView;

    open spec fn view(&self) -> RunView {
        RunView {
            id: self.id,
            run_number: self.run_number,
            workflow_id: self.workflow_id,
            name: opt_seq(self.name),
            display_title: opt_seq(self.display_title),
            head_branch: opt_seq(self.head_branch),
            head_commit: match self.head_commit {
                Some(c) => Some(opt_seq(c.message)),
                None => None,
            },
            status: opt_seq(self.status),
            conclusion: opt_seq(self.conclusion),
            run_started_at: opt_seq(self.run_started_at),
            event: opt_seq(self.event),
            created_at: opt_seq(self.created_at),
            updated_at: opt_seq(self.updated_at),
            html_url: opt_seq(self.html_url),
            actor: login_of(self.actor),
            triggering_actor: login_of(self.triggering_actor),
        }
    }
}

/// The views of a list of runs.
pub open spec fn run_views(runs: Seq<WorkflowRun>) -> Seq<RunView> {
    runs.map_values(|r: WorkflowRun| r@)
}

impl User {
    /// A copy of this account.
    pub fn duplicate(&self) -> (r: User)
        ensures
            r.login@ == self.login@,
    {
        User { login: string_of(self.login.as_str()) }
    }
}

fn opt_user_clone(u: &Option<User>) -> (r: Option<User>)
    ensures
        login_of(r) == login_of(*u),
{
    match u {
        Some(v) => Some(v.duplicate()),
        None => None,
    }
}

impl WorkflowRun {
    /// A copy of this run.
    pub fn duplicate(&self) -> (r: WorkflowRun)
        ensures
            r@ == self@,
    {
        WorkflowRun {
            id: self.id,
            run_number: self.run_number,
            workflow_id: self.workflow_id,
            name: opt_clone(&self.name),
            display_title: opt_clone(&self.display_title),
            head_branch: opt_clone(&self.head_branch),
            head_commit: match &self.head_commit {
                Some(c) => Some(HeadCommit { message: opt_clone(&c.message) }),
                None => None,
            },
            status: opt_clone(&self.status),
            conclusion: opt_clone(&self.conclusion),
            run_started_at: opt_clone(&self.run_started_at),
            event: opt_clone(&self.event),
            created_at: opt_clone(&self.created_at),
            updated_at: opt_clone(&self.updated_at),
            html_url: opt_clone(&self.html_url),
            actor: opt_user_clone(&self.actor),
            triggering_actor: opt_user_clone(&self.triggering_actor),
        }
    }
}

/// Whether an optional status reads `value`, ignoring ASCII case.
pub open spec fn status_is(status: Option<Seq<char>>, value: Seq<char>) -> bool {
    status matches Some(v) && eq_ignore_ascii_case(v, value)
}

/// A run is live from the moment it is queued until it completes: queued,
/// waiting, requested, pending or in progress.
pub open spec fn view_is_active(run: RunView) -> bool {
    ||| status_is(run.status, "in_progress"@)
    ||| status_is(run.status, "queued"@)
    ||| status_is(run.status, "waiting"@)
    ||| status_is(run.status, "requested"@)
    ||| status_is(run.status, "pending"@)
}

/// Whether a run is live.
pub open spec fn run_is_active(run: WorkflowRun) -> bool {
    view_is_active(run@)
}

impl WorkflowRun {
    /// Whether the run is queued, waiting, requested, pending or in progress.
    pub fn is_active(&self) -> (r: bool)
        ensures
            r == run_is_active(*self),
    {
        opt_str_is_ignore_case(&self.status, "in_progress")
            || opt_str_is_ignore_case(&self.status, "queued")
            || opt_str_is_ignore_case(&self.status, "waiting")
            || opt_str_is_ignore_case(&self.status, "requested")
            || opt_str_is_ignore_case(&self.status, "pending")
    }
}


/// A repository as plain values.
pub struct RepoView {
    pub id: i64,
    pub name: Seq<char>,
    pub full_name: Seq<char>,
    pub owner: Seq<char>,
    pub default_branch: Option<Seq<char>>,
    pub is_private: bool,
    pub permissions: Option<RepoPermissions>,
}

impl View for Repo {
    type V = RepoView;

    open spec fn view(&self) -> RepoView {
        RepoView {
            id: self.id,
            name: self.name@,
            full_name: self.full_name@,
            owner: self.owner.login@,
            default_branch: opt_seq(self.default_branch),
            is_private: self.is_private,
            permissions: self.permissions,
        }
    }
}

impl Repo {
    /// A copy of this repository.
    pub fn duplicate(&self) -> (r: Repo)
        ensures
            r@ == self@,
    {
        Repo {
            id: self.id,
            name: string_of(self.name.as_str()),
            full_name: string_of(self.full_name.as_str()),
            owner: self.owner.duplicate(),
            default_branch: opt_clone(&self.default_branch),
            is_private: self.is_private,
            permissions: self.permissions,
        }
    }
}

/// A step as plain values.
pub struct StepView {
    pub name: Option<Seq<char>>,
    pub status: Option<Seq<char>>,
    pub conclusion: Option<Seq<char>>,
    pub number: Option<i64>,
    pub started_at: Option<Seq<char>>,
    pub completed_at: Option<Seq<char>>,
}

impl View for JobStep {
    type V = StepView;

    open spec fn view(&self) -> StepView {
        StepView {
            name: opt_seq(self.name),
            status: opt_seq(self.status),
            conclusion: opt_seq(self.conclusion),
            number: self.number,
            started_at: opt_seq(self.started_at),
            completed_at: opt_seq(self.completed_at),
        }
    }
}

/// A job as plain values.
pub struct JobView {
    pub id: i64,
    pub run_id: i64,
    pub status: Option<Seq<char>>,
    pub conclusion: Option<Seq<char>>,
    pub started_at: Option<Seq<char>>,
    pub completed_at: Option<Seq<char>>,
    pub name: Option<Seq<char>>,
    pub steps: Seq<StepView>,
    pub html_url: Option<Seq<char>>,
}

impl View for Job {
    type V = JobView;

    open spec fn view(&self) -> JobView {
        JobView {
            id: self.id,
            run_id: self.run_id,
            status: opt_seq(self.status),
            conclusion: opt_seq(self.conclusion),
            started_at: opt_seq(self.started_at),
            completed_at: opt_seq(self.completed_at),
            name: opt_seq(self.name),
            steps: self.steps@.map_values(|st: JobStep| st@),
            html_url: opt_seq(self.html_url),
        }
    }
}

impl JobStep {
    /// A copy of this step.
    pub fn duplicate(&self) -> (r: JobStep)
        ensures
            r@ == self@,
    {
        JobStep {
            name: opt_clone(&self.name),
            status: opt_clone(&self.status),
            conclusion: opt_clone(&self.conclusion),
            number: self.number,
            started_at: opt_clone(&self.started_at),
            completed_at: opt_clone(&self.completed_at),
        }
    }
}

impl Job {
    /// A copy of this job.
    pub fn duplicate(&self) -> (r: Job)
        ensures
            r@ == self@,
    {
        let mut steps: Vec<JobStep> = Vec::new();
        let mut i: usize = 0;
        while i < self.steps.len()
            invariant
                i <= self.steps.len(),
                steps.len() == i,
                steps@.map_values(|st: JobStep| st@) == self.steps@.take(i as int).map_values(|st: JobStep| st@),
            decreases self.steps.len() - i,
        {
            let ghost prev = steps@;
            let d = self.steps[i].duplicate();
            steps.push(d);
            proof {
                let a = steps@.map_values(|st: JobStep| st@);
                let b = self.steps@.take(i + 1).map_values(|st: JobStep| st@);
                assert forall|j: int| 0 <= j < a.len() implies a[j] == b[j] by {
                    if j < i {
                        assert(prev.map_values(|st: JobStep| st@)[j] == self.steps@.take(i as int).map_values(
                            |st: JobStep| st@,
                        )[j]);
                    }
                }
                assert(a =~= b);
            }
            i = i + 1;
        }
        assert(self.steps@.take(self.steps.len() as int) =~= self.steps@);
        Job {
            id: self.id,
            run_id: self.run_id,
            status: opt_clone(&self.status),
            conclusion: opt_clone(&self.conclusion),
            started_at: opt_clone(&self.started_at),
            completed_at: opt_clone(&self.completed_at),
            name: opt_clone(&self.name),
            steps,
            html_url: opt_clone(&self.html_url),
        }
    }
}

} // verus!
