//! Keeping the workflow list fresh: the auto-refresh timer, the silent
//! refresh of the workflow set (at most every thirty seconds), and what a
//! refresh changes in the list.
use vstd::prelude::*;
use std::collections::HashSet;
use crate::models::{Workflow, WorkflowRun, run_is_active};
use crate::errors::GitHubError;
use crate::text::concat2;
use crate::digest::{RunDigestStore, store_view, digest_map_view};

verus! {

broadcast use vstd::std_specs::hash::group_hash_axioms;

/// How long, in milliseconds, a silent refresh of the workflow set waits
/// after the last one.
pub const SILENT_WORKFLOW_REFRESH_TTL_MS: u64 = 30000;

/// The auto-refresh interval, in seconds, when none is configured.
pub const DEFAULT_AUTO_REFRESH_INTERVAL_SECS: u64 = 10;

/// Whether a silent refresh at `now` comes too soon after the last one.
pub open spec fn skips_silent_refresh(last: Option<u64>, now: u64) -> bool {
    match last {
        Some(p) => (if now >= p { now - p } else { 0 }) < SILENT_WORKFLOW_REFRESH_TTL_MS,
        None => false,
    }
}

/// Whether a silent refresh at `now` (milliseconds of a monotonic clock)
/// is skipped because the last one was less than thirty seconds ago.
pub fn should_skip_silent_workflow_refresh(last_refresh: Option<u64>, now: u64) -> (r: bool)
    ensures
        r == skips_silent_refresh(last_refresh, now),
{
    match last_refresh {
        Some(previous) => {
            let elapsed = if now >= previous {
                now - previous
            } else {
                0
            };
            elapsed < SILENT_WORKFLOW_REFRESH_TTL_MS
        },
        None => false,
    }
}

/// Whether the background refresh reloads a workflow's runs: when its row
/// is open or it has live runs.
pub fn should_refresh_workflow_runs_in_background(expander_expanded: bool, is_active: bool) -> (r:
    bool)
    ensures
        r == (expander_expanded || is_active),
{
    expander_expanded || is_active
}

/// What a load of the workflow set ended with: its answer, or nothing
/// because the task ended without one.
pub enum WorkflowLoadMessage {
    Finished(Result<Vec<Workflow>, GitHubError>),
    Dropped,
}

/// The error for a load task that ended without an answer.
pub fn workflow_load_task_dropped_error(task_name: &str) -> (r: GitHubError)
    ensures
        r matches GitHubError::ApiError(m) && m@ == task_name@ + " ended without returning a result"@,
{
    GitHubError::ApiError(concat2(task_name, " ended without returning a result"))
}

/// The answer of a workflow load: what it finished with, or the error of a
/// task that ended without one.
pub fn workflow_load_result(message: WorkflowLoadMessage, task_name: &str) -> (r: Result<
    Vec<Workflow>,
    GitHubError,
>)
    ensures
        match message {
            WorkflowLoadMessage::Finished(res) => r == res,
            WorkflowLoadMessage::Dropped => r matches Err(GitHubError::ApiError(m)) && m@ == task_name@
                + " ended without returning a result"@,
        },
{
    match message {
        WorkflowLoadMessage::Finished(result) => result,
        WorkflowLoadMessage::Dropped => Err(workflow_load_task_dropped_error(task_name)),
    }
}

/// What a tick of the auto-refresh timer does.
#[derive(Debug, Clone, Copy, PartialEq, Eq, Structural)]
pub enum AutoRefreshTick {
    /// The pane is gone: the timer stops.
    Stop,
    /// The window is hidden: nothing this time.
    Skip,
    /// Refresh.
    Refresh,
}

/// A tick stops the timer of a pane that is no longer active, skips while
/// the window is hidden, and refreshes otherwise.
pub fn auto_refresh_tick(window_visible: bool, refresh_active: bool) -> (r: AutoRefreshTick)
    ensures
        r == if !refresh_active {
            AutoRefreshTick::Stop
        } else if !window_visible {
            AutoRefreshTick::Skip
        } else {
            AutoRefreshTick::Refresh
        },
{
    if !refresh_active {
        AutoRefreshTick::Stop
    } else if !window_visible {
        AutoRefreshTick::Skip
    } else {
        AutoRefreshTick::Refresh
    }
}

/// Whether a refresh's answer is still applied: the workflow view and its
/// pane are alive and the pane is the active one.
pub fn should_listen_for_refresh_updates(
    workflow_view_alive: bool,
    lifecycle_alive: bool,
    refresh_active: bool,
) -> (r: bool)
    ensures
        r == (workflow_view_alive && lifecycle_alive && refresh_active),
{
    workflow_view_alive && lifecycle_alive && refresh_active
}

/// Whether the auto-refresh timer is set up again: the interval changed, or
/// no timer runs.
pub fn should_reconfigure_auto_refresh(
    current_interval: Option<u64>,
    has_timer: bool,
    requested_interval: u64,
) -> (r: bool)
    ensures
        r == (current_interval != Some(requested_interval) || !has_timer),
{
    match current_interval {
        Some(c) => c != requested_interval || !has_timer,
        None => true,
    }
}

/// What configuring the auto-refresh timer does.
#[derive(Debug, Clone, Copy, PartialEq, Eq, Structural)]
pub enum TimerPlan {
    /// The running timer already has that interval.
    Keep,
    /// The old timer goes and none replaces it (interval 0).
    Disable,
    /// The old timer goes and one with this interval, in seconds, starts.
    Start(u64),
}

/// The timer slot: its interval and whether a timer runs.
pub struct AutoRefreshSlot {
    pub interval: Option<u64>,
    pub has_timer: bool,
}

impl AutoRefreshSlot {
    /// Configures the timer for `requested` seconds: nothing changes when a
    /// timer with that interval runs; an interval of 0 disables it;
    /// otherwise a timer with that interval replaces the old one.
    pub fn configure(&mut self, requested: u64) -> (p: TimerPlan)
        ensures
            !(old(self).interval != Some(requested) || !old(self).has_timer) ==> p == TimerPlan::Keep
                && final(self).interval == old(self).interval && final(self).has_timer
                == old(self).has_timer,
            (old(self).interval != Some(requested) || !old(self).has_timer) ==> {
                &&& final(self).interval == Some(requested)
                &&& (requested == 0 ==> p == TimerPlan::Disable && !final(self).has_timer)
                &&& (requested > 0 ==> p == TimerPlan::Start(requested) && final(self).has_timer)
            },
    {
        if !should_reconfigure_auto_refresh(self.interval, self.has_timer, requested) {
            return TimerPlan::Keep;
        }
        self.has_timer = false;
        self.interval = Some(requested);
        if requested == 0 {
            return TimerPlan::Disable;
        }
        self.has_timer = true;
        TimerPlan::Start(requested)
    }

    /// The timer stopped itself.
    pub fn stopped(&mut self)
        ensures
            !final(self).has_timer,
            final(self).interval == old(self).interval,
    {
        self.has_timer = false;
    }
}

/// Whether two workflow lists differ: in length, or in the ids they hold.
pub open spec fn workflow_sets_differ(a: Seq<Workflow>, b: Seq<Workflow>) -> bool {
    a.len() != b.len() || a.map_values(|w: Workflow| w.id).to_set() != b.map_values(
        |w: Workflow| w.id,
    ).to_set()
}

fn workflow_ids(ws: &[Workflow]) -> (r: HashSet<i64>)
    ensures
        r@ == ws@.map_values(|w: Workflow| w.id).to_set(),
{
    let mut r: HashSet<i64> = HashSet::new();
    let mut i: usize = 0;
    while i < ws.len()
        invariant
            i <= ws.len(),
            r@ == ws@.take(i as int).map_values(|w: Workflow| w.id).to_set(),
        decreases ws.len() - i,
    {
        let ghost before = ws@.take(i as int).map_values(|w: Workflow| w.id);
        r.insert(ws[i].id);
        proof {
            assert(ws@.take(i + 1).map_values(|w: Workflow| w.id) =~= before.push(ws@[i as int].id));
            before.lemma_push_to_set_commute(ws@[i as int].id);
        }
        i = i + 1;
    }
    assert(ws@.take(ws.len() as int) =~= ws@);
    r
}

/// Whether every workflow of `a` has its id in `ids`.
fn all_ids_in(a: &[Workflow], ids: &HashSet<i64>) -> (r: bool)
    ensures
        r == forall|i: int| 0 <= i < a@.len() ==> ids@.contains(#[trigger] a@[i].id),
{
    let mut i: usize = 0;
    while i < a.len()
        invariant
            i <= a.len(),
            forall|j: int| 0 <= j < i ==> ids@.contains(#[trigger] a@[j].id),
        decreases a.len() - i,
    {
        if !ids.contains(&a[i].id) {
            return false;
        }
        i = i + 1;
    }
    true
}

/// Whether two workflow lists differ in length or in the ids they hold.
pub fn workflows_differ(a: &[Workflow], b: &[Workflow]) -> (r: bool)
    ensures
        r == workflow_sets_differ(a@, b@),
{
    if a.len() != b.len() {
        return true;
    }
    let a_ids = workflow_ids(a);
    let b_ids = workflow_ids(b);
    let a_in_b = all_ids_in(a, &b_ids);
    let b_in_a = all_ids_in(b, &a_ids);
    let ghost sa = a@.map_values(|w: Workflow| w.id);
    let ghost sb = b@.map_values(|w: Workflow| w.id);
    proof {
        if a_in_b && b_in_a {
            assert forall|x: i64| sa.to_set().contains(x) implies sb.to_set().contains(x) by {
                let i = choose|i: int| 0 <= i < sa.len() && sa[i] == x;
                assert(b_ids@.contains(a@[i].id));
            }
            assert forall|x: i64| sb.to_set().contains(x) implies sa.to_set().contains(x) by {
                let i = choose|i: int| 0 <= i < sb.len() && sb[i] == x;
                assert(a_ids@.contains(b@[i].id));
            }
            assert(sa.to_set() =~= sb.to_set());
        } else if !a_in_b {
            let i = choose|i: int| 0 <= i < a@.len() && !b_ids@.contains(#[trigger] a@[i].id);
            assert(sa[i] == a@[i].id);
            assert(sa.to_set().contains(a@[i].id));
        } else {
            let i = choose|i: int| 0 <= i < b@.len() && !a_ids@.contains(#[trigger] b@[i].id);
            assert(sb[i] == b@[i].id);
            assert(sb.to_set().contains(b@[i].id));
        }
    }
    !(a_in_b && b_in_a)
}


/// What a silent refresh's answer does to the list.
#[derive(Debug, Clone, Copy, PartialEq, Eq, Structural)]
pub enum SilentRefreshOutcome {
    /// The workflow set changed: the rows are rebuilt.
    Rebuild,
    /// The set is the same: the rows only get their newest runs.
    RefreshSummary,
    /// The refresh failed; the flag says whether that is worth reporting (a
    /// "Not modified" answer is not).
    Failed(bool),
}

/// The silent refresh of a repository's workflow set.
pub struct SilentRefresh {
    pub loading: bool,
    pub last_refresh: Option<u64>,
    pub workflows: Vec<Workflow>,
}

impl SilentRefresh {
    /// Asks for a silent refresh at `now`: refused while one is loading or
    /// within thirty seconds of the last; otherwise the time is recorded,
    /// the refresh is marked loading, and it starts.
    pub fn begin(&mut self, now: u64) -> (start: bool)
        ensures
            start == (!old(self).loading && !skips_silent_refresh(old(self).last_refresh, now)),
            start ==> final(self).loading && final(self).last_refresh == Some(now),
            !start ==> final(self).loading == old(self).loading && final(self).last_refresh
                == old(self).last_refresh,
            final(self).workflows == old(self).workflows,
    {
        if self.loading {
            return false;
        }
        if should_skip_silent_workflow_refresh(self.last_refresh, now) {
            return false;
        }
        self.last_refresh = Some(now);
        self.loading = true;
        true
    }

    /// The refresh answered. It is no longer loading; a task that ended
    /// without an answer clears the last refresh time so the next one is
    /// not held back. A workflow set that differs from the known one
    /// replaces it and rebuilds the rows.
    pub fn finish(&mut self, message: WorkflowLoadMessage) -> (r: SilentRefreshOutcome)
        ensures
            !final(self).loading,
            match message {
                WorkflowLoadMessage::Dropped => {
                    &&& final(self).last_refresh is None
                    &&& r == SilentRefreshOutcome::Failed(true)
                    &&& final(self).workflows == old(self).workflows
                },
                WorkflowLoadMessage::Finished(res) => {
                    &&& final(self).last_refresh == old(self).last_refresh
                    &&& match res {
                        Ok(list) => if workflow_sets_differ(old(self).workflows@, list@) {
                            r == SilentRefreshOutcome::Rebuild && final(self).workflows@ == list@
                        } else {
                            r == SilentRefreshOutcome::RefreshSummary && final(self).workflows
                                == old(self).workflows
                        },
                        Err(e) => r == SilentRefreshOutcome::Failed(
                            !(e matches GitHubError::ApiError(m) && crate::chars::find_from(
                                m@,
                                "Not modified"@,
                                0,
                            ) is Some),
                        ) && final(self).workflows == old(self).workflows,
                    }
                },
            },
    {
        self.loading = false;
        let result = match message {
            WorkflowLoadMessage::Finished(result) => result,
            WorkflowLoadMessage::Dropped => {
                self.last_refresh = None;
                return SilentRefreshOutcome::Failed(true);
            },
        };
        match result {
            Ok(list) => {
                if workflows_differ(self.workflows.as_slice(), list.as_slice()) {
                    self.workflows = list;
                    SilentRefreshOutcome::Rebuild
                } else {
                    SilentRefreshOutcome::RefreshSummary
                }
            },
            Err(e) => SilentRefreshOutcome::Failed(!e.is_not_modified()),
        }
    }
}

/// The newest run of each workflow in a repository's runs, which come
/// newest first: the first run of each workflow, in order; runs without a
/// workflow are passed over.
pub open spec fn latest_per_workflow(runs: Seq<WorkflowRun>) -> Seq<(i64, WorkflowRun)>
    decreases runs.len(),
{
    if runs.len() == 0 {
        seq![]
    } else {
        let r = latest_per_workflow(runs.drop_last());
        match runs.last().workflow_id {
            Some(w) => if r.map_values(|p: (i64, WorkflowRun)| p.0).contains(w) {
                r
            } else {
                r.push((w, runs.last()))
            },
            None => r,
        }
    }
}

/// The ids and views of a list of (workflow, run) pairs.
pub open spec fn latest_views(v: Seq<(i64, WorkflowRun)>) -> Seq<(i64, crate::models::RunView)> {
    v.map_values(|p: (i64, WorkflowRun)| (p.0, p.1@))
}

/// The newest run of each workflow.
pub fn latest_runs_per_workflow(runs: &[WorkflowRun]) -> (r: Vec<(i64, WorkflowRun)>)
    ensures
        latest_views(r@) == latest_views(latest_per_workflow(runs@)),
{
    let mut seen: HashSet<i64> = HashSet::new();
    let mut out: Vec<(i64, WorkflowRun)> = Vec::new();
    let mut i: usize = 0;
    while i < runs.len()
        invariant
            i <= runs.len(),
            latest_views(out@) == latest_views(latest_per_workflow(runs@.take(i as int))),
            seen@ == latest_per_workflow(runs@.take(i as int)).map_values(|p: (i64, WorkflowRun)| p.0).to_set(),
        decreases runs.len() - i,
    {
        let ghost prev = latest_per_workflow(runs@.take(i as int));
        proof {
            assert(runs@.take(i + 1).drop_last() =~= runs@.take(i as int));
            assert(runs@.take(i + 1).last() == runs@[i as int]);
        }
        match runs[i].workflow_id {
            Some(w) => {
                let fresh = seen.insert(w);
                if fresh {
                    let ghost before = out@;
                    out.push((w, runs[i].duplicate()));
                    proof {
                        assert(!prev.map_values(|p: (i64, WorkflowRun)| p.0).contains(w));
                        assert(latest_views(out@) =~= latest_views(before).push((w, runs@[i as int]@)));
                        assert(latest_views(prev.push((w, runs@[i as int]))) =~= latest_views(prev).push((w, runs@[i as int]@)));
                        assert(prev.push((w, runs@[i as int])).map_values(|p: (i64, WorkflowRun)| p.0) =~= prev.map_values(|p: (i64, WorkflowRun)| p.0).push(w));
                        prev.map_values(|p: (i64, WorkflowRun)| p.0).lemma_push_to_set_commute(w);
                    }
                } else {
                    proof {
                        assert(prev.map_values(|p: (i64, WorkflowRun)| p.0).to_set().contains(w));
                    }
                }
            },
            None => {},
        }
        i = i + 1;
    }
    assert(runs@.take(runs.len() as int) =~= runs@);
    out
}

/// Whether a row stays marked live after the newest-runs summary: it was
/// live (an older run may still be going) or its newest run is.
pub fn row_stays_live(was_active: bool, latest: &WorkflowRun) -> (r: bool)
    ensures
        r == (was_active || run_is_active(*latest)),
{
    was_active || latest.is_active()
}

/// Keeps in `ids` only the workflows still listed.
pub fn retain_visible_ids(ids: &mut HashSet<i64>, visible: &HashSet<i64>)
    ensures
        final(ids)@ == old(ids)@.intersect(visible@),
{
    let mut kept: HashSet<i64> = HashSet::new();
    crate::run_load::insert_kept_ids(&mut kept, ids, visible);
    assert(Set::<i64>::empty().union(old(ids)@.intersect(visible@)) =~= old(ids)@.intersect(visible@));
    *ids = kept;
}

/// The ids of the listed workflows.
pub fn visible_workflow_ids(workflows: &[Workflow]) -> (r: HashSet<i64>)
    ensures
        r@ == workflows@.map_values(|w: Workflow| w.id).to_set(),
{
    workflow_ids(workflows)
}

/// Keeps in the digest store only the workflows still listed.
pub fn retain_visible_digests(store: &mut RunDigestStore, workflows: &[Workflow])
    ensures
        store_view(final(store)@) == store_view(old(store)@).restrict(
            workflows@.map_values(|w: Workflow| w.id).to_set(),
        ),
{
    let ghost s0 = store_view(store@);
    let ghost ids = workflows@.map_values(|w: Workflow| w.id);
    let mut kept: RunDigestStore = std::collections::HashMap::new();
    let mut i: usize = 0;
    while i < workflows.len()
        invariant
            i <= workflows.len(),
            s0 == store_view(store@),
            ids == workflows@.map_values(|w: Workflow| w.id),
            store_view(kept@) == s0.restrict(ids.take(i as int).to_set()),
        decreases workflows.len() - i,
    {
        let id = workflows[i].id;
        let ghost before = kept@;
        match store.get(&id) {
            Some(m) => {
                kept.insert(id, m.clone());
                proof {
                    assert(store_view(kept@) =~= store_view(before).insert(id, digest_map_view(m@)));
                }
            },
            None => {},
        }
        proof {
            assert(ids.take(i + 1) =~= ids.take(i as int).push(id));
            ids.take(i as int).lemma_push_to_set_commute(id);
            assert(store_view(kept@) =~= s0.restrict(ids.take(i + 1).to_set()));
        }
        i = i + 1;
    }
    assert(ids.take(workflows.len() as int) =~= ids);
    *store = kept;
}

} // verus!
