//! The run filters of the detail pane: which runs count as succeeded, failed
//! or running, and which of them a workflow's list shows.
use vstd::prelude::*;
use crate::models::{WorkflowRun, RunView, view_is_active, status_is, run_views};
use crate::text::opt_str_is_ignore_case;

verus! {

/// How many runs a workflow's list shows at most.
pub const MAX_VISIBLE_RUNS: usize = 10;

/// Which kinds of run the lists show.
#[derive(Debug, Clone, Copy, PartialEq, Eq, Structural)]
pub struct RunFilters {
    pub include_success: bool,
    pub include_failed: bool,
    pub include_running: bool,
}

/// Every kind shown.
pub open spec fn all_runs_filter() -> RunFilters {
    RunFilters { include_success: true, include_failed: true, include_running: true }
}

impl Default for RunFilters {
    fn default() -> (r: Self)
        ensures
            r == all_runs_filter(),
    {
        RunFilters { include_success: true, include_failed: true, include_running: true }
    }
}

/// The bucket a run falls into for filtering.
#[derive(Debug, Clone, Copy, PartialEq, Eq, Structural)]
pub enum RunStatusFilterKind {
    Success,
    Failed,
    Running,
}

/// The filter chip a toggle belongs to.
#[derive(Debug, Clone, Copy, PartialEq, Eq, Structural)]
pub enum FilterKind {
    Success,
    Failed,
    Running,
}

/// A live run is running. Otherwise its conclusion decides (`success` is a
/// success, any other a failure); without one, a `completed` status is a
/// success and any other status a failure; a run with neither is a success.
pub open spec fn run_kind(run: RunView) -> RunStatusFilterKind {
    if view_is_active(run) {
        RunStatusFilterKind::Running
    } else if run.conclusion is Some {
        if status_is(run.conclusion, "success"@) {
            RunStatusFilterKind::Success
        } else {
            RunStatusFilterKind::Failed
        }
    } else if run.status is Some {
        if status_is(run.status, "completed"@) {
            RunStatusFilterKind::Success
        } else {
            RunStatusFilterKind::Failed
        }
    } else {
        RunStatusFilterKind::Success
    }
}

/// Whether the filters show a run.
pub open spec fn shows(filters: RunFilters, run: RunView) -> bool {
    match run_kind(run) {
        RunStatusFilterKind::Success => filters.include_success,
        RunStatusFilterKind::Failed => filters.include_failed,
        RunStatusFilterKind::Running => filters.include_running,
    }
}

/// The runs the filters show, in order.
pub open spec fn matching_runs(runs: Seq<RunView>, filters: RunFilters) -> Seq<RunView>
    decreases runs.len(),
{
    if runs.len() == 0 {
        seq![]
    } else {
        let rest = matching_runs(runs.drop_last(), filters);
        if shows(filters, runs.last()) {
            rest.push(runs.last())
        } else {
            rest
        }
    }
}

/// The bucket of a run.
pub fn classify_run_status(run: &WorkflowRun) -> (k: RunStatusFilterKind)
    ensures
        k == run_kind(run@),
{
    if run.is_active() {
        return RunStatusFilterKind::Running;
    }
    match &run.conclusion {
        Some(_) => {
            if opt_str_is_ignore_case(&run.conclusion, "success") {
                RunStatusFilterKind::Success
            } else {
                RunStatusFilterKind::Failed
            }
        },
        None => match &run.status {
            Some(_) => {
                if opt_str_is_ignore_case(&run.status, "completed") {
                    RunStatusFilterKind::Success
                } else {
                    RunStatusFilterKind::Failed
                }
            },
            None => RunStatusFilterKind::Success,
        },
    }
}

/// Whether the filters show `run`.
pub fn run_matches_filters(run: &WorkflowRun, filters: &RunFilters) -> (r: bool)
    ensures
        r == shows(*filters, run@),
{
    match classify_run_status(run) {
        RunStatusFilterKind::Success => filters.include_success,
        RunStatusFilterKind::Failed => filters.include_failed,
        RunStatusFilterKind::Running => filters.include_running,
    }
}

/// What a workflow's list shows: how many runs pass the filters, and the
/// first ten of them.
pub struct RunDisplaySummary {
    pub filtered_total: usize,
    pub visible_runs: Vec<WorkflowRun>,
}

/// The runs that pass the filters, counted, and the first
/// `MAX_VISIBLE_RUNS` of them, in their order.
pub fn summarize_visible_runs(runs: &[WorkflowRun], filters: &RunFilters) -> (s: RunDisplaySummary)
    ensures
        s.filtered_total == matching_runs(run_views(runs@), *filters).len(),
        run_views(s.visible_runs@) == matching_runs(run_views(runs@), *filters).take(
            if s.filtered_total < MAX_VISIBLE_RUNS { s.filtered_total as int } else { MAX_VISIBLE_RUNS as int },
        ),
{
    let mut filtered_total: usize = 0;
    let mut visible_runs: Vec<WorkflowRun> = Vec::new();
    let mut i: usize = 0;
    while i < runs.len()
        invariant
            i <= runs.len(),
            filtered_total == matching_runs(run_views(runs@.take(i as int)), *filters).len(),
            filtered_total <= i,
            run_views(visible_runs@) == matching_runs(run_views(runs@.take(i as int)), *filters).take(
                if filtered_total < MAX_VISIBLE_RUNS { filtered_total as int } else { MAX_VISIBLE_RUNS as int },
            ),
        decreases runs.len() - i,
    {
        let ghost prefix = run_views(runs@.take(i as int));
        let ghost next = run_views(runs@.take(i + 1));
        proof {
            assert(next.drop_last() =~= prefix);
            assert(next.last() == runs@[i as int]@);
        }
        if run_matches_filters(&runs[i], filters) {
            let ghost m = matching_runs(prefix, *filters);
            assert(matching_runs(next, *filters) == m.push(runs@[i as int]@));
            if visible_runs.len() < MAX_VISIBLE_RUNS {
                let ghost before = visible_runs@;
                visible_runs.push(runs[i].duplicate());
                assert(run_views(visible_runs@) =~= run_views(before).push(runs@[i as int]@));
                assert(m.push(runs@[i as int]@).take(filtered_total + 1) =~= m.take(filtered_total as int).push(runs@[i as int]@));
            } else {
                assert(run_views(visible_runs@).len() == visible_runs@.len());
                assert(filtered_total >= MAX_VISIBLE_RUNS);
                assert(m.push(runs@[i as int]@).take(MAX_VISIBLE_RUNS as int) =~= m.take(MAX_VISIBLE_RUNS as int));
            }
            filtered_total = filtered_total + 1;
        }
        i = i + 1;
    }
    assert(runs@.take(runs.len() as int) == runs@);
    RunDisplaySummary { filtered_total, visible_runs }
}

/// Sets the chip `kind` of `filters` to `active`, leaving the others.
pub fn update_filters(filters: &mut RunFilters, kind: FilterKind, active: bool)
    ensures
        *final(filters) == match kind {
            FilterKind::Success => RunFilters { include_success: active, ..*old(filters) },
            FilterKind::Failed => RunFilters { include_failed: active, ..*old(filters) },
            FilterKind::Running => RunFilters { include_running: active, ..*old(filters) },
        },
{
    match kind {
        FilterKind::Success => filters.include_success = active,
        FilterKind::Failed => filters.include_failed = active,
        FilterKind::Running => filters.include_running = active,
    }
}

/// Every run falls into exactly one bucket, so with every chip on a list
/// shows all runs, and with every chip off it shows none.
pub proof fn lemma_filters_partition(runs: Seq<RunView>)
    ensures
        matching_runs(runs, all_runs_filter()) == runs,
        matching_runs(
            runs,
            RunFilters { include_success: false, include_failed: false, include_running: false },
        ).len() == 0,
    decreases runs.len(),
{
    if runs.len() > 0 {
        lemma_filters_partition(runs.drop_last());
        assert(runs.drop_last().push(runs.last()) =~= runs);
    }
}

/// The runs a list shows pass the filters and come in their original order:
/// they are a subsequence of all runs, so a filter never invents or reorders.
pub proof fn lemma_matching_runs_pass(runs: Seq<RunView>, filters: RunFilters)
    ensures
        matching_runs(runs, filters).len() <= runs.len(),
        forall|i: int| 0 <= i < matching_runs(runs, filters).len() ==> shows(filters, #[trigger] matching_runs(runs, filters)[i]) && runs.contains(matching_runs(runs, filters)[i]),
    decreases runs.len(),
{
    if runs.len() > 0 {
        lemma_matching_runs_pass(runs.drop_last(), filters);
        let rest = matching_runs(runs.drop_last(), filters);
        assert forall|i: int| 0 <= i < matching_runs(runs, filters).len() implies shows(filters, #[trigger] matching_runs(runs, filters)[i]) && runs.contains(matching_runs(runs, filters)[i]) by {
            if i < rest.len() {
                assert(matching_runs(runs, filters)[i] == rest[i]);
                let j = choose|j: int| 0 <= j < runs.drop_last().len() && runs.drop_last()[j] == rest[i];
                assert(runs[j] == rest[i]);
            } else {
                assert(runs[runs.len() - 1] == runs.last());
            }
        }
    }
}

} // verus!
