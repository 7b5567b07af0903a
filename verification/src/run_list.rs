//! The run list of one workflow: which of its placeholders it shows, the runs
//! it last loaded, the rows it renders from them under the current filters,
//! and which runs the user has expanded.
use vstd::prelude::*;
use std::collections::HashSet;
use crate::models::{WorkflowRun, RunView, run_views, view_is_active};
use crate::filters::{RunFilters, matching_runs, summarize_visible_runs, MAX_VISIBLE_RUNS};
use crate::text::{decimal, push_decimal, push_str, string_of, str_eq};

verus! {

broadcast use vstd::std_specs::hash::group_hash_axioms;

/// The page before anything was asked for.
pub const STATE_IDLE: &'static str = "idle";
/// The page while runs load.
pub const STATE_LOADING: &'static str = "loading";
/// The page for a workflow without runs.
pub const STATE_EMPTY: &'static str = "empty";
/// The page when the filters hide every run.
pub const STATE_FILTERED: &'static str = "filtered";
/// The page after a failed load.
pub const STATE_ERROR: &'static str = "error";
/// The page that lists runs.
pub const STATE_CONTENT: &'static str = "content";

/// Which page of the list is showing.
#[derive(Debug, Clone, Copy, PartialEq, Eq, Structural)]
pub enum ListState {
    Idle,
    Loading,
    Empty,
    Filtered,
    Error,
    Content,
}

impl ListState {
    /// The name of the page.
    pub fn name(self) -> (r: &'static str)
        ensures
            r@ == state_name(self),
    {
        match self {
            ListState::Idle => STATE_IDLE,
            ListState::Loading => STATE_LOADING,
            ListState::Empty => STATE_EMPTY,
            ListState::Filtered => STATE_FILTERED,
            ListState::Error => STATE_ERROR,
            ListState::Content => STATE_CONTENT,
        }
    }
}

/// The name of a page.
pub open spec fn state_name(s: ListState) -> Seq<char> {
    match s {
        ListState::Idle => STATE_IDLE@,
        ListState::Loading => STATE_LOADING@,
        ListState::Empty => STATE_EMPTY@,
        ListState::Filtered => STATE_FILTERED@,
        ListState::Error => STATE_ERROR@,
        ListState::Content => STATE_CONTENT@,
    }
}

/// A page that asks for runs to be loaded: the idle page, the error page, or
/// no page at all.
pub open spec fn requires_load(state: Option<Seq<char>>) -> bool {
    match state {
        None => true,
        Some(s) => s == STATE_IDLE@ || s == STATE_ERROR@,
    }
}

/// Whether the page named `state` asks for runs to be loaded.
pub fn state_requires_load(state: Option<&str>) -> (r: bool)
    ensures
        r == requires_load(match state {
            Some(s) => Some(s@),
            None => None,
        }),
{
    match state {
        None => true,
        Some(s) => str_eq(s, STATE_IDLE) || str_eq(s, STATE_ERROR),
    }
}

/// `Showing V of T` when no filter narrows the runs, else
/// `Showing V of F matching filters`.
pub open spec fn counts_text(visible: nat, filtered: nat, overall: nat) -> Seq<char> {
    if filtered == overall {
        "Showing "@ + decimal(visible) + " of "@ + decimal(overall)
    } else {
        "Showing "@ + decimal(visible) + " of "@ + decimal(filtered) + " matching filters"@
    }
}

/// The list's own header: `Recent runs (T)` when every run shows,
/// `Recent runs (showing V of T)` when only the cap hides some, and
/// `Recent runs (showing V of F matching filters)` when the filters do.
pub open spec fn header_text(visible: nat, filtered: nat, overall: nat) -> Seq<char> {
    if filtered == overall || visible == filtered {
        if visible < overall {
            "Recent runs (showing "@ + decimal(visible) + " of "@ + decimal(overall) + ")"@
        } else {
            "Recent runs ("@ + decimal(overall) + ")"@
        }
    } else {
        "Recent runs (showing "@ + decimal(visible) + " of "@ + decimal(filtered)
            + " matching filters)"@
    }
}

/// The short "shown N of M" text of a workflow's sub-header.
pub fn format_runs_counts(visible_count: usize, filtered_total: usize, overall_total: usize) -> (r:
    String)
    ensures
        r@ == counts_text(visible_count as nat, filtered_total as nat, overall_total as nat),
{
    proof {
        reveal_strlit("Showing ");
        reveal_strlit(" of ");
        reveal_strlit(" matching filters");
    }
    let mut s = string_of("Showing ");
    push_decimal(&mut s, visible_count as u64);
    push_str(&mut s, " of ");
    if filtered_total == overall_total {
        push_decimal(&mut s, overall_total as u64);
    } else {
        push_decimal(&mut s, filtered_total as u64);
        push_str(&mut s, " matching filters");
    }
    s
}

/// The header the list shows above its rows.
pub fn format_runs_header(visible_count: usize, filtered_total: usize, overall_total: usize) -> (r:
    String)
    ensures
        r@ == header_text(visible_count as nat, filtered_total as nat, overall_total as nat),
{
    proof {
        reveal_strlit("Recent runs (showing ");
        reveal_strlit("Recent runs (");
        reveal_strlit(" of ");
        reveal_strlit(")");
        reveal_strlit(" matching filters)");
    }
    if filtered_total == overall_total || visible_count == filtered_total {
        if visible_count < overall_total {
            let mut s = string_of("Recent runs (showing ");
            push_decimal(&mut s, visible_count as u64);
            push_str(&mut s, " of ");
            push_decimal(&mut s, overall_total as u64);
            push_str(&mut s, ")");
            s
        } else {
            let mut s = string_of("Recent runs (");
            push_decimal(&mut s, overall_total as u64);
            push_str(&mut s, ")");
            s
        }
    } else {
        let mut s = string_of("Recent runs (showing ");
        push_decimal(&mut s, visible_count as u64);
        push_str(&mut s, " of ");
        push_decimal(&mut s, filtered_total as u64);
        push_str(&mut s, " matching filters)");
        s
    }
}

/// One rendered row: the run, whether its jobs start expanded, and whether
/// it is the first row.
pub struct RunListEntry {
    pub run: WorkflowRun,
    pub expand_jobs: bool,
    pub is_first: bool,
}

/// A row as plain values.
pub type EntryView = (RunView, bool, bool);

/// The views of the rows.
pub open spec fn entry_views(entries: Seq<RunListEntry>) -> Seq<EntryView> {
    entries.map_values(|e: RunListEntry| (e.run@, e.expand_jobs, e.is_first))
}

/// The rows for `runs`: each expanded when its id is in `expanded`, the first
/// marked first.
pub open spec fn rows_for(runs: Seq<RunView>, expanded: Set<i64>) -> Seq<EntryView> {
    Seq::new(runs.len(), |i: int| (runs[i], expanded.contains(runs[i].id), i == 0))
}

/// The state of a workflow's run list.
pub struct RunListModel {
    pub workflow_id: i64,
    pub state: ListState,
    pub last_runs: Vec<WorkflowRun>,
    pub has_loaded: bool,
    pub expanded_runs: HashSet<i64>,
    pub entries: Vec<RunListEntry>,
    /// Whether the counts go to a label in the workflow's sub-header rather
    /// than to the list's own header.
    pub has_counts_label: bool,
    /// The list's own header, when it shows.
    pub header_text: Option<String>,
    /// The sub-header counts, when they show.
    pub counts_text: Option<String>,
    /// What the error page says.
    pub error_detail: Option<String>,
}

/// A run list as plain values.
pub struct ListView {
    pub workflow_id: i64,
    pub state: ListState,
    pub runs: Seq<RunView>,
    pub has_loaded: bool,
    pub expanded: Set<i64>,
    pub entries: Seq<EntryView>,
    pub has_counts_label: bool,
    pub header: Option<Seq<char>>,
    pub counts: Option<Seq<char>>,
    pub error_detail: Option<Seq<char>>,
}

impl View for RunListModel {
    type V = ListView;

    open spec fn view(&self) -> ListView {
        ListView {
            workflow_id: self.workflow_id,
            state: self.state,
            runs: run_views(self.last_runs@),
            has_loaded: self.has_loaded,
            expanded: self.expanded_runs@,
            entries: entry_views(self.entries@),
            has_counts_label: self.has_counts_label,
            header: crate::text::opt_seq(self.header_text),
            counts: crate::text::opt_seq(self.counts_text),
            error_detail: crate::text::opt_seq(self.error_detail),
        }
    }
}

/// A placeholder page: no header, no counts, no rows.
pub open spec fn placeholder(v: ListView, state: ListState) -> ListView {
    ListView { state, header: None, counts: None, entries: seq![], ..v }
}

/// The content page showing the rows of `visible`, counted as `shown` of
/// `filtered` of `overall` runs, with the counts in the sub-header when there
/// is one and in the header otherwise.
pub open spec fn content_page(
    v: ListView,
    shown: nat,
    visible: Seq<RunView>,
    filtered: nat,
    overall: nat,
    expanded: Set<i64>,
) -> ListView {
    ListView {
        state: ListState::Content,
        counts: if v.has_counts_label {
            Some(counts_text(shown, filtered, overall))
        } else {
            v.counts
        },
        header: if v.has_counts_label {
            v.header
        } else {
            Some(header_text(shown, filtered, overall))
        },
        entries: rows_for(visible, expanded),
        expanded,
        ..v
    }
}

/// The cached runs rendered under `filters`: the filtered page when no run
/// matches, else at most ten matching runs with the counts.
pub open spec fn filtered_page(v: ListView, filters: RunFilters, expanded: Set<i64>) -> ListView {
    let m = matching_runs(v.runs, filters);
    let shown = m.take(if m.len() < MAX_VISIBLE_RUNS { m.len() as int } else { MAX_VISIBLE_RUNS as int });
    if shown.len() == 0 {
        placeholder(v, ListState::Filtered)
    } else {
        content_page(v, shown.len(), shown, m.len(), v.runs.len(), expanded)
    }
}

/// What re-applying `filters` to the cached runs shows.
pub open spec fn reapplied(v: ListView, filters: RunFilters, expanded: Set<i64>) -> ListView {
    if !v.has_loaded {
        v
    } else if v.runs.len() == 0 {
        placeholder(v, ListState::Empty)
    } else {
        filtered_page(v, filters, expanded)
    }
}

/// Whether a run has an id other than `id`.
pub open spec fn other_than(id: i64) -> spec_fn(RunView) -> bool {
    |r: RunView| r.id != id
}

/// `run` first, then the cached runs without the one it replaces.
pub open spec fn prepended(run: RunView, runs: Seq<RunView>) -> Seq<RunView> {
    seq![run] + runs.filter(other_than(run.id))
}

/// A copy of a set of run ids.
pub fn copy_ids(s: &HashSet<i64>) -> (r: HashSet<i64>)
    ensures
        r@ == s@,
{
    let mut r: HashSet<i64> = HashSet::new();
    for k in it: s.iter()
        invariant
            it.seq().unref().to_set() == s@,
            it.seq().take(it.seq().len() as int) == it.seq(),
            r@ == it.seq().take(it.index() as int).unref().to_set(),
    {
        let ghost before = it.seq().take(it.index() as int).unref();
        r.insert(*k);
        proof {
            assert(it.seq().take(it.index() + 1).unref() =~= before.push(*k));
            before.lemma_push_to_set_commute(*k);
        }
    }
    r
}

impl RunListModel {
    /// A new list, on the idle page, with nothing loaded.
    pub fn new(workflow_id: i64, has_counts_label: bool) -> (m: RunListModel)
        ensures
            m@ == (ListView {
                workflow_id,
                state: ListState::Idle,
                runs: seq![],
                has_loaded: false,
                expanded: Set::empty(),
                entries: seq![],
                has_counts_label,
                header: None,
                counts: None,
                error_detail: None,
            }),
    {
        let m = RunListModel {
            workflow_id,
            state: ListState::Idle,
            last_runs: Vec::new(),
            has_loaded: false,
            expanded_runs: HashSet::new(),
            entries: Vec::new(),
            has_counts_label,
            header_text: None,
            counts_text: None,
            error_detail: None,
        };
        assert(run_views(m.last_runs@) =~= Seq::<RunView>::empty());
        assert(entry_views(m.entries@) =~= Seq::<EntryView>::empty());
        m
    }

    fn clear_rows(&mut self, state: ListState)
        ensures
            final(self)@ == placeholder(old(self)@, state),
    {
        self.header_text = None;
        self.counts_text = None;
        self.entries = Vec::new();
        self.state = state;
        assert(entry_views(self.entries@) =~= Seq::<EntryView>::empty());
    }

    /// Shows the spinner.
    pub fn show_loading(&mut self)
        ensures
            final(self)@ == placeholder(old(self)@, ListState::Loading),
    {
        self.clear_rows(ListState::Loading);
    }

    /// Shows the page for a workflow without runs.
    pub fn show_empty(&mut self)
        ensures
            final(self)@ == placeholder(old(self)@, ListState::Empty),
    {
        self.clear_rows(ListState::Empty);
    }

    /// Shows the page that says the filters hide every run.
    pub fn show_filtered_placeholder(&mut self)
        ensures
            final(self)@ == placeholder(old(self)@, ListState::Filtered),
    {
        self.clear_rows(ListState::Filtered);
    }

    /// Shows the error page with `detail`; the sub-header counts stay as
    /// they were.
    pub fn show_error(&mut self, detail: String)
        ensures
            final(self)@ == (ListView {
                state: ListState::Error,
                header: None,
                entries: seq![],
                error_detail: Some(detail@),
                ..old(self)@
            }),
    {
        self.header_text = None;
        self.entries = Vec::new();
        self.error_detail = Some(detail);
        self.state = ListState::Error;
        assert(entry_views(self.entries@) =~= Seq::<EntryView>::empty());
    }

    /// Whether the list asks for its runs to be loaded.
    pub fn should_load_runs(&self) -> (r: bool)
        ensures
            r == requires_load(Some(state_name(self.state))),
    {
        state_requires_load(Some(self.state.name()))
    }

    /// Caches `runs` as the workflow's latest.
    pub fn set_runs(&mut self, runs: Vec<WorkflowRun>)
        ensures
            final(self)@ == (ListView { runs: run_views(runs@), has_loaded: true, ..old(self)@ }),
    {
        self.last_runs = runs;
        self.has_loaded = true;
    }

    /// Whether runs were ever cached.
    pub fn has_loaded_runs(&self) -> (r: bool)
        ensures
            r == self@.has_loaded,
    {
        self.has_loaded
    }

    /// Whether any cached run is live.
    pub fn has_active_runs(&self) -> (r: bool)
        ensures
            r == exists|i: int| 0 <= i < self@.runs.len() && view_is_active(#[trigger] self@.runs[i]),
    {
        let mut i: usize = 0;
        while i < self.last_runs.len()
            invariant
                i <= self.last_runs.len(),
                forall|j: int| 0 <= j < i ==> !view_is_active(#[trigger] self@.runs[j]),
            decreases self.last_runs.len() - i,
        {
            if self.last_runs[i].is_active() {
                assert(self@.runs[i as int] == self.last_runs@[i as int]@);
                return true;
            }
            i = i + 1;
        }
        false
    }

    /// Whether the first cached run with id `run_id` is no longer live
    /// (false when no cached run has that id).
    pub fn run_completed(&self, run_id: i64) -> (r: bool)
        ensures
            r == exists|i: int|
                0 <= i < self@.runs.len() && #[trigger] self@.runs[i].id == run_id
                    && !view_is_active(self@.runs[i])
                    && forall|j: int| 0 <= j < i ==> self@.runs[j].id != run_id,
    {
        let mut i: usize = 0;
        while i < self.last_runs.len()
            invariant
                i <= self.last_runs.len(),
                forall|j: int| 0 <= j < i ==> #[trigger] self@.runs[j].id != run_id,
            decreases self.last_runs.len() - i,
        {
            if self.last_runs[i].id == run_id {
                let active = self.last_runs[i].is_active();
                assert(self@.runs[i as int] == self.last_runs@[i as int]@);
                assert(self@.runs[i as int].id == run_id);
                assert(forall|j: int| 0 <= j < i ==> self@.runs[j].id != run_id);
                return !active;
            }
            i = i + 1;
        }
        false
    }

    /// The ids of the runs the user has expanded.
    pub fn expanded_run_ids(&self) -> (r: HashSet<i64>)
        ensures
            r@ == self@.expanded,
    {
        copy_ids(&self.expanded_runs)
    }

    /// Records that the user expanded or collapsed run `run_id`.
    pub fn set_run_expanded(&mut self, run_id: i64, expanded: bool)
        ensures
            final(self)@ == (ListView {
                expanded: if expanded {
                    old(self)@.expanded.insert(run_id)
                } else {
                    old(self)@.expanded.remove(run_id)
                },
                ..old(self)@
            }),
    {
        if expanded {
            self.expanded_runs.insert(run_id);
        } else {
            self.expanded_runs.remove(&run_id);
        }
    }

    fn replace_runs(&mut self, runs: &[WorkflowRun], expanded: &HashSet<i64>)
        ensures
            final(self)@ == (ListView {
                expanded: expanded@,
                entries: rows_for(run_views(runs@), expanded@),
                ..old(self)@
            }),
    {
        self.expanded_runs = copy_ids(expanded);
        let mut entries: Vec<RunListEntry> = Vec::new();
        let mut i: usize = 0;
        while i < runs.len()
            invariant
                i <= runs.len(),
                entry_views(entries@) == rows_for(run_views(runs@), expanded@).take(i as int),
            decreases runs.len() - i,
        {
            let run = &runs[i];
            let ghost before = entries@;
            let entry = RunListEntry {
                run: run.duplicate(),
                expand_jobs: expanded.contains(&run.id),
                is_first: i == 0,
            };
            assert(entry.expand_jobs == expanded@.contains(runs@[i as int].id));
            entries.push(entry);
            assert(run_views(runs@)[i as int] == runs@[i as int]@);
            assert(entry_views(entries@) =~= entry_views(before).push((runs@[i as int]@, expanded@.contains(runs@[i as int].id), i == 0)));
            assert(entry_views(entries@) =~= rows_for(run_views(runs@), expanded@).take(i + 1));
            i = i + 1;
        }
        assert(rows_for(run_views(runs@), expanded@).take(runs.len() as int) =~= rows_for(run_views(runs@), expanded@));
        self.entries = entries;
    }

    /// Shows `runs` as the rows of the content page, with the counts
    /// `visible_count` of `filtered_total` of `overall_total`.
    pub fn show_runs(
        &mut self,
        visible_count: usize,
        filtered_total: usize,
        overall_total: usize,
        runs: &[WorkflowRun],
        expanded_runs: &HashSet<i64>,
    )
        ensures
            final(self)@ == content_page(
                old(self)@,
                visible_count as nat,
                run_views(runs@),
                filtered_total as nat,
                overall_total as nat,
                expanded_runs@,
            ),
    {
        if self.has_counts_label {
            self.counts_text = Some(format_runs_counts(visible_count, filtered_total, overall_total));
        } else {
            self.header_text = Some(format_runs_header(visible_count, filtered_total, overall_total));
        }
        self.replace_runs(runs, expanded_runs);
        self.state = ListState::Content;
    }

    /// Renders the cached runs again under `filters`, keeping the runs in
    /// `expanded_runs` expanded. Does nothing and answers false before any
    /// runs were cached; otherwise shows the empty page, the filtered page,
    /// or at most ten matching runs, and answers true.
    pub fn reapply_filters(&mut self, filters: &RunFilters, expanded_runs: &HashSet<i64>) -> (r:
        bool)
        ensures
            r == old(self)@.has_loaded,
            final(self)@ == reapplied(old(self)@, *filters, expanded_runs@),
    {
        if !self.has_loaded {
            return false;
        }
        if self.last_runs.len() == 0 {
            self.show_empty();
            return true;
        }
        self.show_filtered_runs(filters, expanded_runs);
        true
    }

    /// Renders the cached runs under `filters`, keeping the runs in
    /// `expanded_runs` expanded.
    pub fn show_filtered_runs(&mut self, filters: &RunFilters, expanded_runs: &HashSet<i64>)
        ensures
            final(self)@ == filtered_page(old(self)@, *filters, expanded_runs@),
    {
        let summary = summarize_visible_runs(self.last_runs.as_slice(), filters);
        let overall = self.last_runs.len();
        if summary.visible_runs.len() == 0 {
            assert(run_views(summary.visible_runs@).len() == 0);
            self.show_filtered_placeholder();
        } else {
            assert(run_views(summary.visible_runs@).len() == summary.visible_runs@.len());
            self.show_runs(
                summary.visible_runs.len(),
                summary.filtered_total,
                overall,
                summary.visible_runs.as_slice(),
                expanded_runs,
            );
        }
    }

    /// Puts `run` first among the cached runs, dropping the cached run it
    /// replaces, and renders the list again with the current filters and
    /// expanded runs.
    pub fn prepend_run(&mut self, run: WorkflowRun, filters: &RunFilters)
        ensures
            ({
                let cached = ListView {
                    runs: prepended(run@, old(self)@.runs),
                    has_loaded: true,
                    ..old(self)@
                };
                final(self)@ == reapplied(cached, *filters, old(self)@.expanded)
            }),
    {
        let run_id = run.id;
        let ghost rv = run@;
        let mut merged: Vec<WorkflowRun> = Vec::new();
        merged.push(run);
        let mut i: usize = 0;
        let ghost old_runs = run_views(self.last_runs@);
        while i < self.last_runs.len()
            invariant
                i <= self.last_runs.len(),
                old_runs == run_views(self.last_runs@),
                rv.id == run_id,
                run_views(merged@) == seq![rv] + old_runs.take(i as int).filter(other_than(run_id)),
            decreases self.last_runs.len() - i,
        {
            let ghost before = merged@;
            proof {
                assert(old_runs.take(i + 1).drop_last() =~= old_runs.take(i as int));
                assert(old_runs.take(i + 1).last() == old_runs[i as int]);
            }
            let ghost p = other_than(run_id);
            proof {
                reveal(Seq::filter);
            }
            if self.last_runs[i].id != run_id {
                merged.push(self.last_runs[i].duplicate());
                assert(old_runs[i as int] == self.last_runs@[i as int]@);
                assert(run_views(merged@) =~= run_views(before).push(old_runs[i as int]));
                assert(p(old_runs[i as int]));
                assert(old_runs.take(i + 1).filter(p) == old_runs.take(i as int).filter(p).push(old_runs[i as int]));
                assert(seq![rv] + old_runs.take(i + 1).filter(p) =~= (seq![rv] + old_runs.take(i as int).filter(p)).push(old_runs[i as int]));
            } else {
                assert(old_runs[i as int] == self.last_runs@[i as int]@);
                assert(!p(old_runs[i as int]));
                assert(old_runs.take(i + 1).filter(p) == old_runs.take(i as int).filter(p));
            }
            i = i + 1;
        }
        assert(old_runs.take(self.last_runs.len() as int) =~= old_runs);
        self.set_runs(merged);
        let expanded = self.expanded_run_ids();
        let _ = self.reapply_filters(filters, &expanded);
    }
}


/// Prepending a run keeps one run per id for it: the new run comes first,
/// no other cached run keeps its id, and the list grows by at most one.
pub proof fn lemma_prepend_deduplicates(run: RunView, runs: Seq<RunView>)
    ensures
        prepended(run, runs)[0] == run,
        prepended(run, runs).len() <= runs.len() + 1,
        forall|i: int| 1 <= i < prepended(run, runs).len() ==> #[trigger] prepended(run, runs)[i].id != run.id,
{
    let f = runs.filter(other_than(run.id));
    runs.lemma_filter_len(other_than(run.id));
    assert forall|i: int| 1 <= i < prepended(run, runs).len() implies #[trigger] prepended(run, runs)[i].id != run.id by {
        assert(prepended(run, runs)[i] == f[i - 1]);
        runs.lemma_filter_pred(other_than(run.id), i - 1);
    }
}

} // verus!
