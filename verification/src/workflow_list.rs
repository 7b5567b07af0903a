//! Rebuilding a repository's workflow list: which rows open again, which of
//! their runs stay expanded, and the texts of the detail pane's status page.
use vstd::prelude::*;
use std::collections::{HashMap, HashSet};
use crate::models::{Workflow, Repo, RepoView};
use crate::run_list::{copy_ids, RunListModel, reapplied};
use crate::filters::RunFilters;
use crate::text::push_int_decimal;
use crate::text::int_decimal;
use crate::text::{push_str, push_decimal, string_of, decimal};

verus! {

broadcast use vstd::std_specs::hash::group_hash_axioms;

/// Whether a jobs panel, known as `(run, workflow, still expanded on
/// screen)`, belongs to the workflow and is open.
pub open spec fn panel_open_for(workflow_id: i64) -> spec_fn((i64, i64, bool)) -> bool {
    |c: (i64, i64, bool)| c.1 == workflow_id && c.2
}

/// The run of a jobs panel.
pub open spec fn panel_run() -> spec_fn((i64, i64, bool)) -> i64 {
    |c: (i64, i64, bool)| c.0
}

/// The runs whose jobs panels of a workflow are open, in the order the
/// panels are known.
pub open spec fn context_runs(contexts: Seq<(i64, i64, bool)>, workflow_id: i64) -> Seq<i64> {
    contexts.filter(panel_open_for(workflow_id)).map_values(panel_run())
}

/// The runs of a workflow whose jobs panels are open on screen, in the
/// order the panels are known.
pub fn current_job_context_run_ids(contexts: &[(i64, i64, bool)], workflow_id: i64) -> (r: Vec<i64>)
    ensures
        r@ == context_runs(contexts@, workflow_id),
{
    let ghost p = panel_open_for(workflow_id);
    let mut out: Vec<i64> = Vec::new();
    let mut i: usize = 0;
    while i < contexts.len()
        invariant
            i <= contexts.len(),
            p == panel_open_for(workflow_id),
            out@ == contexts@.take(i as int).filter(p).map_values(panel_run()),
        decreases contexts.len() - i,
    {
        proof {
            reveal(Seq::filter);
            assert(contexts@.take(i + 1).drop_last() =~= contexts@.take(i as int));
        }
        let (run_id, wid, open) = contexts[i];
        if wid == workflow_id && open {
            out.push(run_id);
            assert(out@ =~= contexts@.take(i + 1).filter(p).map_values(panel_run()));
        } else {
            assert(out@ =~= contexts@.take(i + 1).filter(p).map_values(panel_run()));
        }
        i = i + 1;
    }
    assert(contexts@.take(contexts.len() as int) =~= contexts@);
    out
}

/// How a workflow row is built again.
pub struct RowSettings {
    pub workflow_id: i64,
    /// Whether the row was open before and opens again.
    pub should_expand: bool,
    /// The runs whose jobs stay expanded once the row's runs load.
    pub initial_expanded_run_ids: HashSet<i64>,
    /// Whether it is the first row (which has no top separator).
    pub is_first: bool,
}

/// The runs a rebuilt row keeps expanded: those expanded before the
/// rebuild, else those whose jobs panels are still open.
pub open spec fn kept_runs(
    workflow_id: i64,
    expanded_runs: Map<i64, Set<i64>>,
    contexts: Seq<(i64, i64, bool)>,
) -> Set<i64> {
    if expanded_runs.contains_key(workflow_id) {
        expanded_runs[workflow_id]
    } else {
        context_runs(contexts, workflow_id).to_set()
    }
}

/// The views of a map from workflow to run ids.
pub open spec fn runs_map_view(m: Map<i64, HashSet<i64>>) -> Map<i64, Set<i64>> {
    m.map_values(|s: HashSet<i64>| s@)
}

fn id_set(v: &Vec<i64>) -> (r: HashSet<i64>)
    ensures
        r@ == v@.to_set(),
{
    let mut r: HashSet<i64> = HashSet::new();
    let mut i: usize = 0;
    while i < v.len()
        invariant
            i <= v.len(),
            r@ == v@.take(i as int).to_set(),
        decreases v.len() - i,
    {
        r.insert(v[i]);
        proof {
            assert(v@.take(i + 1) =~= v@.take(i as int).push(v@[i as int]));
            v@.take(i as int).lemma_push_to_set_commute(v@[i as int]);
        }
        i = i + 1;
    }
    assert(v@.take(v.len() as int) =~= v@);
    r
}

/// The settings of each row of a rebuilt workflow list, in the order of
/// `workflows`: a row opens again when it was open, keeps the runs it had
/// expanded (or, failing that, those whose jobs panels are still open), and
/// only the first row is first.
pub fn workflow_row_settings(
    workflows: &[Workflow],
    expanded_workflows: &HashSet<i64>,
    expanded_runs: &HashMap<i64, HashSet<i64>>,
    contexts: &[(i64, i64, bool)],
) -> (r: Vec<RowSettings>)
    ensures
        r.len() == workflows.len(),
        forall|i: int| #![trigger r@[i]] 0 <= i < r.len() ==> {
            &&& r@[i].workflow_id == workflows@[i].id
            &&& r@[i].should_expand == expanded_workflows@.contains(workflows@[i].id)
            &&& r@[i].initial_expanded_run_ids@ == kept_runs(
                workflows@[i].id,
                runs_map_view(expanded_runs@),
                contexts@,
            )
            &&& r@[i].is_first == (i == 0)
        },
{
    let mut out: Vec<RowSettings> = Vec::new();
    let mut i: usize = 0;
    while i < workflows.len()
        invariant
            i <= workflows.len(),
            out.len() == i,
            forall|k: int| #![trigger out@[k]] 0 <= k < i ==> {
                &&& out@[k].workflow_id == workflows@[k].id
                &&& out@[k].should_expand == expanded_workflows@.contains(workflows@[k].id)
                &&& out@[k].initial_expanded_run_ids@ == kept_runs(
                    workflows@[k].id,
                    runs_map_view(expanded_runs@),
                    contexts@,
                )
                &&& out@[k].is_first == (k == 0)
            },
        decreases workflows.len() - i,
    {
        let id = workflows[i].id;
        let kept = match expanded_runs.get(&id) {
            Some(set) => {
                let k = copy_ids(set);
                proof {
                    assert(runs_map_view(expanded_runs@).contains_key(id));
                    assert(runs_map_view(expanded_runs@)[id] == expanded_runs@[id]@);
                }
                k
            },
            None => {
                let v = current_job_context_run_ids(contexts, id);
                proof {
                    assert(!runs_map_view(expanded_runs@).contains_key(id));
                }
                id_set(&v)
            },
        };
        assert(kept@ == kept_runs(id, runs_map_view(expanded_runs@), contexts@));
        let settings = RowSettings {
            workflow_id: id,
            should_expand: expanded_workflows.contains(&id),
            initial_expanded_run_ids: kept,
            is_first: i == 0,
        };
        let ghost before = out@;
        out.push(settings);
        proof {
            assert forall|k: int| 0 <= k < i implies out@[k] == before[k] by {}
        }
        i = i + 1;
    }
    out
}

// ---------------------------------------------------------------------------
// The detail pane's status page.
// ---------------------------------------------------------------------------

/// What the detail pane's status page shows.
pub struct PageContent {
    pub title: String,
    pub description: String,
    pub icon: &'static str,
}

/// The status page for a repository, or the invitation to pick one: a
/// private repository wears the read-only emblem, a public one the remote
/// folder, and the description names the repository.
pub open spec fn status_page_of(repo: Option<RepoView>) -> (Seq<char>, Seq<char>, Seq<char>) {
    match repo {
        Some(r) => (
            r.name,
            r.full_name + "\n"@ + "Workflows and runs will load in the detail pane."@,
            if r.is_private {
                "emblem-readonly-symbolic"@
            } else {
                "folder-remote-symbolic"@
            },
        ),
        None => (
            "Select a repository"@,
            "Choose a repository from the sidebar to browse its workflows and runs here."@,
            "system-search-symbolic"@,
        ),
    }
}

/// The status page of the detail pane for the selected repository, if any.
pub fn status_page_content(repo: Option<&Repo>) -> (p: PageContent)
    ensures
        (p.title@, p.description@, p.icon@) == status_page_of(match repo {
            Some(r) => Some(r@),
            None => None,
        }),
{
    match repo {
        Some(r) => {
            let mut description = string_of(r.full_name.as_str());
            push_str(&mut description, "\n");
            push_str(&mut description, "Workflows and runs will load in the detail pane.");
            PageContent {
                title: string_of(r.name.as_str()),
                description,
                icon: if r.is_private {
                    "emblem-readonly-symbolic"
                } else {
                    "folder-remote-symbolic"
                },
            }
        },
        None => PageContent {
            title: string_of("Select a repository"),
            description: string_of(
                "Choose a repository from the sidebar to browse its workflows and runs here.",
            ),
            icon: "system-search-symbolic",
        },
    }
}

/// The status page of a repository whose Actions are disabled.
pub fn actions_disabled_content(repo: &Repo) -> (p: PageContent)
    ensures
        p.title@ == repo@.name,
        p.description@ == "GitHub Actions is disabled for this repository. Enable Actions to view workflows and runs."@,
        p.icon@ == "emblem-unreadable-symbolic"@,
{
    PageContent {
        title: string_of(repo.name.as_str()),
        description: string_of(
            "GitHub Actions is disabled for this repository. Enable Actions to view workflows and runs.",
        ),
        icon: "emblem-unreadable-symbolic",
    }
}

/// The count texts of the status filter chips: successful, running and
/// failed runs, in decimal.
pub fn chip_count_texts(success: usize, running: usize, failed: usize) -> (r: (String, String, String))
    ensures
        r.0@ == decimal(success as nat),
        r.1@ == decimal(running as nat),
        r.2@ == decimal(failed as nat),
{
    let mut a = String::new();
    push_decimal(&mut a, success as u64);
    let mut b = String::new();
    push_decimal(&mut b, running as u64);
    let mut c = String::new();
    push_decimal(&mut c, failed as u64);
    (a, b, c)
}

// ---------------------------------------------------------------------------
// New filters on an open repository.
// ---------------------------------------------------------------------------

/// The runs kept expanded when a workflow's list is filtered again: those
/// expanded in the list, else those whose jobs panels are open.
pub open spec fn refilter_kept(expanded: Set<i64>, context_ids: Seq<i64>) -> Set<i64> {
    if expanded.len() == 0 {
        context_ids.to_set()
    } else {
        expanded
    }
}

/// Applies new status filters to one workflow's run list: the list is
/// redrawn from its cached runs, keeping `refilter_kept` expanded. Returns
/// those runs, and whether the workflow must load its runs instead: only
/// when it is open and had nothing cached to redraw.
pub fn refilter_workflow(
    list: &mut RunListModel,
    filters: &RunFilters,
    context_run_ids: &Vec<i64>,
    expander_expanded: bool,
) -> (r: (bool, HashSet<i64>))
    ensures
        r.1@ == refilter_kept(old(list)@.expanded, context_run_ids@),
        final(list)@ == reapplied(old(list)@, *filters, r.1@),
        r.0 == (expander_expanded && !old(list)@.has_loaded),
{
    let expanded = list.expanded_run_ids();
    let kept = if expanded.len() == 0 {
        id_set(context_run_ids)
    } else {
        expanded
    };
    let re_applied = list.reapply_filters(filters, &kept);
    (expander_expanded && !re_applied, kept)
}

/// The name a workflow's load goes by when its row carries none:
/// `<owner>/<repo> • Workflow <id>`.
pub fn workflow_fallback_label(owner: &str, repo: &str, workflow_id: i64) -> (out: String)
    ensures
        out@ == owner@ + "/"@ + repo@ + " • Workflow "@ + int_decimal(workflow_id as int),
{
    let mut out = string_of(owner);
    push_str(&mut out, "/");
    push_str(&mut out, repo);
    push_str(&mut out, " • Workflow ");
    push_int_decimal(&mut out, workflow_id);
    out
}

/// Whether a jobs panel, known as `(run, workflow)`, belongs to a listed
/// workflow.
pub open spec fn panel_listed(ids: Set<i64>) -> spec_fn((i64, i64)) -> bool {
    |c: (i64, i64)| ids.contains(c.1)
}

/// The jobs panels a rebuilt workflow list keeps: exactly those of the
/// workflows still listed, in the order they were known.
pub fn retain_job_contexts(contexts: &[(i64, i64)], ids: &HashSet<i64>) -> (r: Vec<(i64, i64)>)
    ensures
        r@ == contexts@.filter(panel_listed(ids@)),
{
    let ghost p = panel_listed(ids@);
    let mut out: Vec<(i64, i64)> = Vec::new();
    let mut i: usize = 0;
    while i < contexts.len()
        invariant
            i <= contexts.len(),
            p == panel_listed(ids@),
            out@ == contexts@.take(i as int).filter(p),
        decreases contexts.len() - i,
    {
        proof {
            reveal(Seq::filter);
            assert(contexts@.take(i + 1).drop_last() =~= contexts@.take(i as int));
        }
        let c = contexts[i];
        if ids.contains(&c.1) {
            out.push(c);
            assert(out@ =~= contexts@.take(i + 1).filter(p));
        } else {
            assert(out@ =~= contexts@.take(i + 1).filter(p));
        }
        i = i + 1;
    }
    assert(contexts@.take(contexts.len() as int) =~= contexts@);
    out
}

} // verus!
