//! The main window's choice of repository: keeping the sidebar selection,
//! the open detail pane and the remembered repository in step, and what the
//! window knows of each repository's Actions.
use vstd::prelude::*;
use std::collections::HashMap;
use crate::models::{Repo, RepoView, RepoPermissions};

verus! {

broadcast use vstd::std_specs::hash::group_hash_axioms;

/// What bringing the detail pane in line with the selection takes.
#[derive(Debug, Clone, Copy, PartialEq, Eq, Structural)]
pub enum SelectionAction {
    Nothing,
    Select(i64),
    Clear,
}

/// The pane already shows the selected repository: nothing. A selected
/// repository the pane does not show: select it. No selection while a pane
/// is open: clear it.
pub fn determine_selection_action(selected_id: Option<i64>, active_id: Option<i64>) -> (r: SelectionAction)
    ensures
        r == match (selected_id, active_id) {
            (Some(sel), Some(active)) => if sel == active {
                SelectionAction::Nothing
            } else {
                SelectionAction::Select(sel)
            },
            (Some(sel), None) => SelectionAction::Select(sel),
            (None, Some(_)) => SelectionAction::Clear,
            (None, None) => SelectionAction::Nothing,
        },
{
    match (selected_id, active_id) {
        (Some(sel), Some(active)) => if sel == active {
            SelectionAction::Nothing
        } else {
            SelectionAction::Select(sel)
        },
        (Some(sel), None) => SelectionAction::Select(sel),
        (None, Some(_)) => SelectionAction::Clear,
        (None, None) => SelectionAction::Nothing,
    }
}

/// Which sidebar row to select and which repository that is.
#[derive(Debug, Clone, Copy, PartialEq, Eq, Structural)]
pub struct SidebarSelectionPlan {
    pub index: Option<u32>,
    pub repo_id: Option<i64>,
}

/// The requested repository when it is visible, else the first visible one,
/// else nothing.
pub fn determine_sidebar_selection_plan(
    requested_repo_id: Option<i64>,
    requested_index: Option<u32>,
    first_visible: Option<(u32, i64)>,
) -> (p: SidebarSelectionPlan)
    ensures
        p == if requested_repo_id is Some && requested_index is Some {
            SidebarSelectionPlan { index: requested_index, repo_id: requested_repo_id }
        } else {
            match first_visible {
                Some((index, id)) => SidebarSelectionPlan { index: Some(index), repo_id: Some(id) },
                None => SidebarSelectionPlan { index: None, repo_id: None },
            }
        },
{
    if let (Some(repo_id), Some(index)) = (requested_repo_id, requested_index) {
        return SidebarSelectionPlan { index: Some(index), repo_id: Some(repo_id) };
    }
    if let Some((index, repo_id)) = first_visible {
        return SidebarSelectionPlan { index: Some(index), repo_id: Some(repo_id) };
    }
    SidebarSelectionPlan { index: None, repo_id: None }
}

/// What activating a sidebar row does.
#[derive(Debug, Clone, Copy, PartialEq, Eq, Structural)]
pub enum RepoActivationAction {
    Nothing,
    SelectOnly,
    HandleSelection,
}

/// Activating another row than the selected one selects it; activating the
/// selected row opens its repository unless the pane shows it already.
pub fn determine_activation_action(
    selected_position: u32,
    activated_position: u32,
    active_detail_repo_id: Option<i64>,
    activated_repo_id: i64,
) -> (r: RepoActivationAction)
    ensures
        r == if selected_position != activated_position {
            RepoActivationAction::SelectOnly
        } else if active_detail_repo_id != Some(activated_repo_id) {
            RepoActivationAction::HandleSelection
        } else {
            RepoActivationAction::Nothing
        },
{
    if selected_position != activated_position {
        return RepoActivationAction::SelectOnly;
    }
    match active_detail_repo_id {
        Some(id) => if id != activated_repo_id {
            RepoActivationAction::HandleSelection
        } else {
            RepoActivationAction::Nothing
        },
        None => RepoActivationAction::HandleSelection,
    }
}

/// Whether a change of the sidebar selection opens (or closes) a
/// repository: not while a selection is already being handled, not for a
/// passing deselection while a pane is open, and only when the selection
/// really changed.
pub fn should_handle_selection_change(
    handling: bool,
    current: Option<i64>,
    new: Option<i64>,
    detail_open: bool,
) -> (r: bool)
    ensures
        r == (!handling && !(new is None && detail_open) && current != new),
{
    if handling {
        return false;
    }
    if new.is_none() && detail_open {
        return false;
    }
    match (current, new) {
        (Some(a), Some(b)) => a != b,
        (None, None) => false,
        _ => true,
    }
}

/// What the window knows of a repository's Actions.
#[derive(Debug, Clone, Copy, PartialEq, Eq, Structural)]
pub enum RepoActionsState {
    Enabled,
    Disabled,
    Unknown,
}

/// Actions are usable with push or admin rights, not with read rights
/// alone, and unknown without permissions.
pub open spec fn actions_state_for(permissions: Option<RepoPermissions>) -> RepoActionsState {
    match permissions {
        Some(p) => if p.push || p.admin {
            RepoActionsState::Enabled
        } else {
            RepoActionsState::Disabled
        },
        None => RepoActionsState::Unknown,
    }
}

/// The Actions state a repository's permissions give.
pub fn determine_actions_state(permissions: Option<&RepoPermissions>) -> (r: RepoActionsState)
    ensures
        r == actions_state_for(match permissions {
            Some(p) => Some(*p),
            None => None,
        }),
{
    match permissions {
        Some(perms) => if perms.push || perms.admin {
            RepoActionsState::Enabled
        } else {
            RepoActionsState::Disabled
        },
        None => RepoActionsState::Unknown,
    }
}

/// The first repository with id `id`, if any.
pub open spec fn repo_with_id(repos: Seq<RepoView>, id: i64) -> Option<RepoView>
    decreases repos.len(),
{
    if repos.len() == 0 {
        None
    } else if repos[0].id == id {
        Some(repos[0])
    } else {
        repo_with_id(repos.drop_first(), id)
    }
}

/// The views of a list of repositories.
pub open spec fn repo_views(repos: Seq<Repo>) -> Seq<RepoView> {
    repos.map_values(|r: Repo| r@)
}

/// The selected repository, whose status is refreshed after the list loads.
pub fn selected_repo_for_status_refresh(repos: &[Repo], selected_repo_id: Option<i64>) -> (r: Option<Repo>)
    ensures
        match selected_repo_id {
            None => r is None,
            Some(id) => match r {
                Some(repo) => repo_with_id(repo_views(repos@), id) == Some(repo@),
                None => repo_with_id(repo_views(repos@), id) is None,
            },
        },
{
    let id = match selected_repo_id {
        Some(id) => id,
        None => return None,
    };
    let mut i: usize = 0;
    assert(repo_views(repos@).subrange(0, repos@.len() as int) =~= repo_views(repos@));
    while i < repos.len()
        invariant
            i <= repos.len(),
            selected_repo_id == Some(id),
            repo_with_id(repo_views(repos@), id) == repo_with_id(repo_views(repos@).subrange(i as int, repos@.len() as int), id),
        decreases repos.len() - i,
    {
        let ghost rest = repo_views(repos@).subrange(i as int, repos@.len() as int);
        assert(rest.drop_first() =~= repo_views(repos@).subrange(i + 1, repos@.len() as int));
        assert(rest[0] == repos@[i as int]@);
        if repos[i].id == id {
            return Some(repos[i].duplicate());
        }
        i = i + 1;
    }
    None
}

/// Which page the sidebar shows: the list while it has rows or while no
/// repository has loaded yet, else the "nothing matches" page.
pub fn sidebar_shows_list(has_rows: bool, has_repos: bool) -> (r: bool)
    ensures
        r == (has_rows || !has_repos),
{
    has_rows || !has_repos
}

/// How long, in milliseconds, a repository's Actions status stays fresh.
pub const REPO_STATUS_TTL_MS: u64 = 300000;

/// Whether a repository's status, checked at `last`, is due again at `now`.
pub open spec fn status_due(last: Option<u64>, now: u64) -> bool {
    match last {
        Some(t) => (if now >= t { now - t } else { 0 }) >= REPO_STATUS_TTL_MS,
        None => true,
    }
}

/// Goes through `ids` in order: each whose status is due is recorded as
/// checked at `now` and listed.
pub open spec fn due_fold(checked: Map<i64, u64>, ids: Seq<i64>, now: u64) -> (Map<i64, u64>, Seq<i64>)
    decreases ids.len(),
{
    if ids.len() == 0 {
        (checked, seq![])
    } else {
        let (m, d) = due_fold(checked, ids.drop_last(), now);
        let id = ids.last();
        if status_due(if m.contains_key(id) { Some(m[id]) } else { None }, now) {
            (m.insert(id, now), d.push(id))
        } else {
            (m, d)
        }
    }
}

/// The ids of the repositories whose status is due, in order; each is
/// recorded as checked at `now`.
pub fn due_status_refreshes(checked: &mut HashMap<i64, u64>, repo_ids: &[i64], now: u64) -> (due: Vec<i64>)
    ensures
        (final(checked)@, due@) == due_fold(old(checked)@, repo_ids@, now),
{
    let mut due: Vec<i64> = Vec::new();
    let mut i: usize = 0;
    let ghost start = checked@;
    while i < repo_ids.len()
        invariant
            i <= repo_ids.len(),
            (checked@, due@) == due_fold(start, repo_ids@.take(i as int), now),
        decreases repo_ids.len() - i,
    {
        let id = repo_ids[i];
        assert(repo_ids@.take(i + 1).drop_last() =~= repo_ids@.take(i as int));
        let recent = match checked.get(&id) {
            Some(t) => {
                let elapsed = if now >= *t {
                    now - *t
                } else {
                    0
                };
                elapsed < REPO_STATUS_TTL_MS
            },
            None => false,
        };
        if !recent {
            checked.insert(id, now);
            due.push(id);
        }
        i = i + 1;
    }
    assert(repo_ids@.take(repo_ids.len() as int) =~= repo_ids@);
    due
}

/// How long the status poller sleeps for an interval of `interval` seconds:
/// not at all, it waits for the setting to change, when the interval is 0.
pub fn refresh_delay_for_interval(interval: u64) -> (r: Option<u64>)
    ensures
        r == if interval > 0 { Some(interval) } else { None::<u64> },
{
    if interval > 0 {
        Some(interval)
    } else {
        None
    }
}


/// How many of a repository's workflows are running and failing, as the
/// sidebar shows them.
#[derive(Debug, Clone, Copy, PartialEq, Eq, Default, Structural)]
pub struct WorkflowStatusCounts {
    pub active: usize,
    pub failed: usize,
}

/// The ids of a list of repositories, as a set.
pub open spec fn repo_id_set(repos: Seq<Repo>) -> Set<i64> {
    repos.map_values(|r: Repo| r.id).to_set()
}

/// Brings the window's per-repository state in line with a freshly loaded
/// repository list: entries of repositories no longer listed go; a listed
/// repository without an Actions state gets the one its permissions give
/// (its first listing counts), and one without counts gets zero counts.
pub fn reconcile_repo_state(
    actions: &mut HashMap<i64, RepoActionsState>,
    checked: &mut HashMap<i64, u64>,
    counts: &mut HashMap<i64, WorkflowStatusCounts>,
    repos: &[Repo],
)
    ensures
        final(actions)@ == Map::new(
            |k: i64| repo_id_set(repos@).contains(k),
            |k: i64|
                if old(actions)@.contains_key(k) {
                    old(actions)@[k]
                } else {
                    actions_state_for(repo_with_id(repo_views(repos@), k).unwrap().permissions)
                },
        ),
        final(checked)@ == old(checked)@.restrict(repo_id_set(repos@)),
        final(counts)@ == Map::new(
            |k: i64| repo_id_set(repos@).contains(k),
            |k: i64|
                if old(counts)@.contains_key(k) {
                    old(counts)@[k]
                } else {
                    WorkflowStatusCounts { active: 0, failed: 0 }
                },
        ),
{
    let ghost a0 = actions@;
    let ghost c0 = checked@;
    let ghost n0 = counts@;
    let ghost ids = repos@.map_values(|r: Repo| r.id);
    let mut new_actions: HashMap<i64, RepoActionsState> = HashMap::new();
    let mut new_checked: HashMap<i64, u64> = HashMap::new();
    let mut new_counts: HashMap<i64, WorkflowStatusCounts> = HashMap::new();
    let mut i: usize = 0;
    while i < repos.len()
        invariant
            i <= repos.len(),
            a0 == actions@,
            c0 == checked@,
            n0 == counts@,
            ids == repos@.map_values(|r: Repo| r.id),
            new_actions@ == Map::new(
                |k: i64| ids.take(i as int).to_set().contains(k),
                |k: i64|
                    if a0.contains_key(k) {
                        a0[k]
                    } else {
                        actions_state_for(repo_with_id(repo_views(repos@), k).unwrap().permissions)
                    },
            ),
            new_checked@ == c0.restrict(ids.take(i as int).to_set()),
            new_counts@ == Map::new(
                |k: i64| ids.take(i as int).to_set().contains(k),
                |k: i64|
                    if n0.contains_key(k) {
                        n0[k]
                    } else {
                        WorkflowStatusCounts { active: 0, failed: 0 }
                    },
            ),
        decreases repos.len() - i,
    {
        let id = repos[i].id;
        proof {
            assert(ids.take(i + 1) =~= ids.take(i as int).push(id));
            ids.take(i as int).lemma_push_to_set_commute(id);
        }
        let fresh = !new_actions.contains_key(&id);
        if fresh {
            proof {
                assert(ids[i as int] == id);
                lemma_first_repo(repos@, i as int);
            }
            let state = match actions.get(&id) {
                Some(s) => *s,
                None => determine_actions_state(repos[i].permissions.as_ref()),
            };
            new_actions.insert(id, state);
            let count = match counts.get(&id) {
                Some(c) => *c,
                None => WorkflowStatusCounts { active: 0, failed: 0 },
            };
            new_counts.insert(id, count);
            match checked.get(&id) {
                Some(t) => {
                    new_checked.insert(id, *t);
                },
                None => {},
            }
        }
        proof {
            assert(new_actions@ =~= Map::new(
                |k: i64| ids.take(i + 1).to_set().contains(k),
                |k: i64|
                    if a0.contains_key(k) {
                        a0[k]
                    } else {
                        actions_state_for(repo_with_id(repo_views(repos@), k).unwrap().permissions)
                    },
            ));
            assert(new_checked@ =~= c0.restrict(ids.take(i + 1).to_set()));
            assert(new_counts@ =~= Map::new(
                |k: i64| ids.take(i + 1).to_set().contains(k),
                |k: i64|
                    if n0.contains_key(k) {
                        n0[k]
                    } else {
                        WorkflowStatusCounts { active: 0, failed: 0 }
                    },
            ));
        }
        i = i + 1;
    }
    assert(ids.take(repos.len() as int) =~= ids);
    *actions = new_actions;
    *checked = new_checked;
    *counts = new_counts;
}

/// The first repository with a given id is the first listing of that id.
proof fn lemma_first_repo(repos: Seq<Repo>, i: int)
    requires
        0 <= i < repos.len(),
        !repos.map_values(|r: Repo| r.id).take(i).to_set().contains(repos[i].id),
    ensures
        repo_with_id(repo_views(repos), repos[i].id) == Some(repos[i]@),
{
    let ids = repos.map_values(|r: Repo| r.id);
    assert forall|j: int| 0 <= j < i implies repos[j].id != repos[i].id by {
        if repos[j].id == repos[i].id {
            assert(ids.take(i)[j] == repos[i].id);
            assert(ids.take(i).contains(repos[i].id));
        }
    }
    lemma_first_repo_from(repos, 0, i);
    assert(repo_views(repos).subrange(0, repos.len() as int) =~= repo_views(repos));
}

proof fn lemma_first_repo_from(repos: Seq<Repo>, from: int, i: int)
    requires
        0 <= from <= i < repos.len(),
        forall|j: int| from <= j < i ==> repos[j].id != repos[i].id,
    ensures
        repo_with_id(repo_views(repos).subrange(from, repos.len() as int), repos[i].id) == Some(repos[i]@),
    decreases i - from,
{
    let rest = repo_views(repos).subrange(from, repos.len() as int);
    assert(rest[0] == repos[from]@);
    if from < i {
        assert(rest.drop_first() =~= repo_views(repos).subrange(from + 1, repos.len() as int));
        lemma_first_repo_from(repos, from + 1, i);
    }
}

} // verus!
