//! What the main window remembers of the signed-in account, and what
//! signing out leaves of it; the favorite button's write decision; the text
//! of a pending crash report.
use vstd::prelude::*;
use std::collections::{HashMap, HashSet};
use crate::models::Repo;
use crate::selection::{RepoActionsState, WorkflowStatusCounts, SelectionAction, determine_selection_action};
use crate::text::{push_str, string_of};

verus! {

/// The account's state the main window holds between loads.
pub struct WindowSession {
    /// The repository open in the detail pane, if any.
    pub selected_repo_id: Option<i64>,
    /// The repositories of the sidebar.
    pub repos: Vec<Repo>,
    /// The favorite repositories, by id.
    pub favorites: HashSet<i64>,
    /// Whether each repository's Actions can be run, by repository id.
    pub actions_states: HashMap<i64, RepoActionsState>,
    /// When each repository's status was last asked for (milliseconds).
    pub actions_checked_at: HashMap<i64, u64>,
    /// Each repository's live and failed workflow counts.
    pub workflow_counts: HashMap<i64, WorkflowStatusCounts>,
    /// The API rate limit last reported, as (remaining, limit).
    pub rate_limit: Option<(u64, u64)>,
    /// Whether the window shows the built-in demo data.
    pub demo_mode: bool,
    /// Whether a repository selection is being handled.
    pub handling_selection: bool,
}

/// A session that holds nothing of any account.
pub open spec fn is_signed_out(s: WindowSession) -> bool {
    &&& s.selected_repo_id is None
    &&& s.repos@.len() == 0
    &&& s.favorites@ == Set::<i64>::empty()
    &&& s.actions_states@ == Map::<i64, RepoActionsState>::empty()
    &&& s.actions_checked_at@ == Map::<i64, u64>::empty()
    &&& s.workflow_counts@ == Map::<i64, WorkflowStatusCounts>::empty()
    &&& s.rate_limit is None
    &&& !s.demo_mode
    &&& !s.handling_selection
}

impl WindowSession {
    /// A window before anyone signed in.
    pub fn new(demo_mode: bool) -> (s: WindowSession)
        ensures
            s.demo_mode == demo_mode,
            s.selected_repo_id is None,
            s.repos@.len() == 0,
            s.favorites@ == Set::<i64>::empty(),
            s.actions_states@ == Map::<i64, RepoActionsState>::empty(),
            s.actions_checked_at@ == Map::<i64, u64>::empty(),
            s.workflow_counts@ == Map::<i64, WorkflowStatusCounts>::empty(),
            s.rate_limit is None,
            !s.handling_selection,
    {
        WindowSession {
            selected_repo_id: None,
            repos: Vec::new(),
            favorites: HashSet::new(),
            actions_states: HashMap::new(),
            actions_checked_at: HashMap::new(),
            workflow_counts: HashMap::new(),
            rate_limit: None,
            demo_mode,
            handling_selection: false,
        }
    }

    /// Signing out (or leaving demo mode): the selection, the repositories,
    /// the favorites, every per-repository state, the rate limit and demo mode
    /// are all forgotten.
    pub fn sign_out(&mut self)
        ensures
            is_signed_out(*final(self)),
    {
        self.demo_mode = false;
        self.handling_selection = false;
        self.selected_repo_id = None;
        self.repos = Vec::new();
        self.favorites = HashSet::new();
        self.actions_states = HashMap::new();
        self.actions_checked_at = HashMap::new();
        self.workflow_counts = HashMap::new();
        self.rate_limit = None;
    }
}

/// What toggling the favorite button writes.
#[derive(Debug, Clone, Copy, PartialEq, Eq, Structural)]
pub enum FavoriteWrite {
    /// The button already agrees with the stored state: nothing.
    Nothing,
    /// Store the repository as a favorite.
    Add,
    /// Drop the repository from the favorites.
    Remove,
}

/// The write a toggle of the favorite button asks for: none when the button
/// now agrees with what is stored (as when the state is being reverted),
/// otherwise the change to the button's new state.
pub fn favorite_write(stored: bool, button_active: bool) -> (w: FavoriteWrite)
    ensures
        stored == button_active ==> w == FavoriteWrite::Nothing,
        stored != button_active && button_active ==> w == FavoriteWrite::Add,
        stored != button_active && !button_active ==> w == FavoriteWrite::Remove,
{
    if stored == button_active {
        FavoriteWrite::Nothing
    } else if button_active {
        FavoriteWrite::Add
    } else {
        FavoriteWrite::Remove
    }
}

/// The style classes of the favorite button: added, then removed. A
/// favorite is highlighted; any other repository's button is flat.
pub fn favorite_button_classes(is_favorite: bool) -> (r: (&'static str, &'static str))
    ensures
        is_favorite ==> r.0@ == "suggested-action"@ && r.1@ == "flat"@,
        !is_favorite ==> r.0@ == "flat"@ && r.1@ == "suggested-action"@,
{
    if is_favorite {
        ("suggested-action", "flat")
    } else {
        ("flat", "suggested-action")
    }
}

/// The text a pending crash report shows: the report itself, or where it
/// lies when it cannot be read.
pub fn crash_report_text(content: Option<String>, report_path: &str) -> (out: String)
    ensures
        content matches Some(c) ==> out@ == c@,
        content is None ==> out@ == "Crash report file:"@ + "\n"@ + report_path@,
{
    match content {
        Some(c) => c,
        None => {
            let mut out = string_of("Crash report file:");
            push_str(&mut out, "\n");
            push_str(&mut out, report_path);
            out
        },
    }
}

/// What handling a repository selection does besides recording it.
#[derive(Debug, Clone, Copy, PartialEq, Eq, Structural)]
pub enum SelectionEffect {
    /// Remember the repository, start its background refresh, show its
    /// detail pane.
    Show { repo_id: i64 },
    /// Forget the stored selection, stop the background refresh, show the
    /// placeholder.
    Placeholder,
}

/// Whether a listed repository has this id.
pub open spec fn lists_repo(repos: Seq<Repo>, id: i64) -> bool {
    exists|i: int| 0 <= i < repos.len() && #[trigger] repos[i].id == id
}

impl WindowSession {
    /// Records the selection of a repository (or of none) and says what
    /// follows; the rest of the session is left as it was.
    pub fn handle_repo_selection(&mut self, repo_id: Option<i64>) -> (e: SelectionEffect)
        ensures
            final(self).selected_repo_id == repo_id,
            !final(self).handling_selection,
            final(self).repos@ == old(self).repos@,
            final(self).favorites@ == old(self).favorites@,
            final(self).demo_mode == old(self).demo_mode,
            match repo_id {
                Some(id) => e == (SelectionEffect::Show { repo_id: id }),
                None => e == SelectionEffect::Placeholder,
            },
    {
        self.handling_selection = true;
        self.selected_repo_id = repo_id;
        let effect = match repo_id {
            Some(id) => SelectionEffect::Show { repo_id: id },
            None => SelectionEffect::Placeholder,
        };
        self.handling_selection = false;
        effect
    }

    /// Whether the repositories list one with this id.
    pub fn has_repo(&self, id: i64) -> (r: bool)
        ensures
            r == lists_repo(self.repos@, id),
    {
        let mut i: usize = 0;
        while i < self.repos.len()
            invariant
                i <= self.repos.len(),
                forall|k: int| 0 <= k < i ==> self.repos@[k].id != id,
            decreases self.repos.len() - i,
        {
            if self.repos[i].id == id {
                return true;
            }
            i = i + 1;
        }
        false
    }

    /// What bringing the detail pane (showing `active_id`) in line with the
    /// selection asks for: nothing while a selection is being handled or
    /// when they agree; otherwise the selection to handle, which is none
    /// when the selected repository is no longer listed.
    pub fn detail_sync(&self, active_id: Option<i64>) -> (r: Option<Option<i64>>)
        ensures
            self.handling_selection ==> r is None,
            !self.handling_selection ==> r == match (self.selected_repo_id, active_id) {
                (Some(sel), Some(active)) => if sel == active {
                    None
                } else if lists_repo(self.repos@, sel) {
                    Some(Some(sel))
                } else {
                    Some(None)
                },
                (Some(sel), None) => if lists_repo(self.repos@, sel) {
                    Some(Some(sel))
                } else {
                    Some(None)
                },
                (None, Some(_)) => Some(None),
                (None, None) => None,
            },
    {
        if self.handling_selection {
            return None;
        }
        match determine_selection_action(self.selected_repo_id, active_id) {
            SelectionAction::Nothing => None,
            SelectionAction::Select(id) => {
                if self.has_repo(id) {
                    Some(Some(id))
                } else {
                    Some(None)
                }
            },
            SelectionAction::Clear => Some(None),
        }
    }
}

/// Whether showing a repository needs a new detail pane: not when the open
/// pane already shows it.
pub fn pane_needs_rebuild(active_pane_repo: Option<i64>, repo_id: i64) -> (r: bool)
    ensures
        r == !(active_pane_repo == Some(repo_id)),
{
    match active_pane_repo {
        Some(id) => id != repo_id,
        None => true,
    }
}

} // verus!
