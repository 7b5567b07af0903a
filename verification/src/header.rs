//! The header of a repository's pane: the "N workflows · updated …" line,
//! the auto-refresh note, and the per-status counters, computed from the
//! newest known run of each workflow.
use vstd::prelude::*;
use std::collections::{HashMap, HashSet};
use crate::models::{WorkflowRun, RunView};
use crate::filters::{RunStatusFilterKind, run_kind, classify_run_status};
use crate::text::{decimal, push_decimal, string_of, push_str};

verus! {

broadcast use vstd::std_specs::hash::group_hash_axioms;

/// The counter a run is counted under.
#[derive(Debug, Clone, Copy, PartialEq, Eq, Structural)]
pub enum StatusGroup {
    Success,
    Running,
    Failed,
}

/// The counter of a run: the bucket the status chips filter it by, so that
/// counts and filtering never disagree.
pub open spec fn group_of(run: RunView) -> StatusGroup {
    match run_kind(run) {
        RunStatusFilterKind::Success => StatusGroup::Success,
        RunStatusFilterKind::Running => StatusGroup::Running,
        RunStatusFilterKind::Failed => StatusGroup::Failed,
    }
}

/// The counter a run is counted under.
pub fn classify_run(run: &WorkflowRun) -> (g: StatusGroup)
    ensures
        g == group_of(run@),
{
    match classify_run_status(run) {
        RunStatusFilterKind::Success => StatusGroup::Success,
        RunStatusFilterKind::Running => StatusGroup::Running,
        RunStatusFilterKind::Failed => StatusGroup::Failed,
    }
}

/// How many workflows' newest runs are counted under `g`.
pub open spec fn group_count(m: Map<i64, RunView>, g: StatusGroup) -> nat {
    m.dom().filter(|k: i64| group_of(m[k]) == g).len()
}

/// The newest runs as plain values.
pub open spec fn latest_view(m: Map<i64, WorkflowRun>) -> Map<i64, RunView> {
    m.map_values(|r: WorkflowRun| r@)
}

/// `n workflows` (`1 workflow` for one).
pub open spec fn count_text(count: nat) -> Seq<char> {
    if count == 1 {
        "1 workflow"@
    } else {
        decimal(count) + " workflows"@
    }
}

/// How long ago the list was refreshed: `Just now` under a minute, then
/// whole minutes, then whole hours.
pub open spec fn ago_text(elapsed: nat) -> Seq<char> {
    if elapsed < 60 {
        "Just now"@
    } else if elapsed < 3600 {
        decimal(elapsed / 60) + "m ago"@
    } else {
        decimal(elapsed / 3600) + "h ago"@
    }
}

/// The header's subline: the workflow count, then when the list was last
/// refreshed (`elapsed` seconds ago), or that it has not been yet.
pub open spec fn subtitle(count: nat, elapsed: Option<u64>) -> Seq<char> {
    count_text(count) + " \u{B7} "@ + match elapsed {
        Some(e) => "Updated "@ + ago_text(e as nat),
        None => "Not updated yet"@,
    }
}

/// How the subline reads the age of the list: under a minute as `Just now`;
/// then as `<n>m ago` for the whole minutes `n` it has been (at most 59);
/// from an hour on as `<n>h ago` for the whole hours `n`. A list never
/// refreshed reads `Not updated yet`.
pub proof fn lemma_subtitle_age_law(count: nat, elapsed: Option<u64>)
    ensures
        elapsed is None ==> subtitle(count, elapsed) == count_text(count) + " \u{B7} "@ + "Not updated yet"@,
        (elapsed matches Some(e) && e < 60) ==> subtitle(count, elapsed) == count_text(count)
            + " \u{B7} "@ + "Updated "@ + "Just now"@,
        (elapsed matches Some(e) && 60 <= e < 3600) ==> exists|n: nat|
            1 <= n < 60 && n * 60 <= elapsed->0 < n * 60 + 60 && #[trigger] subtitle(count, elapsed)
                == count_text(count) + " \u{B7} "@ + "Updated "@ + decimal(n) + "m ago"@,
        (elapsed matches Some(e) && 3600 <= e) ==> exists|n: nat|
            1 <= n && n * 3600 <= elapsed->0 < n * 3600 + 3600 && #[trigger] subtitle(count, elapsed)
                == count_text(count) + " \u{B7} "@ + "Updated "@ + decimal(n) + "h ago"@,
{
    match elapsed {
        Some(e) => {
            if 60 <= e < 3600 {
                let n = (e / 60) as nat;
                assert(n * 60 <= e < n * 60 + 60);
                assert(subtitle(count, elapsed) =~= count_text(count) + " \u{B7} "@ + "Updated "@
                    + decimal(n) + "m ago"@);
            } else if 3600 <= e {
                let n = (e / 3600) as nat;
                assert(n * 3600 <= e < n * 3600 + 3600);
                assert(subtitle(count, elapsed) =~= count_text(count) + " \u{B7} "@ + "Updated "@
                    + decimal(n) + "h ago"@);
            } else {
                assert(subtitle(count, elapsed) =~= count_text(count) + " \u{B7} "@ + "Updated "@
                    + "Just now"@);
            }
        },
        None => {},
    }
}

/// The header's subline.
pub fn subtitle_text(count: usize, elapsed_secs: Option<u64>) -> (r: String)
    ensures
        r@ == subtitle(count as nat, elapsed_secs),
{
    let mut s = if count == 1 {
        string_of("1 workflow")
    } else {
        let mut c = String::new();
        push_decimal(&mut c, count as u64);
        push_str(&mut c, " workflows");
        c
    };
    push_str(&mut s, " \u{B7} ");
    match elapsed_secs {
        Some(e) => {
            push_str(&mut s, "Updated ");
            if e < 60 {
                push_str(&mut s, "Just now");
            } else if e < 3600 {
                push_decimal(&mut s, e / 60);
                push_str(&mut s, "m ago");
            } else {
                push_decimal(&mut s, e / 3600);
                push_str(&mut s, "h ago");
            }
        },
        None => {
            push_str(&mut s, "Not updated yet");
        },
    }
    s
}

/// The auto-refresh note under the runs.
pub open spec fn footer(seconds: u64) -> Seq<char> {
    if seconds == 0 {
        "Auto-refresh is disabled."@
    } else {
        "Data refreshes automatically every "@ + decimal(seconds as nat) + " seconds."@
    }
}

/// The auto-refresh note for an interval in seconds.
pub fn footer_text(seconds: u64) -> (r: String)
    ensures
        r@ == footer(seconds),
{
    if seconds == 0 {
        string_of("Auto-refresh is disabled.")
    } else {
        let mut s = string_of("Data refreshes automatically every ");
        push_decimal(&mut s, seconds);
        push_str(&mut s, " seconds.");
        s
    }
}

proof fn lemma_filter_len_matches_set(s: Seq<i64>, p: spec_fn(i64) -> bool)
    requires
        s.no_duplicates(),
    ensures
        s.filter(p).len() == s.to_set().filter(p).len(),
        s.to_set().finite(),
    decreases s.len(),
{
    reveal(Seq::filter);
    if s.len() == 0 {
        assert(s.to_set() =~= Set::<i64>::empty());
        assert(s.to_set().filter(p) =~= Set::<i64>::empty());
    } else {
        let t = s.drop_last();
        let x = s.last();
        assert(t.no_duplicates());
        lemma_filter_len_matches_set(t, p);
        assert(s =~= t.push(x));
        t.lemma_push_to_set_commute(x);
        assert(!t.contains(x)) by {
            if t.contains(x) {
                let i = choose|i: int| 0 <= i < t.len() && t[i] == x;
                assert(s[i] == s[s.len() - 1]);
            }
        }
        assert(!t.to_set().contains(x));
        if p(x) {
            assert(s.to_set().filter(p) =~= t.to_set().filter(p).insert(x));
        } else {
            assert(s.to_set().filter(p) =~= t.to_set().filter(p));
        }
    }
}

/// What the header knows: the newest run of each workflow, how many
/// workflows there are, and when (in seconds of a monotonic clock) the list
/// was last refreshed.
pub struct HeaderState {
    pub latest_runs: HashMap<i64, WorkflowRun>,
    pub workflow_count: usize,
    pub last_refresh: Option<u64>,
}

impl HeaderState {
    /// A header with nothing known yet.
    pub fn new() -> (h: HeaderState)
        ensures
            latest_view(h.latest_runs@) == Map::<i64, RunView>::empty(),
            h.workflow_count == 0,
            h.last_refresh is None,
    {
        let h = HeaderState { latest_runs: HashMap::new(), workflow_count: 0, last_refresh: None };
        assert(latest_view(h.latest_runs@) =~= Map::<i64, RunView>::empty());
        h
    }

    /// The workflow list now holds `count` workflows.
    pub fn set_workflow_count(&mut self, count: usize)
        ensures
            final(self).workflow_count == count,
            final(self).latest_runs == old(self).latest_runs,
            final(self).last_refresh == old(self).last_refresh,
    {
        self.workflow_count = count;
    }

    /// The list was refreshed at `now`.
    pub fn note_refreshed(&mut self, now: u64)
        ensures
            final(self).last_refresh == Some(now),
            final(self).latest_runs == old(self).latest_runs,
            final(self).workflow_count == old(self).workflow_count,
    {
        self.last_refresh = Some(now);
    }

    /// The subline at `now`.
    pub fn render_subtitle(&self, now: u64) -> (r: String)
        ensures
            r@ == subtitle(
                self.workflow_count as nat,
                match self.last_refresh {
                    Some(t) => Some(if now >= t { (now - t) as u64 } else { 0 }),
                    None => None,
                },
            ),
    {
        let elapsed = match self.last_refresh {
            Some(t) => Some(if now >= t {
                now - t
            } else {
                0
            }),
            None => None,
        };
        subtitle_text(self.workflow_count, elapsed)
    }

    /// Records the newest run of a workflow (none: it has no runs).
    pub fn record_latest_run(&mut self, workflow_id: i64, run: Option<&WorkflowRun>)
        ensures
            latest_view(final(self).latest_runs@) == match run {
                Some(r) => latest_view(old(self).latest_runs@).insert(workflow_id, r@),
                None => latest_view(old(self).latest_runs@).remove(workflow_id),
            },
            final(self).workflow_count == old(self).workflow_count,
            final(self).last_refresh == old(self).last_refresh,
    {
        let ghost before = self.latest_runs@;
        match run {
            Some(r) => {
                self.latest_runs.insert(workflow_id, r.duplicate());
                assert(latest_view(self.latest_runs@) =~= latest_view(before).insert(workflow_id, r@));
            },
            None => {
                self.latest_runs.remove(&workflow_id);
                assert(latest_view(self.latest_runs@) =~= latest_view(before).remove(workflow_id));
            },
        }
    }

    /// The newest known run of a workflow.
    pub fn latest_run(&self, workflow_id: i64) -> (r: Option<WorkflowRun>)
        ensures
            match r {
                Some(x) => latest_view(self.latest_runs@).contains_key(workflow_id) && x@
                    == latest_view(self.latest_runs@)[workflow_id],
                None => !latest_view(self.latest_runs@).contains_key(workflow_id),
            },
    {
        match self.latest_runs.get(&workflow_id) {
            Some(r) => Some(r.duplicate()),
            None => None,
        }
    }

    /// Forgets the workflows not in `ids`.
    pub fn retain_workflows(&mut self, ids: &HashSet<i64>)
        ensures
            latest_view(final(self).latest_runs@) == latest_view(old(self).latest_runs@).restrict(ids@),
            final(self).workflow_count == old(self).workflow_count,
            final(self).last_refresh == old(self).last_refresh,
    {
        let ghost before = latest_view(self.latest_runs@);
        let mut kept: HashMap<i64, WorkflowRun> = HashMap::new();
        for k in it: self.latest_runs.keys()
            invariant
                it.seq().unref().to_set() == self.latest_runs@.dom(),
                it.seq().take(it.seq().len() as int) == it.seq(),
                before == latest_view(self.latest_runs@),
                latest_view(kept@) == before.restrict(it.seq().take(it.index() as int).unref().to_set().intersect(ids@)),
        {
            let id = *k;
            let ghost seen = it.seq().take(it.index() as int).unref();
            proof {
                assert(it.seq().unref().to_set().contains(id)) by {
                    assert(it.seq().unref()[it.index() as int] == id);
                }
            }
            let ghost kept_before = latest_view(kept@);
            if ids.contains(&id) {
                match self.latest_runs.get(&id) {
                    Some(r) => {
                        let d = r.duplicate();
                        kept.insert(id, d);
                        assert(before.contains_key(id) && before[id] == d@);
                        assert(latest_view(kept@) =~= kept_before.insert(id, before[id]));
                    },
                    None => {},
                }
            }
            proof {
                assert(it.seq().take(it.index() + 1).unref() =~= seen.push(id));
                seen.lemma_push_to_set_commute(id);
                assert(latest_view(kept@) =~= before.restrict(seen.push(id).to_set().intersect(ids@)));
            }
        }
        assert(latest_view(kept@) =~= before.restrict(ids@));
        self.latest_runs = kept;
    }

    /// The counters: successes, runs going, failures.
    pub fn refresh_counts(&self) -> (r: (usize, usize, usize))
        ensures
            r.0 == group_count(latest_view(self.latest_runs@), StatusGroup::Success),
            r.1 == group_count(latest_view(self.latest_runs@), StatusGroup::Running),
            r.2 == group_count(latest_view(self.latest_runs@), StatusGroup::Failed),
    {
        let ghost m = latest_view(self.latest_runs@);
        let ghost ps = |k: i64| group_of(m[k]) == StatusGroup::Success;
        let ghost pr = |k: i64| group_of(m[k]) == StatusGroup::Running;
        let ghost pf = |k: i64| group_of(m[k]) == StatusGroup::Failed;
        let keys = keys_of(&self.latest_runs);
        let mut success: usize = 0;
        let mut running: usize = 0;
        let mut failed: usize = 0;
        let mut i: usize = 0;
        while i < keys.len()
            invariant
                i <= keys.len(),
                keys@.to_set() == self.latest_runs@.dom(),
                keys@.len() == self.latest_runs@.dom().len(),
                m == latest_view(self.latest_runs@),
                ps == (|k: i64| group_of(m[k]) == StatusGroup::Success),
                pr == (|k: i64| group_of(m[k]) == StatusGroup::Running),
                pf == (|k: i64| group_of(m[k]) == StatusGroup::Failed),
                success == keys@.take(i as int).filter(ps).len(),
                running == keys@.take(i as int).filter(pr).len(),
                failed == keys@.take(i as int).filter(pf).len(),
                success + running + failed == i,
            decreases keys.len() - i,
        {
            let id = keys[i];
            proof {
                reveal(Seq::filter);
                assert(keys@.take(i + 1).drop_last() =~= keys@.take(i as int));
                assert(keys@.take(i + 1).last() == id);
                assert(keys@.to_set().contains(id));
            }
            match self.latest_runs.get(&id) {
                Some(r) => {
                    match classify_run(r) {
                        StatusGroup::Success => {
                            success = success + 1;
                        },
                        StatusGroup::Running => {
                            running = running + 1;
                        },
                        StatusGroup::Failed => {
                            failed = failed + 1;
                        },
                    }
                },
                None => {},
            }
            i = i + 1;
        }
        proof {
            assert(keys@.take(keys.len() as int) =~= keys@);
            keys@.lemma_no_dup_set_cardinality();
            lemma_filter_len_matches_set(keys@, ps);
            lemma_filter_len_matches_set(keys@, pr);
            lemma_filter_len_matches_set(keys@, pf);
            assert(m.dom() =~= self.latest_runs@.dom());
        }
        (success, running, failed)
    }
}

/// The keys of a map of newest runs.
fn keys_of(map: &HashMap<i64, WorkflowRun>) -> (v: Vec<i64>)
    ensures
        v@.to_set() == map@.dom(),
        v@.len() == map@.dom().len(),
{
    let mut v: Vec<i64> = Vec::new();
    for k in it: map.keys()
        invariant
            it.seq().unref().to_set() == map@.dom(),
            it.seq().len() == map@.dom().len(),
            it.seq().take(it.seq().len() as int) == it.seq(),
            v@ == it.seq().take(it.index() as int).unref(),
    {
        let ghost before = v@;
        v.push(*k);
        proof {
            assert(it.seq().take(it.index() + 1).unref() =~= before.push(*k));
        }
    }
    v
}

/// Every newest run is counted under exactly one counter: the three
/// counters add up to the number of workflows with a known run.
pub proof fn lemma_counts_cover_every_workflow(m: Map<i64, RunView>)
    requires
        m.dom().finite(),
    ensures
        group_count(m, StatusGroup::Success) + group_count(m, StatusGroup::Running) + group_count(
            m,
            StatusGroup::Failed,
        ) == m.dom().len(),
{
    let ps = |k: i64| group_of(m[k]) == StatusGroup::Success;
    let pr = |k: i64| group_of(m[k]) == StatusGroup::Running;
    let pf = |k: i64| group_of(m[k]) == StatusGroup::Failed;
    let a = m.dom().filter(ps);
    let b = m.dom().filter(pr);
    let c = m.dom().filter(pf);
    vstd::set_lib::lemma_set_disjoint_lens(a, b);
    assert(a.disjoint(b));
    assert((a + b).disjoint(c));
    vstd::set_lib::lemma_set_disjoint_lens(a + b, c);
    assert(a + b + c =~= m.dom());
}

} // verus!
