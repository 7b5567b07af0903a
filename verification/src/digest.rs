//! Run digests: what the list last saw of each run of a workflow, so that a
//! refresh can tell whether anything changed and which runs have just
//! completed (and so deserve a desktop notification, once).
use vstd::prelude::*;
use std::collections::HashMap;
use crate::models::WorkflowRun;
use crate::text::{opt_seq, opt_clone, opt_str_eq, eq_ignore_ascii_case, int_decimal, push_str, push_int_decimal, string_of};

verus! {

broadcast use vstd::std_specs::hash::group_hash_axioms;

/// What the list remembers of one run.
#[derive(Clone, PartialEq, Eq, Debug)]
pub struct RunDigest {
    pub id: i64,
    pub status: Option<String>,
    pub conclusion: Option<String>,
    pub updated_at: Option<String>,
    /// The conclusion a notification was last shown for.
    pub notified_conclusion: Option<String>,
}

/// A digest as plain values.
pub struct DigestView {
    pub id: i64,
    pub status: Option<Seq<char>>,
    pub conclusion: Option<Seq<char>>,
    pub updated_at: Option<Seq<char>>,
    pub notified: Option<Seq<char>>,
}

impl View for RunDigest {
    type V = DigestView;

    open spec fn view(&self) -> DigestView {
        DigestView {
            id: self.id,
            status: opt_seq(self.status),
            conclusion: opt_seq(self.conclusion),
            updated_at: opt_seq(self.updated_at),
            notified: opt_seq(self.notified_conclusion),
        }
    }
}

/// The digests of one workflow's runs, by run id.
pub type RunDigestMap = HashMap<i64, RunDigest>;

/// The digests of every workflow, by workflow id.
pub type RunDigestStore = HashMap<i64, RunDigestMap>;

/// A notification to show: title, status and conclusion of the run.
pub type NotificationRequest = (String, String, Option<String>);

/// A notification as plain values.
pub type NotificationView = (Seq<char>, Seq<char>, Option<Seq<char>>);

/// The view of a digest map.
pub open spec fn digest_map_view(m: Map<i64, RunDigest>) -> Map<i64, DigestView> {
    m.map_values(|d: RunDigest| d@)
}

/// The view of a digest store.
pub open spec fn store_view(s: Map<i64, RunDigestMap>) -> Map<i64, Map<i64, DigestView>> {
    s.map_values(|m: RunDigestMap| digest_map_view(m@))
}

/// The views of a list of notifications.
pub open spec fn notification_views(v: Seq<NotificationRequest>) -> Seq<NotificationView> {
    v.map_values(|n: NotificationRequest| (n.0@, n.1@, opt_seq(n.2)))
}

/// Whether a status reads `completed`, ignoring ASCII case.
pub open spec fn is_completed(status: Option<Seq<char>>) -> bool {
    status matches Some(s) && eq_ignore_ascii_case(s, "completed"@)
}

/// The digest of one run, with nothing notified yet.
pub open spec fn digest_entry(run: WorkflowRun) -> DigestView {
    DigestView {
        id: run.id,
        status: opt_seq(run.status),
        conclusion: opt_seq(run.conclusion),
        updated_at: opt_seq(run.updated_at),
        notified: None,
    }
}

/// The digests of `runs`, by id; of two runs with one id the later counts.
pub open spec fn runs_digest(runs: Seq<WorkflowRun>) -> Map<i64, DigestView>
    decreases runs.len(),
{
    if runs.len() == 0 {
        Map::empty()
    } else {
        runs_digest(runs.drop_last()).insert(runs.last().id, digest_entry(runs.last()))
    }
}

/// The ids of `runs`.
pub open spec fn run_ids(runs: Seq<WorkflowRun>) -> Set<i64>
    decreases runs.len(),
{
    if runs.len() == 0 {
        Set::empty()
    } else {
        run_ids(runs.drop_last()).insert(runs.last().id)
    }
}

/// `fresh` with the notified conclusion of each run carried over from `prev`.
pub open spec fn carry_notified(
    prev: Map<i64, DigestView>,
    fresh: Map<i64, DigestView>,
) -> Map<i64, DigestView> {
    Map::new(
        |k: i64| fresh.contains_key(k),
        |k: i64|
            if prev.contains_key(k) {
                DigestView { notified: prev[k].notified, ..fresh[k] }
            } else {
                fresh[k]
            },
    )
}

/// `d` with each completed run of `runs` marked as notified for its conclusion.
pub open spec fn mark_notified(d: Map<i64, DigestView>, runs: Seq<WorkflowRun>) -> Map<
    i64,
    DigestView,
>
    decreases runs.len(),
{
    if runs.len() == 0 {
        d
    } else {
        let r = runs.last();
        let m = mark_notified(d, runs.drop_last());
        if m.contains_key(r.id) && is_completed(opt_seq(r.status)) {
            m.insert(r.id, DigestView { notified: opt_seq(r.conclusion), ..m[r.id] })
        } else {
            m
        }
    }
}

/// The title of a run's notification: its display title, its name, or its
/// number (else its id), followed by the branch in brackets when there is one.
pub open spec fn notification_title(run: WorkflowRun) -> Seq<char> {
    let base = match opt_seq(run.display_title) {
        Some(t) => t,
        None => match opt_seq(run.name) {
            Some(n) => n,
            None => match run.run_number {
                Some(num) => "Run #"@ + int_decimal(num as int),
                None => "Run "@ + int_decimal(run.id as int),
            },
        },
    };
    match opt_seq(run.head_branch) {
        Some(b) => if b.len() > 0 {
            base + " ("@ + b + ")"@
        } else {
            base
        },
        None => base,
    }
}

/// The notification a run earns against the previous digests: it must be
/// completed now and known before; it earns none when its conclusion was
/// already notified, and otherwise one when it was not completed before or
/// its conclusion changed.
pub open spec fn notification_for(prev: Map<i64, DigestView>, run: WorkflowRun) -> Option<
    NotificationView,
> {
    if !is_completed(opt_seq(run.status)) || !prev.contains_key(run.id) {
        None
    } else {
        let prior = prev[run.id];
        let prev_completed = is_completed(prior.status);
        let conclusion_changed = prior.conclusion != opt_seq(run.conclusion);
        if prev_completed && prior.notified is Some && prior.notified == opt_seq(run.conclusion) {
            None
        } else if !prev_completed || conclusion_changed {
            Some((notification_title(run), opt_seq(run.status).unwrap(), opt_seq(run.conclusion)))
        } else {
            None
        }
    }
}

/// The notifications `runs` earn, in the order of the runs.
pub open spec fn notifications(prev: Map<i64, DigestView>, runs: Seq<WorkflowRun>) -> Seq<
    NotificationView,
>
    decreases runs.len(),
{
    if runs.len() == 0 {
        seq![]
    } else {
        let rest = notifications(prev, runs.drop_last());
        match notification_for(prev, runs.last()) {
            Some(n) => rest.push(n),
            None => rest,
        }
    }
}

/// The digests a refresh of workflow `wid` with `runs` computes against the
/// store `s`: fresh digests that keep what was notified before.
pub open spec fn merged_digest(s: Map<i64, Map<i64, DigestView>>, wid: i64, runs: Seq<WorkflowRun>) -> Map<i64, DigestView> {
    if s.contains_key(wid) {
        carry_notified(s[wid], runs_digest(runs))
    } else {
        runs_digest(runs)
    }
}

/// Whether a refresh changes what the store holds for the workflow.
pub open spec fn digest_changed(s: Map<i64, Map<i64, DigestView>>, wid: i64, runs: Seq<WorkflowRun>) -> bool {
    !(s.contains_key(wid) && s[wid] == merged_digest(s, wid, runs))
}

/// The notifications a refresh asks for: only on a change, against digests
/// that existed before, and only when there is at least one.
pub open spec fn refresh_notifications(s: Map<i64, Map<i64, DigestView>>, wid: i64, runs: Seq<WorkflowRun>) -> Option<Seq<NotificationView>> {
    if digest_changed(s, wid, runs) && s.contains_key(wid) && notifications(s[wid], runs).len() > 0 {
        Some(notifications(s[wid], runs))
    } else {
        None
    }
}

/// The store after a refresh: unchanged when nothing changed; else the merged
/// digests, with the completed runs marked as notified when notifications
/// were asked for.
pub open spec fn refreshed_store(s: Map<i64, Map<i64, DigestView>>, wid: i64, runs: Seq<WorkflowRun>) -> Map<i64, Map<i64, DigestView>> {
    if !digest_changed(s, wid, runs) {
        s
    } else if refresh_notifications(s, wid, runs) is Some {
        s.insert(wid, mark_notified(merged_digest(s, wid, runs), runs))
    } else {
        s.insert(wid, merged_digest(s, wid, runs))
    }
}

impl RunDigest {
    /// A copy of this digest.
    pub fn duplicate(&self) -> (r: RunDigest)
        ensures
            r@ == self@,
    {
        RunDigest {
            id: self.id,
            status: opt_clone(&self.status),
            conclusion: opt_clone(&self.conclusion),
            updated_at: opt_clone(&self.updated_at),
            notified_conclusion: opt_clone(&self.notified_conclusion),
        }
    }

    /// Whether two digests hold the same values.
    pub fn same_as(&self, other: &RunDigest) -> (r: bool)
        ensures
            r == (self@ == other@),
    {
        self.id == other.id && opt_str_eq(&self.status, &other.status) && opt_str_eq(
            &self.conclusion,
            &other.conclusion,
        ) && opt_str_eq(&self.updated_at, &other.updated_at) && opt_str_eq(
            &self.notified_conclusion,
            &other.notified_conclusion,
        )
    }
}

proof fn lemma_insert_view(m: Map<i64, RunDigest>, k: i64, d: RunDigest)
    ensures
        digest_map_view(m.insert(k, d)) == digest_map_view(m).insert(k, d@),
{
    assert(digest_map_view(m.insert(k, d)) =~= digest_map_view(m).insert(k, d@));
}

pub proof fn lemma_runs_digest_dom(runs: Seq<WorkflowRun>)
    ensures
        runs_digest(runs).dom() == run_ids(runs),
        run_ids(runs).finite(),
    decreases runs.len(),
{
    if runs.len() > 0 {
        lemma_runs_digest_dom(runs.drop_last());
    }
}

fn digest_of(run: &WorkflowRun) -> (d: RunDigest)
    ensures
        d@ == digest_entry(*run),
{
    RunDigest {
        id: run.id,
        status: opt_clone(&run.status),
        conclusion: opt_clone(&run.conclusion),
        updated_at: opt_clone(&run.updated_at),
        notified_conclusion: None,
    }
}

/// The digests of `runs`, by run id. Of two runs with one id the later one
/// counts, so the digest does not depend on the order of runs with distinct
/// ids.
pub fn digest_runs(runs: &[WorkflowRun]) -> (m: RunDigestMap)
    ensures
        digest_map_view(m@) == runs_digest(runs@),
{
    let mut m: RunDigestMap = HashMap::new();
    let mut i: usize = 0;
    assert(digest_map_view(m@) =~= runs_digest(runs@.take(0)));
    while i < runs.len()
        invariant
            i <= runs.len(),
            digest_map_view(m@) == runs_digest(runs@.take(i as int)),
        decreases runs.len() - i,
    {
        let d = digest_of(&runs[i]);
        proof {
            lemma_insert_view(m@, runs[i as int].id, d);
            assert(runs@.take(i + 1).drop_last() == runs@.take(i as int));
        }
        m.insert(runs[i].id, d);
        i = i + 1;
    }
    assert(runs@.take(runs.len() as int) == runs@);
    m
}

/// Whether a status reads `completed`, ignoring ASCII case.
fn is_completed_status(status: Option<&String>) -> (r: bool)
    ensures
        r == is_completed(match status {
            Some(s) => Some(s@),
            None => None,
        }),
{
    match status {
        Some(s) => crate::text::str_eq_ignore_ascii_case(s.as_str(), "completed"),
        None => false,
    }
}

/// The title of a run's desktop notification.
fn build_run_notification_title(run: &WorkflowRun) -> (r: String)
    ensures
        r@ == notification_title(*run),
{
    let mut base = match &run.display_title {
        Some(t) => string_of(t.as_str()),
        None => match &run.name {
            Some(n) => string_of(n.as_str()),
            None => match run.run_number {
                Some(num) => {
                    let mut s = string_of("Run #");
                    push_int_decimal(&mut s, num);
                    s
                },
                None => {
                    let mut s = string_of("Run ");
                    push_int_decimal(&mut s, run.id);
                    s
                },
            },
        },
    };
    proof {
        reveal_strlit("Run #");
        reveal_strlit("Run ");
    }
    if let Some(branch) = &run.head_branch {
        if !branch.as_str().is_empty() {
            push_str(&mut base, " (");
            push_str(&mut base, branch.as_str());
            push_str(&mut base, ")");
            proof {
                reveal_strlit(" (");
                reveal_strlit(")");
            }
        }
    }
    base
}

/// The notifications that `runs` earn against the digests `previous`: one
/// for each run that is completed now and was known before, unless its
/// conclusion was already notified, when it was not completed before or its
/// conclusion changed. Each names the run, its status and its conclusion.
pub fn collect_completed_notifications(previous: &RunDigestMap, runs: &[WorkflowRun]) -> (out: Vec<
    NotificationRequest,
>)
    ensures
        notification_views(out@) == notifications(digest_map_view(previous@), runs@),
{
    let ghost prev = digest_map_view(previous@);
    let mut out: Vec<NotificationRequest> = Vec::new();
    let mut i: usize = 0;
    while i < runs.len()
        invariant
            i <= runs.len(),
            prev == digest_map_view(previous@),
            notification_views(out@) == notifications(prev, runs@.take(i as int)),
        decreases runs.len() - i,
    {
        let run = &runs[i];
        proof {
            assert(runs@.take(i + 1).drop_last() == runs@.take(i as int));
            assert(runs@.take(i + 1).last() == *run);
        }
        let ghost expected = notification_for(prev, *run);
        if is_completed_status(run.status.as_ref()) {
            match previous.get(&run.id) {
                Some(prior) => {
                    let prev_completed = is_completed_status(prior.status.as_ref());
                    let conclusion_changed = !opt_str_eq(&prior.conclusion, &run.conclusion);
                    let already = prev_completed && prior.notified_conclusion.is_some()
                        && opt_str_eq(&prior.notified_conclusion, &run.conclusion);
                    if !already && (!prev_completed || conclusion_changed) {
                        let title = build_run_notification_title(run);
                        let status = match &run.status {
                            Some(s) => string_of(s.as_str()),
                            None => string_of("completed"),
                        };
                        let conclusion = opt_clone(&run.conclusion);
                        let ghost before = out@;
                        out.push((title, status, conclusion));
                        proof {
                            assert(notification_views(out@) =~= notification_views(before).push(
                                expected.unwrap(),
                            ));
                        }
                    } else {
                        assert(expected is None);
                    }
                },
                None => {},
            }
        }
        i = i + 1;
    }
    assert(runs@.take(runs.len() as int) == runs@);
    out
}


/// `fresh` with the notified conclusion carried over from `prev` for the
/// runs of `s`, one run at a time.
pub open spec fn carry_prefix(
    prev: Map<i64, DigestView>,
    fresh: Map<i64, DigestView>,
    s: Seq<WorkflowRun>,
) -> Map<i64, DigestView>
    decreases s.len(),
{
    if s.len() == 0 {
        fresh
    } else {
        let m = carry_prefix(prev, fresh, s.drop_last());
        let k = s.last().id;
        if prev.contains_key(k) && m.contains_key(k) {
            m.insert(k, DigestView { notified: prev[k].notified, ..m[k] })
        } else {
            m
        }
    }
}

proof fn lemma_carry_prefix(prev: Map<i64, DigestView>, fresh: Map<i64, DigestView>, s: Seq<WorkflowRun>)
    ensures
        carry_prefix(prev, fresh, s) == Map::new(
            |k: i64| fresh.contains_key(k),
            |k: i64|
                if prev.contains_key(k) && run_ids(s).contains(k) {
                    DigestView { notified: prev[k].notified, ..fresh[k] }
                } else {
                    fresh[k]
                },
        ),
    decreases s.len(),
{
    if s.len() > 0 {
        lemma_carry_prefix(prev, fresh, s.drop_last());
        let a = carry_prefix(prev, fresh, s);
        let b = Map::new(
            |k: i64| fresh.contains_key(k),
            |k: i64|
                if prev.contains_key(k) && run_ids(s).contains(k) {
                    DigestView { notified: prev[k].notified, ..fresh[k] }
                } else {
                    fresh[k]
                },
        );
        assert(a =~= b);
    } else {
        let b = Map::new(
            |k: i64| fresh.contains_key(k),
            |k: i64|
                if prev.contains_key(k) && run_ids(s).contains(k) {
                    DigestView { notified: prev[k].notified, ..fresh[k] }
                } else {
                    fresh[k]
                },
        );
        assert(fresh =~= b);
    }
}

proof fn lemma_store_insert_view(s: Map<i64, RunDigestMap>, k: i64, m: RunDigestMap)
    ensures
        store_view(s.insert(k, m)) == store_view(s).insert(k, digest_map_view(m@)),
{
    assert(store_view(s.insert(k, m)) =~= store_view(s).insert(k, digest_map_view(m@)));
}

/// Whether `a` and `b` hold the same digests, where `b` holds one for each
/// run of `runs`.
fn digests_equal(a: &RunDigestMap, b: &RunDigestMap, runs: &[WorkflowRun]) -> (r: bool)
    requires
        b@.dom() == run_ids(runs@),
    ensures
        r == (digest_map_view(a@) == digest_map_view(b@)),
{
    if a.len() != b.len() {
        assert(digest_map_view(a@).dom() =~= a@.dom());
        assert(digest_map_view(b@).dom() =~= b@.dom());
        return false;
    }
    let mut i: usize = 0;
    while i < runs.len()
        invariant
            i <= runs.len(),
            b@.dom() == run_ids(runs@),
            forall|k: i64|
                #[trigger] run_ids(runs@.take(i as int)).contains(k) ==> a@.contains_key(k)
                    && a@[k]@ == b@[k]@,
        decreases runs.len() - i,
    {
        let id = runs[i].id;
        proof {
            assert(runs@.take(i + 1).drop_last() == runs@.take(i as int));
            lemma_runs_digest_dom(runs@);
        }
        match (a.get(&id), b.get(&id)) {
            (Some(x), Some(y)) => {
                if !x.same_as(y) {
                    assert(digest_map_view(a@)[id] != digest_map_view(b@)[id]);
                    return false;
                }
                assert(run_ids(runs@.take(i + 1)) == run_ids(runs@.take(i as int)).insert(id));
                assert(a@.contains_key(id) && a@[id]@ == b@[id]@);
            },
            (None, Some(_)) => {
                assert(!digest_map_view(a@).contains_key(id));
                return false;
            },
            _ => {
                proof {
                    assert(run_ids(runs@.take(i + 1)).contains(id));
                    assert(runs@.take(runs.len() as int) == runs@);
                    lemma_run_ids_prefix(runs@, i as int + 1);
                }
                return false;
            },
        }
        i = i + 1;
    }
    proof {
        assert(runs@.take(runs.len() as int) == runs@);
        lemma_runs_digest_dom(runs@);
        vstd::set_lib::lemma_subset_equality(b@.dom(), a@.dom());
        assert(digest_map_view(a@) =~= digest_map_view(b@));
    }
    true
}

proof fn lemma_run_ids_prefix(runs: Seq<WorkflowRun>, i: int)
    requires
        0 <= i <= runs.len(),
    ensures
        run_ids(runs.take(i)).subset_of(run_ids(runs)),
    decreases runs.len() - i,
{
    if i < runs.len() {
        lemma_run_ids_prefix(runs, i + 1);
        assert(runs.take(i + 1).drop_last() == runs.take(i));
    } else {
        assert(runs.take(i) == runs);
    }
}

/// Records a refresh of workflow `workflow_id` with `runs` in `store` and
/// says whether anything changed, with the notifications to show.
///
/// The fresh digests keep the conclusion each run was last notified for.
/// Nothing changed when the store already held exactly those digests; then
/// the store stays as it is and nothing is notified. On a change the new
/// digests replace the old; when there were old ones, each run that has
/// completed since (or whose conclusion changed) earns a notification, and
/// when any does, the completed runs are marked as notified for their
/// conclusion, so that the same data never notifies twice.
pub fn update_digest_and_collect_notifications(
    store: &mut RunDigestStore,
    workflow_id: i64,
    runs: &[WorkflowRun],
) -> (r: (bool, Option<Vec<NotificationRequest>>))
    ensures
        r.0 == digest_changed(store_view(old(store)@), workflow_id, runs@),
        refresh_notifications(store_view(old(store)@), workflow_id, runs@) == match r.1 {
            Some(v) => Some(notification_views(v@)),
            None => None::<Seq<NotificationView>>,
        },
        store_view(final(store)@) == refreshed_store(store_view(old(store)@), workflow_id, runs@),
{
    let ghost s0 = store_view(store@);
    let previous: Option<RunDigestMap> = match store.get(&workflow_id) {
        Some(m) => Some(m.clone()),
        None => None,
    };
    let mut digest = digest_runs(runs);
    let ghost fresh = runs_digest(runs@);
    proof {
        lemma_runs_digest_dom(runs@);
    }
    if let Some(prev_map) = &previous {
        let ghost pv = digest_map_view(prev_map@);
        let mut i: usize = 0;
        while i < runs.len()
            invariant
                i <= runs.len(),
                pv == digest_map_view(prev_map@),
                fresh == runs_digest(runs@),
                digest_map_view(digest@) == carry_prefix(pv, fresh, runs@.take(i as int)),
            decreases runs.len() - i,
        {
            let id = runs[i].id;
            proof {
                assert(runs@.take(i + 1).drop_last() == runs@.take(i as int));
            }
            match prev_map.get(&id) {
                Some(p) => match digest.get(&id) {
                    Some(e) => {
                        let mut e2 = e.duplicate();
                        e2.notified_conclusion = opt_clone(&p.notified_conclusion);
                        proof {
                            lemma_insert_view(digest@, id, e2);
                        }
                        digest.insert(id, e2);
                        proof {
                            assert(digest_map_view(digest@) =~= carry_prefix(pv, fresh, runs@.take(i + 1)));
                        }
                    },
                    None => {},
                },
                None => {},
            }
            i = i + 1;
        }
        proof {
            assert(runs@.take(runs.len() as int) == runs@);
            lemma_carry_prefix(pv, fresh, runs@);
            assert(digest_map_view(digest@) =~= carry_notified(pv, fresh));
        }
    }
    assert(digest_map_view(digest@) == merged_digest(s0, workflow_id, runs@));
    assert(digest@.dom() == run_ids(runs@)) by {
        assert(digest@.dom() =~= digest_map_view(digest@).dom());
        assert(merged_digest(s0, workflow_id, runs@).dom() =~= fresh.dom());
    }
    let changed = match &previous {
        Some(p) => !digests_equal(p, &digest, runs),
        None => true,
    };
    let mut notification_requests: Option<Vec<NotificationRequest>> = None;
    if changed {
        if let Some(prev) = &previous {
            let requests = collect_completed_notifications(prev, runs);
            if requests.len() > 0 {
                let ghost merged = digest_map_view(digest@);
                let mut i: usize = 0;
                while i < runs.len()
                    invariant
                        i <= runs.len(),
                        digest_map_view(digest@) == mark_notified(merged, runs@.take(i as int)),
                    decreases runs.len() - i,
                {
                    let run = &runs[i];
                    proof {
                        assert(runs@.take(i + 1).drop_last() == runs@.take(i as int));
                        assert(runs@.take(i + 1).last() == *run);
                    }
                    if is_completed_status(run.status.as_ref()) {
                        match digest.get(&run.id) {
                            Some(e) => {
                                let mut e2 = e.duplicate();
                                e2.notified_conclusion = opt_clone(&run.conclusion);
                                proof {
                                    lemma_insert_view(digest@, run.id, e2);
                                }
                                digest.insert(run.id, e2);
                                proof {
                                    assert(digest_map_view(digest@) =~= mark_notified(merged, runs@.take(i + 1)));
                                }
                            },
                            None => {},
                        }
                    }
                    i = i + 1;
                }
                assert(runs@.take(runs.len() as int) == runs@);
                notification_requests = Some(requests);
            }
        }
        proof {
            lemma_store_insert_view(store@, workflow_id, digest);
        }
        store.insert(workflow_id, digest);
    } else {
        if !store.contains_key(&workflow_id) {
            proof {
                lemma_store_insert_view(store@, workflow_id, digest);
            }
            store.insert(workflow_id, digest);
        }
    }
    (changed, notification_requests)
}


/// `d` holds the digests of `fresh`, up to what was notified.
pub open spec fn agrees_but_notified(d: Map<i64, DigestView>, fresh: Map<i64, DigestView>) -> bool {
    &&& d.dom() == fresh.dom()
    &&& forall|k: i64|
        #[trigger] d.contains_key(k) ==> d[k] == DigestView { notified: d[k].notified, ..fresh[k] }
}

proof fn lemma_mark_keeps_agreement(d: Map<i64, DigestView>, fresh: Map<i64, DigestView>, runs: Seq<WorkflowRun>)
    requires
        agrees_but_notified(d, fresh),
    ensures
        agrees_but_notified(mark_notified(d, runs), fresh),
    decreases runs.len(),
{
    if runs.len() > 0 {
        lemma_mark_keeps_agreement(d, fresh, runs.drop_last());
        let m = mark_notified(d, runs.drop_last());
        let r = runs.last();
        if m.contains_key(r.id) && is_completed(opt_seq(r.status)) {
            assert(mark_notified(d, runs).dom() =~= fresh.dom());
        }
    }
}

proof fn lemma_carry_onto_agreeing(d: Map<i64, DigestView>, fresh: Map<i64, DigestView>)
    requires
        agrees_but_notified(d, fresh),
    ensures
        carry_notified(d, fresh) == d,
{
    assert(carry_notified(d, fresh) =~= d);
}

/// Refreshing a workflow twice with the same runs: the second refresh finds
/// nothing changed, asks for no notification and leaves the store as the
/// first one left it. So a completed run is notified once, not on every
/// refresh that still lists it.
pub proof fn lemma_refresh_notifies_once(
    s: Map<i64, Map<i64, DigestView>>,
    wid: i64,
    runs: Seq<WorkflowRun>,
)
    ensures
        !digest_changed(refreshed_store(s, wid, runs), wid, runs),
        refresh_notifications(refreshed_store(s, wid, runs), wid, runs) is None,
        refreshed_store(refreshed_store(s, wid, runs), wid, runs) == refreshed_store(s, wid, runs),
{
    let fresh = runs_digest(runs);
    let merged = merged_digest(s, wid, runs);
    let s1 = refreshed_store(s, wid, runs);
    assert(agrees_but_notified(merged, fresh)) by {
        if s.contains_key(wid) {
            assert(merged.dom() =~= fresh.dom());
        }
    }
    if digest_changed(s, wid, runs) {
        if refresh_notifications(s, wid, runs) is Some {
            lemma_mark_keeps_agreement(merged, fresh, runs);
            lemma_carry_onto_agreeing(mark_notified(merged, runs), fresh);
        } else {
            lemma_carry_onto_agreeing(merged, fresh);
        }
        assert(s1.contains_key(wid));
        assert(merged_digest(s1, wid, runs) == s1[wid]);
    }
}


/// No two runs share an id.
pub open spec fn distinct_ids(runs: Seq<WorkflowRun>) -> bool {
    forall|i: int, j: int| 0 <= i < runs.len() && 0 <= j < runs.len() && i != j ==> #[trigger] runs[i].id != #[trigger] runs[j].id
}

proof fn lemma_digest_of_distinct(runs: Seq<WorkflowRun>)
    requires
        distinct_ids(runs),
    ensures
        forall|i: int| 0 <= i < runs.len() ==> #[trigger] runs_digest(runs).contains_key(runs[i].id) && runs_digest(runs)[runs[i].id] == digest_entry(runs[i]),
        forall|k: i64| #[trigger] runs_digest(runs).contains_key(k) ==> exists|i: int| 0 <= i < runs.len() && runs[i].id == k,
    decreases runs.len(),
{
    if runs.len() > 0 {
        let init = runs.drop_last();
        assert(distinct_ids(init));
        lemma_digest_of_distinct(init);
        assert forall|i: int| 0 <= i < runs.len() implies #[trigger] runs_digest(runs).contains_key(runs[i].id) && runs_digest(runs)[runs[i].id] == digest_entry(runs[i]) by {
            if i < runs.len() - 1 {
                assert(init[i] == runs[i]);
                assert(runs[i].id != runs[runs.len() - 1].id);
            }
        }
        assert forall|k: i64| #[trigger] runs_digest(runs).contains_key(k) implies exists|i: int| 0 <= i < runs.len() && runs[i].id == k by {
            if k != runs.last().id {
                let i = choose|i: int| 0 <= i < init.len() && init[i].id == k;
                assert(runs[i] == init[i]);
            } else {
                assert(runs[runs.len() - 1].id == k);
            }
        }
    }
}

/// Listing the same runs in another order gives the same digests, when no
/// two runs share an id: a reordered list is no change.
pub proof fn lemma_digest_ignores_order(a: Seq<WorkflowRun>, b: Seq<WorkflowRun>)
    requires
        distinct_ids(a),
        distinct_ids(b),
        forall|r: WorkflowRun| a.contains(r) <==> b.contains(r),
    ensures
        runs_digest(a) == runs_digest(b),
{
    lemma_digest_of_distinct(a);
    lemma_digest_of_distinct(b);
    let da = runs_digest(a);
    let db = runs_digest(b);
    assert forall|k: i64| da.contains_key(k) implies db.contains_key(k) && da[k] == db[k] by {
        let i = choose|i: int| 0 <= i < a.len() && a[i].id == k;
        assert(a.contains(a[i]));
        let j = choose|j: int| 0 <= j < b.len() && b[j] == a[i];
        assert(db.contains_key(b[j].id));
    }
    assert forall|k: i64| db.contains_key(k) implies da.contains_key(k) by {
        let j = choose|j: int| 0 <= j < b.len() && b[j].id == k;
        assert(b.contains(b[j]));
        let i = choose|i: int| 0 <= i < a.len() && a[i] == b[j];
        assert(da.contains_key(a[i].id));
    }
    assert(da =~= db);
}

} // verus!
