//! Loading a workflow's runs: when a load may start, how queued loads are
//! coalesced, how a workflow's row is named so the background refresh can
//! find the live ones, and which runs stay expanded when the list is
//! rendered again.
use vstd::prelude::*;
use std::collections::{HashMap, HashSet, VecDeque};
use crate::ansi::{all_digits, digits_value};
use crate::chars::{starts_with, lit, starts_with_at};
use crate::models::{WorkflowRun, run_views};
use crate::text::{chars_of, opt_seq, int_decimal, decimal, push_int_decimal, string_of, push_str};
use crate::digest::{run_ids, RunDigestStore, NotificationRequest, NotificationView, store_view, digest_map_view, DigestView, digest_changed, refreshed_store, refresh_notifications, notification_views, update_digest_and_collect_notifications};
use crate::run_list::{RunListModel, ListView, ListState, placeholder, filtered_page};
use crate::filters::RunFilters;
use crate::errors::{GitHubError, error_text, user_message, user_message_from};

verus! {

broadcast use vstd::std_specs::hash::group_hash_axioms;

/// A signed decimal as `i64::from_str` reads it: an optional sign, then one
/// or more ASCII digits, for a value that fits.
pub open spec fn parse_i64(s: Seq<char>) -> Option<i64> {
    let neg = s.len() > 0 && s[0] == '-';
    let d = if s.len() > 0 && (s[0] == '+' || s[0] == '-') {
        s.drop_first()
    } else {
        s
    };
    if d.len() == 0 || !all_digits(d) {
        None
    } else if neg {
        if digits_value(d) <= 9223372036854775808 {
            Some((0 - digits_value(d)) as i64)
        } else {
            None
        }
    } else if digits_value(d) <= 9223372036854775807 {
        Some(digits_value(d) as i64)
    } else {
        None
    }
}

/// Reads `s[start..]` as an `i64`.
fn parse_i64_from(s: &[char], start: usize) -> (r: Option<i64>)
    requires
        start <= s.len(),
    ensures
        r == parse_i64(s@.subrange(start as int, s@.len() as int)),
{
    let ghost t = s@.subrange(start as int, s@.len() as int);
    let mut k = start;
    let mut neg = false;
    if k < s.len() && (s[k] == '+' || s[k] == '-') {
        neg = s[k] == '-';
        k = k + 1;
    }
    let ghost d = s@.subrange(k as int, s@.len() as int);
    assert(d =~= (if t.len() > 0 && (t[0] == '+' || t[0] == '-') { t.drop_first() } else { t }));
    if k == s.len() {
        return None;
    }
    let mut value: u64 = 0;
    let mut over = false;
    let mut p = k;
    while p < s.len()
        invariant
            start <= k <= p <= s.len(),
            d == s@.subrange(k as int, s@.len() as int),
            d == (if t.len() > 0 && (t[0] == '+' || t[0] == '-') { t.drop_first() } else { t }),
            d.len() > 0,
            t == s@.subrange(start as int, s@.len() as int),
            neg == (t.len() > 0 && t[0] == '-'),
            all_digits(s@.subrange(k as int, p as int)),
            over ==> digits_value(s@.subrange(k as int, p as int)) > 9223372036854775808,
            !over ==> value == digits_value(s@.subrange(k as int, p as int)) && value <= 9223372036854775808,
        decreases s.len() - p,
    {
        let c = s[p];
        if !('0' <= c && c <= '9') {
            assert(d[(p - k) as int] == c);
            assert(!all_digits(d));
            return None;
        }
        let ghost prev = s@.subrange(k as int, p as int);
        let ghost next = s@.subrange(k as int, p + 1);
        assert(next.drop_last() == prev);
        assert(next.last() == c);
        assert(all_digits(next));
        if !over {
            let dv: u64 = (c as u64) - ('0' as u64);
            if value > 922337203685477580 || value * 10 + dv > 9223372036854775808 {
                over = true;
                assert(digits_value(next) == digits_value(prev) * 10 + dv);
            } else {
                value = value * 10 + dv;
            }
        } else {
            assert(digits_value(next) >= digits_value(prev) * 10) by (nonlinear_arith)
                requires
                    digits_value(next) == digits_value(prev) * 10 + ((c as u32) - ('0' as u32)) as nat,
                    '0' <= c,
            {}
            assert(digits_value(next) == digits_value(prev) * 10 + ((c as u32) - ('0' as u32)) as nat);
        }
        p = p + 1;
    }
    assert(s@.subrange(k as int, p as int) == d);
    if over {
        return None;
    }
    if neg {
        if value == 9223372036854775808 {
            Some(i64::MIN)
        } else {
            Some(0 - (value as i64))
        }
    } else if value <= 9223372036854775807 {
        Some(value as i64)
    } else {
        None
    }
}

/// The name of a workflow's row: `workflow_<id>`.
pub open spec fn row_base_name(workflow_id: i64) -> Seq<char> {
    "workflow_"@ + int_decimal(workflow_id as int)
}

/// `s` without any number of trailing `_ACTIVE`.
pub open spec fn strip_active(s: Seq<char>) -> Seq<char>
    decreases s.len(),
{
    if s.len() >= 7 && s.subrange(s.len() - 7, s.len() as int) == "_ACTIVE"@ {
        strip_active(s.subrange(0, s.len() - 7))
    } else {
        s
    }
}

/// A row's name with its live marker set or cleared: `_ACTIVE` after the
/// base name while the workflow has live runs.
pub open spec fn active_name(name: Seq<char>, active: bool) -> Seq<char> {
    if active {
        strip_active(name) + "_ACTIVE"@
    } else {
        strip_active(name)
    }
}

/// The workflow id and live marker a row name carries: one `_ACTIVE` suffix
/// is the marker; what is left must be `workflow_` and an `i64`.
pub open spec fn expander_name_info(name: Seq<char>) -> Option<(i64, bool)> {
    let active = name.len() >= 7 && name.subrange(name.len() - 7, name.len() as int) == "_ACTIVE"@;
    let base = if active {
        name.subrange(0, name.len() - 7)
    } else {
        name
    };
    if starts_with(base, "workflow_"@) {
        match parse_i64(base.subrange(9, base.len() as int)) {
            Some(id) => Some((id, active)),
            None => None,
        }
    } else {
        None
    }
}

fn ends_with_active(s: &[char], end: usize) -> (r: bool)
    requires
        end <= s.len(),
    ensures
        r == (end >= 7 && s@.subrange(end - 7, end as int) == "_ACTIVE"@),
{
    proof {
        reveal_strlit("_ACTIVE");
    }
    if end < 7 {
        return false;
    }
    let suffix = lit("_ACTIVE");
    let sub = vstd::slice::slice_subrange(s, 0, end);
    let r = starts_with_at(sub, end - 7, suffix.as_slice());
    assert(sub@.subrange((end - 7) as int, end as int) =~= s@.subrange(end - 7, end as int));
    assert(sub@.subrange((end - 7) as int, end as int).subrange(0, 7) =~= sub@.subrange((end - 7) as int, end as int));
    r
}

/// The workflow id and live marker of a row name, if it is a workflow's.
pub fn parse_expander_widget_name(name: &str) -> (r: Option<(i64, bool)>)
    ensures
        r == expander_name_info(name@),
{
    proof {
        reveal_strlit("workflow_");
    }
    let v = chars_of(name);
    let s = v.as_slice();
    let active = ends_with_active(s, s.len());
    let end = if active {
        s.len() - 7
    } else {
        s.len()
    };
    let base = vstd::slice::slice_subrange(s, 0, end);
    assert(base@ =~= (if active { name@.subrange(0, name@.len() - 7) } else { name@ }));
    assert(base@.subrange(0, base@.len() as int) =~= base@);
    if !starts_with_at(base, 0, lit("workflow_").as_slice()) {
        return None;
    }
    match parse_i64_from(base, 9) {
        Some(id) => Some((id, active)),
        None => None,
    }
}

/// The name of a workflow's row, with the live marker when `active`.
pub fn set_expander_active(name: &str, active: bool) -> (r: String)
    ensures
        r@ == active_name(name@, active),
{
    proof {
        reveal_strlit("_ACTIVE");
    }
    let v = chars_of(name);
    let s = v.as_slice();
    let mut end = s.len();
    assert(s@.subrange(0, s@.len() as int) =~= s@);
    while ends_with_active(s, end)
        invariant
            end <= s.len(),
            strip_active(s@) == strip_active(s@.subrange(0, end as int)),
        decreases end,
    {
        assert(s@.subrange(0, end as int).subrange(end - 7, end as int) =~= s@.subrange(end - 7, end as int));
        assert(s@.subrange(0, end as int).subrange(0, end - 7) =~= s@.subrange(0, end - 7));
        end = end - 7;
    }
    proof {
        if end >= 7 {
            assert(s@.subrange(0, end as int).subrange(end - 7, end as int) =~= s@.subrange(end - 7, end as int));
        }
    }
    let mut out = crate::chars::string_of_range(s, 0, end);
    if active {
        push_str(&mut out, "_ACTIVE");
    }
    out
}

/// The name a workflow's row starts with.
pub fn workflow_row_name(workflow_id: i64) -> (r: String)
    ensures
        r@ == row_base_name(workflow_id),
{
    let mut s = string_of("workflow_");
    push_int_decimal(&mut s, workflow_id);
    s
}


proof fn lemma_digit_char(d: nat)
    requires
        d < 10,
    ensures
        crate::chars::is_digit(crate::text::digit_char(d)),
        ((crate::text::digit_char(d) as u32) - ('0' as u32)) as nat == d,
{
}

proof fn lemma_decimal_digits(n: nat)
    ensures
        decimal(n).len() > 0,
        all_digits(decimal(n)),
        digits_value(decimal(n)) == n,
        crate::chars::is_digit(decimal(n).last()),
        crate::chars::is_digit(decimal(n)[0]),
    decreases n,
{
    if n >= 10 {
        lemma_decimal_digits(n / 10);
        lemma_digit_char(n % 10);
        let d = decimal(n);
        assert(d.drop_last() == decimal(n / 10));
        assert(d[0] == decimal(n / 10)[0]);
        assert(d.last() == crate::text::digit_char(n % 10));
        assert(digits_value(d) == digits_value(d.drop_last()) * 10 + ((d.last() as u32) - ('0' as u32)) as nat);
        assert(n == (n / 10) * 10 + n % 10);
    } else {
        lemma_digit_char(n);
        let d = decimal(n);
        assert(d.drop_last() =~= Seq::<char>::empty());
        assert(digits_value(d.drop_last()) == 0);
        assert(d.last() == crate::text::digit_char(n));
        assert(digits_value(d) == digits_value(d.drop_last()) * 10 + ((d.last() as u32) - ('0' as u32)) as nat);
    }
}

proof fn lemma_parse_int_decimal(i: i64)
    ensures
        parse_i64(int_decimal(i as int)) == Some(i),
        int_decimal(i as int).len() > 0,
        crate::chars::is_digit(int_decimal(i as int).last()),
{
    if i < 0 {
        lemma_decimal_digits((-i) as nat);
        let s = int_decimal(i as int);
        assert(s.drop_first() =~= decimal((-i) as nat));
        assert(s.last() == decimal((-i) as nat).last());
    } else {
        lemma_decimal_digits(i as nat);
    }
}

proof fn lemma_base_has_no_marker(workflow_id: i64)
    ensures
        strip_active(row_base_name(workflow_id)) == row_base_name(workflow_id),
        !(row_base_name(workflow_id).len() >= 7 && row_base_name(workflow_id).subrange(
            row_base_name(workflow_id).len() - 7,
            row_base_name(workflow_id).len() as int,
        ) == "_ACTIVE"@),
{
    reveal_strlit("_ACTIVE");
    let base = row_base_name(workflow_id);
    lemma_parse_int_decimal(workflow_id);
    assert(base.last() == int_decimal(workflow_id as int).last());
    if base.len() >= 7 {
        assert(base.subrange(base.len() - 7, base.len() as int)[6] == base.last());
        assert("_ACTIVE"@[6] == 'E');
    }
}

proof fn lemma_base_info(workflow_id: i64)
    ensures
        starts_with(row_base_name(workflow_id), "workflow_"@),
        parse_i64(row_base_name(workflow_id).subrange(9, row_base_name(workflow_id).len() as int)) == Some(workflow_id),
{
    reveal_strlit("workflow_");
    let base = row_base_name(workflow_id);
    lemma_parse_int_decimal(workflow_id);
    assert(base.subrange(9, base.len() as int) =~= int_decimal(workflow_id as int));
    assert(base.subrange(0, 9) =~= "workflow_"@);
}

/// Marking a workflow's row live or idle and reading its name back gives the
/// workflow and the mark: the background refresh finds exactly the rows the
/// loads marked.
pub proof fn lemma_row_name_round_trip(workflow_id: i64, active: bool)
    ensures
        expander_name_info(active_name(row_base_name(workflow_id), active)) == Some((workflow_id, active)),
{
    reveal_strlit("_ACTIVE");
    let base = row_base_name(workflow_id);
    lemma_base_has_no_marker(workflow_id);
    lemma_base_info(workflow_id);
    if active {
        let name = base + "_ACTIVE"@;
        assert(name.subrange(name.len() - 7, name.len() as int) =~= "_ACTIVE"@);
        assert(name.subrange(0, name.len() - 7) =~= base);
    }
}


/// Adds to `target` each id of `src` that `keep` holds.
pub fn insert_kept_ids(target: &mut HashSet<i64>, src: &HashSet<i64>, keep: &HashSet<i64>)
    ensures
        final(target)@ == old(target)@.union(src@.intersect(keep@)),
{
    let ghost start = target@;
    for k in it: src.iter()
        invariant
            it.seq().unref().to_set() == src@,
            it.seq().take(it.seq().len() as int) == it.seq(),
            target@ == start.union(it.seq().take(it.index() as int).unref().to_set().intersect(keep@)),
    {
        let ghost before = it.seq().take(it.index() as int).unref();
        let id = *k;
        if keep.contains(&id) {
            target.insert(id);
        }
        proof {
            assert(it.seq().take(it.index() + 1).unref() =~= before.push(id));
            before.lemma_push_to_set_commute(id);
            assert(target@ =~= start.union(before.push(id).to_set().intersect(keep@)));
        }
    }
}

/// The workflows with live runs: those seen live now and those known live
/// before.
pub fn union_active_workflows(observed_active: &HashSet<i64>, previous_active: &HashSet<i64>) -> (r:
    HashSet<i64>)
    ensures
        r@ == observed_active@.union(previous_active@),
{
    let mut combined = crate::run_list::copy_ids(observed_active);
    insert_kept_ids(&mut combined, previous_active, previous_active);
    assert(previous_active@.intersect(previous_active@) =~= previous_active@);
    combined
}

/// The ids of a list of runs, as a set.
pub fn run_id_set(runs: &[WorkflowRun]) -> (r: HashSet<i64>)
    ensures
        r@ == run_ids(runs@),
{
    let mut r: HashSet<i64> = HashSet::new();
    let mut i: usize = 0;
    while i < runs.len()
        invariant
            i <= runs.len(),
            r@ == run_ids(runs@.take(i as int)),
        decreases runs.len() - i,
    {
        r.insert(runs[i].id);
        assert(runs@.take(i + 1).drop_last() =~= runs@.take(i as int));
        i = i + 1;
    }
    assert(runs@.take(runs.len() as int) =~= runs@);
    r
}

/// The runs that stay expanded when a list is rendered again: those asked
/// for, those expanded on screen and those whose jobs are open, as long as
/// the fresh runs still hold them.
pub open spec fn preserved_expanded(
    requested: Set<i64>,
    current: Set<i64>,
    contexts: Seq<i64>,
    runs: Seq<WorkflowRun>,
) -> Set<i64> {
    requested.union(current).union(contexts.to_set()).intersect(run_ids(runs))
}

/// The runs that stay expanded when a list is rendered again.
pub fn resolve_preserved_expanded_run_ids(
    requested_expanded_run_ids: &HashSet<i64>,
    current_expanded_run_ids: &HashSet<i64>,
    current_job_context_ids: &[i64],
    runs: &[WorkflowRun],
) -> (r: HashSet<i64>)
    ensures
        r@ == preserved_expanded(
            requested_expanded_run_ids@,
            current_expanded_run_ids@,
            current_job_context_ids@,
            runs@,
        ),
{
    let valid = run_id_set(runs);
    let mut out: HashSet<i64> = HashSet::new();
    insert_kept_ids(&mut out, requested_expanded_run_ids, &valid);
    insert_kept_ids(&mut out, current_expanded_run_ids, &valid);
    let ghost mid = out@;
    let mut i: usize = 0;
    while i < current_job_context_ids.len()
        invariant
            i <= current_job_context_ids.len(),
            valid@ == run_ids(runs@),
            out@ == mid.union(current_job_context_ids@.take(i as int).to_set().intersect(valid@)),
        decreases current_job_context_ids.len() - i,
    {
        let id = current_job_context_ids[i];
        if valid.contains(&id) {
            out.insert(id);
        }
        proof {
            let before = current_job_context_ids@.take(i as int);
            assert(current_job_context_ids@.take(i + 1) =~= before.push(id));
            before.lemma_push_to_set_commute(id);
            assert(out@ =~= mid.union(before.push(id).to_set().intersect(valid@)));
        }
        i = i + 1;
    }
    assert(current_job_context_ids@.take(current_job_context_ids.len() as int) =~= current_job_context_ids@);
    assert(out@ =~= preserved_expanded(
        requested_expanded_run_ids@,
        current_expanded_run_ids@,
        current_job_context_ids@,
        runs@,
    ));
    out
}

/// Whether a loaded list is rendered: always for a load the user asked
/// for; for a background refresh, when the runs changed or the row is open.
pub open spec fn renders(background: bool, expanded: bool, changed: bool) -> bool {
    !background || changed || expanded
}

/// Whether a loaded list is rendered.
pub fn should_render_run_list(background_refresh: bool, expander_expanded: bool, digest_changed: bool) -> (r: bool)
    ensures
        r == renders(background_refresh, expander_expanded, digest_changed),
{
    if !background_refresh {
        return true;
    }
    if digest_changed {
        return true;
    }
    expander_expanded
}

/// Whether a run is executing or waiting to: its status is exactly
/// `in_progress`, `queued` or `waiting`.
pub open spec fn run_is_busy(run: WorkflowRun) -> bool {
    opt_seq(run.status) == Some("in_progress"@) || opt_seq(run.status) == Some("queued"@) || opt_seq(
        run.status,
    ) == Some("waiting"@)
}

/// Whether any of the runs is busy, which keeps its workflow in the
/// background refresh.
pub fn runs_have_activity(runs: &[WorkflowRun]) -> (r: bool)
    ensures
        r == exists|i: int| 0 <= i < runs@.len() && run_is_busy(#[trigger] runs@[i]),
{
    let mut i: usize = 0;
    while i < runs.len()
        invariant
            i <= runs.len(),
            forall|j: int| 0 <= j < i ==> !run_is_busy(#[trigger] runs@[j]),
        decreases runs.len() - i,
    {
        let busy = crate::text::opt_str_is(&runs[i].status, "in_progress") || crate::text::opt_str_is(
            &runs[i].status,
            "queued",
        ) || crate::text::opt_str_is(&runs[i].status, "waiting");
        if busy {
            return true;
        }
        i = i + 1;
    }
    false
}

/// The open job views to drop after a refresh of `workflow_id`: those of its
/// runs that the fresh runs no longer hold. `contexts` lists each view as
/// (run id, workflow id).
pub fn stale_job_contexts(contexts: &[(i64, i64)], workflow_id: i64, runs: &[WorkflowRun]) -> (r: Vec<i64>)
    ensures
        r@ == contexts@.filter(|c: (i64, i64)| c.1 == workflow_id && !run_ids(runs@).contains(c.0)).map_values(|c: (i64, i64)| c.0),
{
    let valid = run_id_set(runs);
    let mut out: Vec<i64> = Vec::new();
    let mut i: usize = 0;
    let ghost p = |c: (i64, i64)| c.1 == workflow_id && !run_ids(runs@).contains(c.0);
    while i < contexts.len()
        invariant
            i <= contexts.len(),
            valid@ == run_ids(runs@),
            p == (|c: (i64, i64)| c.1 == workflow_id && !run_ids(runs@).contains(c.0)),
            out@ == contexts@.take(i as int).filter(p).map_values(|c: (i64, i64)| c.0),
        decreases contexts.len() - i,
    {
        proof {
            reveal(Seq::filter);
            assert(contexts@.take(i + 1).drop_last() =~= contexts@.take(i as int));
        }
        let (run_id, wid) = contexts[i];
        if wid == workflow_id && !valid.contains(&run_id) {
            out.push(run_id);
            assert(out@ =~= contexts@.take(i + 1).filter(p).map_values(|c: (i64, i64)| c.0));
        } else {
            assert(out@ =~= contexts@.take(i + 1).filter(p).map_values(|c: (i64, i64)| c.0));
        }
        i = i + 1;
    }
    assert(contexts@.take(contexts.len() as int) =~= contexts@);
    out
}


/// How long, in milliseconds, a background load waits after the last load
/// of the same workflow.
pub const LOAD_DEBOUNCE_MS: u64 = 1200;

/// Whether a load at `now` comes within the debounce window of one at
/// `previous` (a clock that went back counts as no time passed).
pub open spec fn within_debounce(previous: u64, now: u64) -> bool {
    (if now >= previous { now - previous } else { 0 }) < LOAD_DEBOUNCE_MS
}

/// Whether a load may start.
#[derive(Debug, Clone, Copy, PartialEq, Eq, Structural)]
pub enum LoadStart {
    /// A background load too soon after the last one.
    Debounced,
    /// The workflow's runs are already loading.
    AlreadyLoading,
    /// The load starts.
    Start,
}

/// When each workflow's runs were last loaded (in milliseconds of a
/// monotonic clock) and which are loading now.
pub struct RunLoadGate {
    pub last_loaded: HashMap<i64, u64>,
    pub loading: HashSet<i64>,
}

/// Whether a background load of `workflow_id` at `now` is debounced.
pub open spec fn is_debounced(last: Map<i64, u64>, workflow_id: i64, now: u64) -> bool {
    last.contains_key(workflow_id) && within_debounce(last[workflow_id], now)
}

impl RunLoadGate {
    /// A gate with no loads yet.
    pub fn new() -> (g: RunLoadGate)
        ensures
            g.last_loaded@ == Map::<i64, u64>::empty(),
            g.loading@ == Set::<i64>::empty(),
    {
        RunLoadGate { last_loaded: HashMap::new(), loading: HashSet::new() }
    }

    /// Whether a background load of `workflow_id` at `now` would be
    /// debounced.
    pub fn debounced(&self, workflow_id: i64, now: u64) -> (r: bool)
        ensures
            r == is_debounced(self.last_loaded@, workflow_id, now),
    {
        match self.last_loaded.get(&workflow_id) {
            Some(previous) => {
                let elapsed = if now >= *previous {
                    now - *previous
                } else {
                    0
                };
                elapsed < LOAD_DEBOUNCE_MS
            },
            None => false,
        }
    }

    /// Whether `workflow_id`'s runs are loading.
    pub fn is_loading(&self, workflow_id: i64) -> (r: bool)
        ensures
            r == self.loading@.contains(workflow_id),
    {
        self.loading.contains(&workflow_id)
    }

    /// Asks to load `workflow_id`'s runs at `now`. A background load within
    /// the debounce window is refused and changes nothing. Otherwise the
    /// load time is recorded; the load starts unless one is already under
    /// way, and is then marked as loading.
    pub fn begin(&mut self, workflow_id: i64, now: u64, background: bool) -> (r: LoadStart)
        ensures
            (background && is_debounced(old(self).last_loaded@, workflow_id, now)) ==> {
                &&& r == LoadStart::Debounced
                &&& final(self).last_loaded@ == old(self).last_loaded@
                &&& final(self).loading@ == old(self).loading@
            },
            !(background && is_debounced(old(self).last_loaded@, workflow_id, now)) ==> {
                &&& final(self).last_loaded@ == old(self).last_loaded@.insert(workflow_id, now)
                &&& final(self).loading@ == old(self).loading@.insert(workflow_id)
                &&& r == if old(self).loading@.contains(workflow_id) {
                    LoadStart::AlreadyLoading
                } else {
                    LoadStart::Start
                }
            },
    {
        if background && self.debounced(workflow_id, now) {
            return LoadStart::Debounced;
        }
        self.last_loaded.insert(workflow_id, now);
        if !self.loading.insert(workflow_id) {
            return LoadStart::AlreadyLoading;
        }
        LoadStart::Start
    }

    /// A load of `workflow_id` has ended.
    pub fn finish(&mut self, workflow_id: i64)
        ensures
            final(self).loading@ == old(self).loading@.remove(workflow_id),
            final(self).last_loaded@ == old(self).last_loaded@,
    {
        self.loading.remove(&workflow_id);
    }
}

/// A queued request to load a workflow's runs, with what the load needs
/// and the runs to keep expanded when its list is rendered.
pub struct QueuedLoad<T> {
    pub workflow_id: i64,
    pub background: bool,
    pub params: T,
    pub expanded_run_ids: HashSet<i64>,
}

/// No two queued loads are for the same workflow.
pub open spec fn one_per_workflow<T>(q: Seq<QueuedLoad<T>>) -> bool {
    forall|i: int, j: int|
        0 <= i < j < q.len() ==> #[trigger] q[i].workflow_id != #[trigger] q[j].workflow_id
}

/// Whether a queued load may go now: a background one not within the
/// debounce window, for a workflow not loading already.
pub open spec fn load_ready(
    workflow_id: i64,
    background: bool,
    last: Map<i64, u64>,
    loading: Set<i64>,
    now: u64,
) -> bool {
    !(background && is_debounced(last, workflow_id, now)) && !loading.contains(workflow_id)
}

/// Queued loads for another workflow than `workflow_id`.
pub open spec fn other_workflow<T>(workflow_id: i64) -> spec_fn(QueuedLoad<T>) -> bool {
    |l: QueuedLoad<T>| l.workflow_id != workflow_id
}

/// Queued loads that may go now.
pub open spec fn ready_load<T>(last: Map<i64, u64>, loading: Set<i64>, now: u64) -> spec_fn(
    QueuedLoad<T>,
) -> bool {
    |l: QueuedLoad<T>| load_ready(l.workflow_id, l.background, last, loading, now)
}

/// Queued loads that must wait.
pub open spec fn waiting_load<T>(last: Map<i64, u64>, loading: Set<i64>, now: u64) -> spec_fn(
    QueuedLoad<T>,
) -> bool {
    |l: QueuedLoad<T>| !load_ready(l.workflow_id, l.background, last, loading, now)
}

/// `out` is the queued load `l` as it is handed out: the same workflow, kind
/// and parameters, with the expanded runs read again from its parameters by
/// `expanded_of`.
pub open spec fn dispatched<T, F: Fn(&T) -> HashSet<i64>>(
    out: QueuedLoad<T>,
    l: QueuedLoad<T>,
    expanded_of: F,
) -> bool {
    &&& out.workflow_id == l.workflow_id
    &&& out.background == l.background
    &&& out.params == l.params
    &&& expanded_of.ensures((&l.params,), out.expanded_run_ids)
}

/// Queued loads, coalesced by workflow, and whether a pass over them is
/// scheduled.
pub struct RunLoadQueue<T> {
    pub pending: VecDeque<QueuedLoad<T>>,
    pub scheduled: bool,
}

impl<T> RunLoadQueue<T> {
    /// The queue's invariant: at most one load per workflow.
    pub open spec fn wf(&self) -> bool {
        one_per_workflow(self.pending@)
    }

    /// An empty queue with no pass scheduled.
    pub fn new() -> (q: RunLoadQueue<T>)
        ensures
            q.wf(),
            q.pending@.len() == 0,
            !q.scheduled,
    {
        RunLoadQueue { pending: VecDeque::new(), scheduled: false }
    }

    /// Queues `load` last, dropping a queued load of the same workflow (the
    /// latest parameters win), and answers whether a pass must be scheduled
    /// (none was).
    pub fn request(&mut self, load: QueuedLoad<T>) -> (schedule: bool)
        requires
            old(self).wf(),
        ensures
            final(self).wf(),
            final(self).pending@ == old(self).pending@.filter(other_workflow(load.workflow_id)).push(load),
            schedule == !old(self).scheduled,
            final(self).scheduled,
    {
        let wid = load.workflow_id;
        let ghost q = self.pending@;
        let mut i: usize = 0;
        while i < self.pending.len()
            invariant
                i <= self.pending.len(),
                q == self.pending@,
                forall|j: int| 0 <= j < i ==> #[trigger] q[j].workflow_id != wid,
            ensures
                i <= self.pending.len(),
                q == self.pending@,
                forall|j: int| 0 <= j < i ==> #[trigger] q[j].workflow_id != wid,
                i < self.pending.len() ==> q[i as int].workflow_id == wid,
            decreases self.pending.len() - i,
        {
            if self.pending[i].workflow_id == wid {
                break;
            }
            i = i + 1;
        }
        if i < self.pending.len() {
            let _ = self.pending.remove(i);
            proof {
                lemma_drops_one(q, wid, i as int);
            }
        } else {
            proof {
                lemma_keeps_all(q, wid);
            }
        }
        proof {
            lemma_filter_unique(q, other_workflow(wid));
            assert forall|j: int| 0 <= j < self.pending@.len() implies #[trigger] self.pending@[j].workflow_id != wid by {
                q.filter(other_workflow::<T>(wid)).lemma_filter_contains_rev(other_workflow(wid), self.pending@[j]);
                assert(self.pending@.contains(self.pending@[j]));
            }
        }
        self.pending.push_back(load);
        let schedule = !self.scheduled;
        self.scheduled = true;
        schedule
    }

    /// Takes out the loads that may go now and hands them out last first, each
    /// with its expanded runs read again by `expanded_of` (a queued load must
    /// not reopen or collapse rows from the state it was queued in); the others
    /// stay queued in their order. Also answers whether another pass is needed
    /// (some load stayed queued). The scheduled pass is done.
    pub fn process<F: Fn(&T) -> HashSet<i64>>(
        &mut self,
        gate: &RunLoadGate,
        now: u64,
        expanded_of: &F,
    ) -> (r: (Vec<QueuedLoad<T>>, bool))
        requires
            old(self).wf(),
            forall|t: &T| expanded_of.requires((t,)),
        ensures
            final(self).wf(),
            final(self).pending@ == old(self).pending@.filter(
                waiting_load(gate.last_loaded@, gate.loading@, now),
            ),
            r.0@.len() == old(self).pending@.filter(
                ready_load(gate.last_loaded@, gate.loading@, now),
            ).len(),
            forall|i: int|
                #![trigger r.0@[i]]
                0 <= i < r.0@.len() ==> {
                    let ready = old(self).pending@.filter(
                        ready_load(gate.last_loaded@, gate.loading@, now),
                    );
                    dispatched(r.0@[i], ready[ready.len() - 1 - i], *expanded_of)
                },
            r.1 == (final(self).pending@.len() > 0),
            !final(self).scheduled,
    {
        self.scheduled = false;
        let ghost q = self.pending@;
        let ghost ready_p = ready_load::<T>(gate.last_loaded@, gate.loading@, now);
        let ghost keep_p = waiting_load::<T>(gate.last_loaded@, gate.loading@, now);
        let mut source: VecDeque<QueuedLoad<T>> = VecDeque::new();
        std::mem::swap(&mut source, &mut self.pending);
        let mut ready: Vec<QueuedLoad<T>> = Vec::new();
        let mut kept: VecDeque<QueuedLoad<T>> = VecDeque::new();
        let ghost n = q.len();
        while source.len() > 0
            invariant
                n == q.len(),
                source@.len() <= n,
                source@ == q.subrange(n - source@.len(), n as int),
                kept@ == q.take(n - source@.len()).filter(keep_p),
                ready@.len() == q.take(n - source@.len()).filter(ready_p).len(),
                forall|i: int|
                    #![trigger ready@[i]]
                    0 <= i < ready@.len() ==> {
                        let f = q.take(n - source@.len()).filter(ready_p);
                        dispatched(ready@[i], f[f.len() - 1 - i], *expanded_of)
                    },
                ready_p == ready_load::<T>(gate.last_loaded@, gate.loading@, now),
                keep_p == waiting_load::<T>(gate.last_loaded@, gate.loading@, now),
                forall|t: &T| expanded_of.requires((t,)),
            decreases source@.len(),
        {
            let ghost done = n - source@.len();
            let ghost old_src = source@;
            let item = source.pop_front().unwrap();
            proof {
                assert(old_src[0] == q[done]);
                assert(source@ =~= q.subrange(done + 1, n as int));
                reveal(Seq::filter);
                assert(q.take(done + 1).drop_last() =~= q.take(done));
                assert(q.take(done + 1).last() == item);
            }
            let go = !(item.background && gate.debounced(item.workflow_id, now))
                && !gate.is_loading(item.workflow_id);
            if go {
                let ghost before = ready@;
                let ghost f0 = q.take(done).filter(ready_p);
                let ids = expanded_of(&item.params);
                let ghost l = item;
                let out = QueuedLoad {
                    workflow_id: item.workflow_id,
                    background: item.background,
                    params: item.params,
                    expanded_run_ids: ids,
                };
                ready.insert(0, out);
                proof {
                    assert(ready_p(l));
                    let f1 = q.take(done + 1).filter(ready_p);
                    assert(f1 =~= f0.push(l));
                    assert forall|i: int| #![trigger ready@[i]] 0 <= i < ready@.len() implies dispatched(
                        ready@[i],
                        f1[f1.len() - 1 - i],
                        *expanded_of,
                    ) by {
                        if i > 0 {
                            assert(ready@[i] == before[i - 1]);
                        }
                    }
                }
            } else {
                let ghost before = kept@;
                let ghost l = item;
                kept.push_back(item);
                proof {
                    assert(keep_p(l));
                    assert(kept@ =~= before.push(l));
                }
            }
        }
        assert(q.take(n as int) =~= q);
        self.pending = kept;
        proof {
            lemma_filter_unique(q, keep_p);
        }
        let retry = self.pending.len() > 0;
        (ready, retry)
    }
}

proof fn lemma_drops_one<T>(q: Seq<QueuedLoad<T>>, wid: i64, i: int)
    requires
        one_per_workflow(q),
        0 <= i < q.len(),
        q[i].workflow_id == wid,
    ensures
        q.filter(other_workflow(wid)) == q.remove(i),
    decreases q.len(),
{
    reveal(Seq::filter);
    if i == q.len() - 1 {
        assert forall|j: int| 0 <= j < q.drop_last().len() implies #[trigger] q.drop_last()[j].workflow_id != wid by {
            assert(q[j].workflow_id != q[i].workflow_id);
        }
        lemma_keeps_all(q.drop_last(), wid);
        assert(q.remove(i) =~= q.drop_last());
    } else {
        assert(one_per_workflow(q.drop_last()));
        lemma_drops_one(q.drop_last(), wid, i);
        assert(q.last().workflow_id != wid);
        assert(q.remove(i) =~= q.drop_last().remove(i).push(q.last()));
    }
}

proof fn lemma_keeps_all<T>(q: Seq<QueuedLoad<T>>, wid: i64)
    requires
        forall|j: int| 0 <= j < q.len() ==> #[trigger] q[j].workflow_id != wid,
    ensures
        q.filter(other_workflow(wid)) == q,
    decreases q.len(),
{
    reveal(Seq::filter);
    if q.len() > 0 {
        lemma_keeps_all(q.drop_last(), wid);
        assert(q.drop_last().push(q.last()) =~= q);
    }
}

proof fn lemma_filter_unique<T>(q: Seq<QueuedLoad<T>>, p: spec_fn(QueuedLoad<T>) -> bool)
    requires
        one_per_workflow(q),
    ensures
        one_per_workflow(q.filter(p)),
    decreases q.len(),
{
    reveal(Seq::filter);
    if q.len() > 0 {
        assert(one_per_workflow(q.drop_last()));
        lemma_filter_unique(q.drop_last(), p);
        let f = q.drop_last().filter(p);
        if p(q.last()) {
            assert forall|j: int| 0 <= j < f.len() implies #[trigger] f[j].workflow_id != q.last().workflow_id by {
                q.drop_last().lemma_filter_contains_rev(p, f[j]);
                assert(f.contains(f[j]));
                let m = choose|m: int| 0 <= m < q.drop_last().len() && q.drop_last()[m] == f[j];
                assert(q[m] == f[j]);
            }
        }
    }
}


/// What the view does after a load's reply, besides what the list, the
/// digests and the live workflows now hold.
pub struct RunsReplyEffects {
    /// Whether the digests changed.
    pub changed: bool,
    /// The completion notifications to show.
    pub notifications: Option<Vec<NotificationRequest>>,
    /// The workflow's latest run, for its row header; none without runs.
    pub latest_run: Option<WorkflowRun>,
    /// Whether the workflow has busy runs (its row is marked live); none
    /// when no runs came back, which leaves the mark as it was.
    pub has_active_runs: Option<bool>,
    /// Whether the open job views of the workflow are refreshed: the runs
    /// changed and none is busy.
    pub refresh_jobs: bool,
}

/// The list after loaded runs: cached, then rendered when `renders` says so.
pub open spec fn list_after_runs(
    v: ListView,
    runs: Seq<WorkflowRun>,
    render: bool,
    filters: RunFilters,
    expanded: Set<i64>,
) -> ListView {
    let cached = ListView { runs: run_views(runs), has_loaded: true, ..v };
    if runs.len() == 0 {
        placeholder(cached, ListState::Empty)
    } else if render {
        filtered_page(cached, filters, expanded)
    } else {
        cached
    }
}

/// What applying a successful load of `workflow_id`'s runs does, from the
/// list, digests and live workflows before (`l0`, `s0`, `a0`) to after
/// (`l1`, `s1`, `a1`), with the effects `e` it reports.
pub open spec fn loaded_effects(
    l0: ListView,
    l1: ListView,
    s0: Map<i64, Map<i64, DigestView>>,
    s1: Map<i64, Map<i64, DigestView>>,
    a0: Set<i64>,
    a1: Set<i64>,
    workflow_id: i64,
    runs: Seq<WorkflowRun>,
    background: bool,
    expander_expanded: bool,
    filters: RunFilters,
    requested: Set<i64>,
    ctx: Seq<i64>,
    e: RunsReplyEffects,
) -> bool {
        &&& runs.len() == 0 ==> {
            &&& l1 == list_after_runs(l0, runs, true, filters, Set::empty())
            &&& s1 == s0.insert(workflow_id, Map::empty())
            &&& a1 == a0
            &&& !e.changed && e.notifications is None && e.latest_run is None
            &&& e.has_active_runs is None && !e.refresh_jobs
        }
        &&& runs.len() > 0 ==> {
            let changed = digest_changed(s0, workflow_id, runs);
            let busy = exists|i: int| 0 <= i < runs.len() && run_is_busy(#[trigger] runs[i]);
            let expanded = preserved_expanded(
                if background { Set::empty() } else { requested },
                l0.expanded,
                ctx,
                runs,
            );
            &&& e.changed == changed
            &&& s1 == refreshed_store(s0, workflow_id, runs)
            &&& refresh_notifications(s0, workflow_id, runs) == match e.notifications {
                Some(v) => Some(notification_views(v@)),
                None => None::<Seq<NotificationView>>,
            }
            &&& e.has_active_runs == Some(busy)
            &&& a1 == if busy {
                a0.insert(workflow_id)
            } else {
                a0.remove(workflow_id)
            }
            &&& e.refresh_jobs == (changed && !busy)
            &&& (e.latest_run matches Some(r) && r@ == runs[0]@)
            &&& l1 == list_after_runs(
                l0,
                runs,
                renders(background, expander_expanded, changed),
                filters,
                expanded,
            )
        }
}

/// Applies a successful load of `workflow_id`'s runs: caches them, records
/// their digests, marks the workflow live or idle, and renders the list
/// when it is worth it, keeping expanded the runs that should stay so (for a
/// background refresh, only what is on screen now counts).
pub fn apply_runs_loaded(
    list: &mut RunListModel,
    store: &mut RunDigestStore,
    active: &mut HashSet<i64>,
    workflow_id: i64,
    runs: Vec<WorkflowRun>,
    background: bool,
    expander_expanded: bool,
    filters: &RunFilters,
    requested: &HashSet<i64>,
    context_run_ids: &[i64],
) -> (e: RunsReplyEffects)
    ensures
        loaded_effects(
            old(list)@,
            final(list)@,
            store_view(old(store)@),
            store_view(final(store)@),
            old(active)@,
            final(active)@,
            workflow_id,
            runs@,
            background,
            expander_expanded,
            *filters,
            requested@,
            context_run_ids@,
            e,
        ),
{
    if runs.len() == 0 {
        list.set_runs(runs);
        let ghost before = store@;
        store.insert(workflow_id, HashMap::new());
        proof {
            assert(digest_map_view(Map::<i64, crate::digest::RunDigest>::empty()) =~= Map::<i64, DigestView>::empty());
            assert(store_view(store@) =~= store_view(before).insert(workflow_id, Map::empty()));
        }
        list.show_empty();
        return RunsReplyEffects {
            changed: false,
            notifications: None,
            latest_run: None,
            has_active_runs: None,
            refresh_jobs: false,
        };
    }
    let (changed, notifications) = update_digest_and_collect_notifications(
        store,
        workflow_id,
        runs.as_slice(),
    );
    let latest = runs[0].duplicate();
    let has_active = runs_have_activity(runs.as_slice());
    if has_active {
        active.insert(workflow_id);
    } else {
        active.remove(&workflow_id);
    }
    let ghost expanded_before = list@.expanded;
    let render = should_render_run_list(background, expander_expanded, changed);
    if render {
        let current_expanded = list.expanded_run_ids();
        let empty: HashSet<i64> = HashSet::new();
        let preserved = if background {
            resolve_preserved_expanded_run_ids(&empty, &current_expanded, context_run_ids, runs.as_slice())
        } else {
            resolve_preserved_expanded_run_ids(requested, &current_expanded, context_run_ids, runs.as_slice())
        };
        list.set_runs(runs);
        list.show_filtered_runs(filters, &preserved);
    } else {
        list.set_runs(runs);
    }
    RunsReplyEffects {
        changed,
        notifications,
        latest_run: Some(latest),
        has_active_runs: Some(has_active),
        refresh_jobs: changed && !has_active,
    }
}

/// Applies a failed load: a load the user asked for shows the error with a
/// way to retry; a background refresh leaves the list as it is.
pub fn apply_runs_failed(list: &mut RunListModel, background: bool, error: &GitHubError)
    ensures
        background ==> final(list)@ == old(list)@,
        !background ==> final(list)@ == (ListView {
            state: ListState::Error,
            header: None,
            entries: seq![],
            error_detail: Some(user_message(error_text(*error))),
            ..old(list)@
        }),
{
    if !background {
        let detail = user_message_from(error.message().as_str());
        list.show_error(detail);
    }
}

/// Starts a load of `workflow_id`'s runs at `now` (see `RunLoadGate::begin`).
/// Exactly when the answer is `Start` the caller asks GitHub for the runs,
/// once; the list shows its loading page only for a load the user asked
/// for, and is left alone for a background refresh or a load that does not
/// start.
pub fn start_run_load(
    gate: &mut RunLoadGate,
    list: &mut RunListModel,
    workflow_id: i64,
    now: u64,
    background: bool,
) -> (r: LoadStart)
    ensures
        (background && is_debounced(old(gate).last_loaded@, workflow_id, now)) ==> {
            &&& r == LoadStart::Debounced
            &&& final(gate).last_loaded@ == old(gate).last_loaded@
            &&& final(gate).loading@ == old(gate).loading@
        },
        !(background && is_debounced(old(gate).last_loaded@, workflow_id, now)) ==> {
            &&& final(gate).last_loaded@ == old(gate).last_loaded@.insert(workflow_id, now)
            &&& final(gate).loading@ == old(gate).loading@.insert(workflow_id)
            &&& r == if old(gate).loading@.contains(workflow_id) {
                LoadStart::AlreadyLoading
            } else {
                LoadStart::Start
            }
        },
        final(list)@ == if r == LoadStart::Start && !background {
            placeholder(old(list)@, ListState::Loading)
        } else {
            old(list)@
        },
{
    let r = gate.begin(workflow_id, now, background);
    if r == LoadStart::Start && !background {
        list.show_loading();
    }
    r
}

/// Handles the reply to a load of `workflow_id`'s runs: the load ends
/// (whatever the reply), then runs that came back are applied as
/// `apply_runs_loaded` does and an error as `apply_runs_failed` does,
/// leaving the digests and the live workflows as they were.
pub fn handle_runs_reply(
    gate: &mut RunLoadGate,
    list: &mut RunListModel,
    store: &mut RunDigestStore,
    active: &mut HashSet<i64>,
    workflow_id: i64,
    reply: Result<Vec<WorkflowRun>, GitHubError>,
    background: bool,
    expander_expanded: bool,
    filters: &RunFilters,
    requested: &HashSet<i64>,
    context_run_ids: &[i64],
) -> (r: Option<RunsReplyEffects>)
    ensures
        final(gate).loading@ == old(gate).loading@.remove(workflow_id),
        final(gate).last_loaded@ == old(gate).last_loaded@,
        match reply {
            Ok(runs) => r matches Some(e) && loaded_effects(
                old(list)@,
                final(list)@,
                store_view(old(store)@),
                store_view(final(store)@),
                old(active)@,
                final(active)@,
                workflow_id,
                runs@,
                background,
                expander_expanded,
                *filters,
                requested@,
                context_run_ids@,
                e,
            ),
            Err(err) => {
                &&& r is None
                &&& store_view(final(store)@) == store_view(old(store)@)
                &&& final(active)@ == old(active)@
                &&& background ==> final(list)@ == old(list)@
                &&& !background ==> final(list)@ == (ListView {
                    state: ListState::Error,
                    header: None,
                    entries: seq![],
                    error_detail: Some(user_message(error_text(err))),
                    ..old(list)@
                })
            },
        },
{
    gate.finish(workflow_id);
    match reply {
        Ok(runs) => Some(
            apply_runs_loaded(
                list,
                store,
                active,
                workflow_id,
                runs,
                background,
                expander_expanded,
                filters,
                requested,
                context_run_ids,
            ),
        ),
        Err(err) => {
            apply_runs_failed(list, background, &err);
            None
        },
    }
}

} // verus!
