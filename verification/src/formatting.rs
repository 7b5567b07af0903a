//! Display text for runs, jobs and steps: friendly status and conclusion
//! labels, the status dot's icon and tint, run titles, tooltips and the meta
//! lines under workflow and run titles.
use vstd::prelude::*;
use crate::text::{
    push_str, push_char, push_int_decimal, string_of, str_eq, opt_seq, int_decimal, chars_of,
    views_of, join, push_part, join_strings,
};
use crate::models::{WorkflowRun, RunView, Job, view_is_active};
use crate::timing::{
    duration_between, duration_text, relative_time_from_iso, running_duration_string, rfc3339_instant,
    span_reading, relative_reading, running_at, Instant,
};

verus! {

/// Unicode lower-casing of a text, as std's `str::to_lowercase` does it.
pub uninterp spec fn lowercase(s: Seq<char>) -> Seq<char>;

/// `str::to_lowercase`. Its result is a function of the text (std's Unicode
/// tables); what it maps each character to is left to that name.
#[verifier::external_body]
fn to_lowercase(s: &str) -> (r: String)
    ensures
        r@ == lowercase(s@),
{
    s.to_lowercase()
}

/// `s` with every underscore read as a space (`replace('_', " ")`).
pub open spec fn underscores_as_spaces(s: Seq<char>) -> Seq<char> {
    s.map_values(|c: char| if c == '_' { ' ' } else { c })
}

/// A copy of `s` with each underscore replaced by a space.
pub fn replace_underscores(s: &str) -> (out: String)
    ensures
        out@ == underscores_as_spaces(s@),
{
    let chars = chars_of(s);
    let mut out = String::new();
    let mut i: usize = 0;
    while i < chars.len()
        invariant
            i <= chars.len(),
            chars@ == s@,
            out@ == underscores_as_spaces(s@.take(i as int)),
        decreases chars.len() - i,
    {
        let c = chars[i];
        push_char(&mut out, if c == '_' { ' ' } else { c });
        assert(underscores_as_spaces(s@.take(i + 1)) =~= underscores_as_spaces(s@.take(i as int)).push(
            if c == '_' { ' ' } else { c },
        ));
        i = i + 1;
    }
    assert(s@.take(chars.len() as int) =~= s@);
    out
}

/// The label of a conclusion, given its lower-cased text and the text as
/// GitHub sent it.
pub open spec fn conclusion_label(lowered: Seq<char>, raw: Seq<char>) -> Seq<char> {
    if lowered == "success"@ {
        "Success"@
    } else if lowered == "failure"@ {
        "Failed"@
    } else if lowered == "cancelled"@ {
        "Cancelled"@
    } else if lowered == "skipped"@ {
        "Skipped"@
    } else if lowered == "timed_out"@ {
        "Timed Out"@
    } else if lowered == "action_required"@ {
        "Action Required"@
    } else if lowered == "neutral"@ {
        "Neutral"@
    } else if lowered == "stale"@ {
        "Stale"@
    } else {
        underscores_as_spaces(raw)
    }
}

/// `s` written as words: each underscore a space, and the first letter of
/// the text and of each word after an underscore in upper case.
pub open spec fn capitalised_words(s: Seq<char>) -> Seq<char> {
    Seq::new(
        s.len(),
        |i: int|
            if s[i] == '_' {
                ' '
            } else if (i == 0 || s[i - 1] == '_') && 'a' <= s[i] <= 'z' {
                ((s[i] as int) - 32) as char
            } else {
                s[i]
            },
    )
}

/// Whether `c` is one of the conclusions GitHub documents.
pub open spec fn known_conclusion(c: Seq<char>) -> bool {
    c == "success"@ || c == "failure"@ || c == "cancelled"@ || c == "skipped"@ || c == "timed_out"@
        || c == "action_required"@ || c == "neutral"@ || c == "stale"@
}

/// A known conclusion reads as its own name written as words (`cancelled`
/// as `Cancelled`, `timed_out` as `Timed Out`), except `failure`, which
/// reads `Failed`; the text as sent does not matter then.
pub proof fn lemma_known_conclusion_labels(lowered: Seq<char>, raw: Seq<char>)
    requires
        known_conclusion(lowered),
    ensures
        lowered == "failure"@ ==> conclusion_label(lowered, raw) == "Failed"@,
        lowered != "failure"@ ==> conclusion_label(lowered, raw) == capitalised_words(lowered),
{
    reveal_strlit("success");
    reveal_strlit("failure");
    reveal_strlit("cancelled");
    reveal_strlit("skipped");
    reveal_strlit("timed_out");
    reveal_strlit("action_required");
    reveal_strlit("neutral");
    reveal_strlit("stale");
    reveal_strlit("Success");
    reveal_strlit("Failed");
    reveal_strlit("Cancelled");
    reveal_strlit("Skipped");
    reveal_strlit("Timed Out");
    reveal_strlit("Action Required");
    reveal_strlit("Neutral");
    reveal_strlit("Stale");
    assert(lowered[0] == 'f' ==> lowered == "failure"@);
    if lowered == "failure"@ {
        assert(lowered != "success"@) by {
            assert(lowered[0] != "success"@[0]);
        }
    } else {
        assert(conclusion_label(lowered, raw) =~= capitalised_words(lowered));
    }
}

/// Different known conclusions get different labels.
pub proof fn lemma_known_conclusion_labels_distinct(a: Seq<char>, ra: Seq<char>, b: Seq<char>, rb: Seq<char>)
    requires
        known_conclusion(a),
        known_conclusion(b),
        a != b,
    ensures
        conclusion_label(a, ra) != conclusion_label(b, rb),
{
    reveal_strlit("success");
    reveal_strlit("failure");
    reveal_strlit("cancelled");
    reveal_strlit("skipped");
    reveal_strlit("timed_out");
    reveal_strlit("action_required");
    reveal_strlit("neutral");
    reveal_strlit("stale");
    reveal_strlit("Success");
    reveal_strlit("Failed");
    reveal_strlit("Cancelled");
    reveal_strlit("Skipped");
    reveal_strlit("Timed Out");
    reveal_strlit("Action Required");
    reveal_strlit("Neutral");
    reveal_strlit("Stale");
    let la = conclusion_label(a, ra);
    let lb = conclusion_label(b, rb);
    if la == lb {
        assert(la.len() == lb.len());
        assert(la[0] == lb[0]);
        assert(la[1] == lb[1]);
    }
}

/// Any other conclusion reads as GitHub sent it, with each underscore read
/// as a space and every other character kept.
pub proof fn lemma_unknown_conclusion_label(lowered: Seq<char>, raw: Seq<char>)
    requires
        !known_conclusion(lowered),
    ensures
        conclusion_label(lowered, raw).len() == raw.len(),
        forall|i: int|
            0 <= i < raw.len() ==> #[trigger] conclusion_label(lowered, raw)[i] == if raw[i] == '_' {
                ' '
            } else {
                raw[i]
            },
{
}

/// A human-readable conclusion; empty when there is none yet.
pub open spec fn friendly_conclusion_text(conclusion: Option<Seq<char>>) -> Seq<char> {
    match conclusion {
        None => Seq::empty(),
        Some(c) => conclusion_label(lowercase(c), c),
    }
}

/// The label of a status, given its lower-cased text, the text as GitHub
/// sent it, and the conclusion (which a completed status reads as).
pub open spec fn status_label(lowered: Seq<char>, raw: Seq<char>, conclusion: Option<Seq<char>>) -> Seq<char> {
    if lowered == "queued"@ {
        "Queued"@
    } else if lowered == "in_progress"@ {
        "In Progress"@
    } else if lowered == "completed"@ {
        if conclusion is Some {
            friendly_conclusion_text(conclusion)
        } else {
            "Completed"@
        }
    } else if lowered == "waiting"@ {
        "Waiting"@
    } else if lowered == "requested"@ {
        "Requested"@
    } else if lowered == "pending"@ {
        "Pending"@
    } else {
        underscores_as_spaces(raw)
    }
}

/// A human-readable status, reading as the conclusion once complete.
pub open spec fn friendly_status_text(status: Option<Seq<char>>, conclusion: Option<Seq<char>>) -> Seq<char> {
    match status {
        None => "Unknown"@,
        Some(s) => status_label(lowercase(s), s, conclusion),
    }
}

/// Whether `s` is one of the run statuses GitHub documents.
pub open spec fn known_status(s: Seq<char>) -> bool {
    s == "queued"@ || s == "in_progress"@ || s == "completed"@ || s == "waiting"@ || s
        == "requested"@ || s == "pending"@
}

/// A known status other than `completed` reads as its own name written as
/// words (`in_progress` as `In Progress`); `completed` reads as the
/// conclusion when there is one and as `Completed` otherwise; any other
/// status reads as sent, underscores as spaces.
pub proof fn lemma_status_labels(lowered: Seq<char>, raw: Seq<char>, conclusion: Option<Seq<char>>)
    ensures
        known_status(lowered) && lowered != "completed"@ ==> status_label(lowered, raw, conclusion)
            == capitalised_words(lowered),
        lowered == "completed"@ ==> status_label(lowered, raw, conclusion) == match conclusion {
            Some(c) => conclusion_label(lowercase(c), c),
            None => "Completed"@,
        },
        !known_status(lowered) ==> status_label(lowered, raw, conclusion).len() == raw.len()
            && forall|i: int|
            0 <= i < raw.len() ==> #[trigger] status_label(lowered, raw, conclusion)[i] == if raw[i]
                == '_' {
                ' '
            } else {
                raw[i]
            },
{
    reveal_strlit("queued");
    reveal_strlit("in_progress");
    reveal_strlit("completed");
    reveal_strlit("waiting");
    reveal_strlit("requested");
    reveal_strlit("pending");
    reveal_strlit("Queued");
    reveal_strlit("In Progress");
    reveal_strlit("Completed");
    reveal_strlit("Waiting");
    reveal_strlit("Requested");
    reveal_strlit("Pending");
    if known_status(lowered) && lowered != "completed"@ {
        assert(status_label(lowered, raw, conclusion) =~= capitalised_words(lowered));
    }
    if lowered == "completed"@ {
        assert(lowered != "queued"@ && lowered != "in_progress"@) by {
            assert(lowered[0] != "queued"@[0] && lowered[0] != "in_progress"@[0]);
        }
    }
}

/// The view of an optional borrowed text.
pub open spec fn opt_str_view(s: Option<&str>) -> Option<Seq<char>> {
    match s {
        Some(v) => Some(v@),
        None => None,
    }
}

/// The text of an optional string, borrowed.
pub fn opt_as_str(s: &Option<String>) -> (r: Option<&str>)
    ensures
        opt_str_view(r) == opt_seq(*s),
{
    match s {
        Some(v) => Some(v.as_str()),
        None => None,
    }
}

/// The label of a conclusion whose lower-cased text is `lowered` and whose
/// text as sent is `raw`.
pub fn conclusion_label_of(lowered: &str, raw: &str) -> (out: String)
    ensures
        out@ == conclusion_label(lowered@, raw@),
{
    if str_eq(lowered, "success") {
        string_of("Success")
    } else if str_eq(lowered, "failure") {
        string_of("Failed")
    } else if str_eq(lowered, "cancelled") {
        string_of("Cancelled")
    } else if str_eq(lowered, "skipped") {
        string_of("Skipped")
    } else if str_eq(lowered, "timed_out") {
        string_of("Timed Out")
    } else if str_eq(lowered, "action_required") {
        string_of("Action Required")
    } else if str_eq(lowered, "neutral") {
        string_of("Neutral")
    } else if str_eq(lowered, "stale") {
        string_of("Stale")
    } else {
        replace_underscores(raw)
    }
}

/// A human-readable conclusion, or empty when there is none yet.
pub fn friendly_conclusion(conclusion: Option<&str>) -> (out: String)
    ensures
        out@ == friendly_conclusion_text(opt_str_view(conclusion)),
{
    match conclusion {
        None => String::new(),
        Some(c) => {
            let lowered = to_lowercase(c);
            conclusion_label_of(lowered.as_str(), c)
        },
    }
}

/// The label of a status whose lower-cased text is `lowered` and whose text
/// as sent is `raw`, given the conclusion.
pub fn status_label_of(lowered: &str, raw: &str, conclusion: Option<&str>) -> (out: String)
    ensures
        out@ == status_label(lowered@, raw@, opt_str_view(conclusion)),
{
    if str_eq(lowered, "queued") {
        string_of("Queued")
    } else if str_eq(lowered, "in_progress") {
        string_of("In Progress")
    } else if str_eq(lowered, "completed") {
        if conclusion.is_some() {
            friendly_conclusion(conclusion)
        } else {
            string_of("Completed")
        }
    } else if str_eq(lowered, "waiting") {
        string_of("Waiting")
    } else if str_eq(lowered, "requested") {
        string_of("Requested")
    } else if str_eq(lowered, "pending") {
        string_of("Pending")
    } else {
        replace_underscores(raw)
    }
}

/// A human-readable status, falling through to the conclusion once complete.
pub fn friendly_status(status: Option<&str>, conclusion: Option<&str>) -> (out: String)
    ensures
        out@ == friendly_status_text(opt_str_view(status), opt_str_view(conclusion)),
{
    match status {
        None => string_of("Unknown"),
        Some(s) => {
            let lowered = to_lowercase(s);
            status_label_of(lowered.as_str(), s, conclusion)
        },
    }
}

// ---------------------------------------------------------------------------
// Status dots.
// ---------------------------------------------------------------------------

/// The icon and tint class of a status dot. A conclusion decides once there
/// is one: success is a check mark, every failure an error, cancelled and
/// attention states a warning, neutral and skipped idle; before that the
/// pending states show an alarm, a running one the play sign, and anything
/// else the neutral question mark.
pub open spec fn presentation(status: Option<Seq<char>>, conclusion: Option<Seq<char>>) -> (Seq<char>, Seq<char>) {
    match conclusion {
        Some(c) => if c == "success"@ {
            ("object-select-symbolic"@, "success"@)
        } else if c == "failure"@ || c == "timed_out"@ || c == "startup_failure"@ {
            ("dialog-error-symbolic"@, "error"@)
        } else if c == "cancelled"@ {
            ("process-stop-symbolic"@, "warning"@)
        } else if c == "action_required"@ || c == "stale"@ {
            ("dialog-warning-symbolic"@, "warning"@)
        } else if c == "neutral"@ || c == "skipped"@ {
            ("media-skip-forward-symbolic"@, "idle"@)
        } else {
            ("dialog-question-symbolic"@, "idle"@)
        },
        None => match status {
            Some(s) => if s == "queued"@ || s == "waiting"@ || s == "pending"@ || s == "requested"@ {
                ("alarm-symbolic"@, "warning"@)
            } else if s == "in_progress"@ {
                ("media-playback-start-symbolic"@, "accent"@)
            } else {
                ("dialog-question-symbolic"@, "idle"@)
            },
            None => ("dialog-question-symbolic"@, "idle"@),
        },
    }
}

/// The icon and tint class a status dot shows for a status and conclusion.
pub fn status_presentation(status: Option<&str>, conclusion: Option<&str>) -> (r: (&'static str, &'static str))
    ensures
        (r.0@, r.1@) == presentation(opt_str_view(status), opt_str_view(conclusion)),
{
    match conclusion {
        Some(c) => {
            if str_eq(c, "success") {
                ("object-select-symbolic", "success")
            } else if str_eq(c, "failure") || str_eq(c, "timed_out") || str_eq(c, "startup_failure") {
                ("dialog-error-symbolic", "error")
            } else if str_eq(c, "cancelled") {
                ("process-stop-symbolic", "warning")
            } else if str_eq(c, "action_required") || str_eq(c, "stale") {
                ("dialog-warning-symbolic", "warning")
            } else if str_eq(c, "neutral") || str_eq(c, "skipped") {
                ("media-skip-forward-symbolic", "idle")
            } else {
                ("dialog-question-symbolic", "idle")
            }
        },
        None => match status {
            Some(s) => {
                if str_eq(s, "queued") || str_eq(s, "waiting") || str_eq(s, "pending") || str_eq(s, "requested") {
                    ("alarm-symbolic", "warning")
                } else if str_eq(s, "in_progress") {
                    ("media-playback-start-symbolic", "accent")
                } else {
                    ("dialog-question-symbolic", "idle")
                }
            },
            None => ("dialog-question-symbolic", "idle"),
        },
    }
}

/// The status dot icon of a run.
pub fn get_run_status_icon(run: &WorkflowRun) -> (r: &'static str)
    ensures
        r@ == presentation(run@.status, run@.conclusion).0,
{
    status_presentation(opt_as_str(&run.status), opt_as_str(&run.conclusion)).0
}

/// The status dot tint class of a run.
pub fn get_run_status_class(run: &WorkflowRun) -> (r: &'static str)
    ensures
        r@ == presentation(run@.status, run@.conclusion).1,
{
    status_presentation(opt_as_str(&run.status), opt_as_str(&run.conclusion)).1
}

/// The status dot icon of a job.
pub fn get_job_status_icon(job: &Job) -> (r: &'static str)
    ensures
        r@ == presentation(opt_seq(job.status), opt_seq(job.conclusion)).0,
{
    status_presentation(opt_as_str(&job.status), opt_as_str(&job.conclusion)).0
}

/// The status dot tint class of a job.
pub fn get_job_status_class(job: &Job) -> (r: &'static str)
    ensures
        r@ == presentation(opt_seq(job.status), opt_seq(job.conclusion)).1,
{
    status_presentation(opt_as_str(&job.status), opt_as_str(&job.conclusion)).1
}

// ---------------------------------------------------------------------------
// What a run reads as.
// ---------------------------------------------------------------------------

/// The first of two optional texts that is present.
pub open spec fn first_present(a: Option<Seq<char>>, b: Option<Seq<char>>) -> Option<Seq<char>> {
    match a {
        Some(x) => Some(x),
        None => b,
    }
}

/// A run's title: its display title, else its workflow name, else
/// "Workflow Run", with ` #<number>` after it when the run has a number.
pub open spec fn run_title(v: RunView) -> Seq<char> {
    let base = match first_present(v.display_title, v.name) {
        Some(t) => t,
        None => "Workflow Run"@,
    };
    match v.run_number {
        Some(n) => base + " #"@ + int_decimal(n as int),
        None => base,
    }
}

/// The title of a run, e.g. "Nightly #42".
pub fn format_run_title(run: &WorkflowRun) -> (out: String)
    ensures
        out@ == run_title(run@),
{
    let mut out = match &run.display_title {
        Some(t) => string_of(t.as_str()),
        None => match &run.name {
            Some(n) => string_of(n.as_str()),
            None => string_of("Workflow Run"),
        },
    };
    if let Some(num) = run.run_number {
        push_str(&mut out, " #");
        push_int_decimal(&mut out, num);
    }
    out
}

/// Who a run is attributed to: the actor, else the account that triggered it.
pub open spec fn actor_of(v: RunView) -> Option<Seq<char>> {
    first_present(v.actor, v.triggering_actor)
}

/// Where the first line of `m` ends: at the first newline, or the end.
pub open spec fn line_end(m: Seq<char>, from: int) -> int
    decreases m.len() - from,
{
    if from >= m.len() || from < 0 {
        m.len() as int
    } else if m[from] == '\n' {
        from
    } else {
        line_end(m, from + 1)
    }
}

/// The first line of a text as `str::lines` yields it: up to the first
/// newline, without the carriage return of a `\r\n` ending; none for an
/// empty text.
pub open spec fn first_line(m: Seq<char>) -> Option<Seq<char>> {
    if m.len() == 0 {
        None
    } else {
        let k = line_end(m, 0);
        if k < m.len() && k > 0 && m[k - 1] == '\r' {
            Some(m.take(k - 1))
        } else {
            Some(m.take(k))
        }
    }
}

/// The headline of a run's commit message: its first line.
pub open spec fn headline_of(v: RunView) -> Option<Seq<char>> {
    match v.head_commit {
        Some(Some(m)) => first_line(m),
        _ => None,
    }
}

/// How long a run took by GitHub's own timestamps, start to last update.
pub open spec fn run_duration(v: RunView) -> Option<Seq<char>> {
    match (v.run_started_at, v.updated_at) {
        (Some(a), Some(b)) => duration_between(a, b),
        _ => None,
    }
}

proof fn lemma_line_end_bounds(m: Seq<char>, from: int)
    requires
        0 <= from <= m.len(),
    ensures
        from <= line_end(m, from) <= m.len(),
        line_end(m, from) < m.len() ==> m[line_end(m, from)] == '\n',
    decreases m.len() - from,
{
    if from < m.len() && m[from] != '\n' {
        lemma_line_end_bounds(m, from + 1);
    }
}

fn first_line_of(m: &str) -> (r: Option<String>)
    ensures
        opt_seq(r) == first_line(m@),
{
    let chars = chars_of(m);
    if chars.len() == 0 {
        return None;
    }
    let mut k: usize = 0;
    while k < chars.len() && chars[k] != '\n'
        invariant
            k <= chars.len(),
            chars@ == m@,
            line_end(m@, 0) == line_end(m@, k as int),
        decreases chars.len() - k,
    {
        k = k + 1;
    }
    proof {
        lemma_line_end_bounds(m@, 0);
    }
    let end = if k < chars.len() && k > 0 && chars[k - 1] == '\r' {
        k - 1
    } else {
        k
    };
    let mut out = String::new();
    let mut i: usize = 0;
    while i < end
        invariant
            i <= end <= chars.len(),
            chars@ == m@,
            out@ == m@.take(i as int),
        decreases end - i,
    {
        push_char(&mut out, chars[i]);
        assert(m@.take(i + 1) =~= m@.take(i as int).push(m@[i as int]));
        i = i + 1;
    }
    Some(out)
}

fn user_login(u: &Option<crate::models::User>) -> (r: Option<String>)
    ensures
        opt_seq(r) == crate::models::login_of(*u),
{
    match u {
        Some(user) => Some(string_of(user.login.as_str())),
        None => None,
    }
}

impl WorkflowRun {
    /// The login the run is attributed to: the actor, else the account that
    /// triggered it.
    pub fn actor_login(&self) -> (r: Option<String>)
        ensures
            opt_seq(r) == actor_of(self@),
    {
        match user_login(&self.actor) {
            Some(a) => Some(a),
            None => user_login(&self.triggering_actor),
        }
    }

    /// The first line of the commit message the run was started for.
    pub fn commit_message_headline(&self) -> (r: Option<String>)
        ensures
            opt_seq(r) == headline_of(self@),
    {
        match &self.head_commit {
            Some(c) => match &c.message {
                Some(m) => first_line_of(m.as_str()),
                None => None,
            },
            None => None,
        }
    }

    /// How long the run took by GitHub's timestamps (from its start to its
    /// last update) on a clock face, e.g. "00:45".
    pub fn run_duration_string(&self) -> (r: Option<String>)
        ensures
            opt_seq(r) == run_duration(self@),
    {
        match (&self.run_started_at, &self.updated_at) {
            (Some(a), Some(b)) => duration_text(a.as_str(), b.as_str()),
            _ => None,
        }
    }
}

/// `label: value`.
pub open spec fn labeled(label: Seq<char>, value: Seq<char>) -> Seq<char> {
    label + ": "@ + value
}

fn labeled_line(label: &str, value: &str) -> (out: String)
    ensures
        out@ == labeled(label@, value@),
{
    let mut out = string_of(label);
    push_str(&mut out, ": ");
    push_str(&mut out, value);
    out
}

/// Pushes `line` when `value` is present.
pub open spec fn push_if(lines: Seq<Seq<char>>, label: Seq<char>, value: Option<Seq<char>>) -> Seq<Seq<char>> {
    match value {
        Some(v) => lines.push(labeled(label, v)),
        None => lines,
    }
}

/// The lines of a run's tooltip, each present only when there is something
/// to say: status, conclusion, branch, commit headline, who triggered it,
/// the event, the duration, when it started (or was created) and when it
/// was last updated.
pub open spec fn tooltip_lines(v: RunView) -> Seq<Seq<char>> {
    let st = friendly_status_text(v.status, v.conclusion);
    let l1 = if st.len() > 0 {
        Seq::<Seq<char>>::empty().push(labeled("Status"@, st))
    } else {
        Seq::<Seq<char>>::empty()
    };
    let ct = friendly_conclusion_text(v.conclusion);
    let l2 = if v.conclusion is Some && ct.len() > 0 {
        l1.push(labeled("Conclusion"@, ct))
    } else {
        l1
    };
    let l3 = push_if(l2, "Branch"@, v.head_branch);
    let l4 = push_if(l3, "Commit"@, headline_of(v));
    let l5 = push_if(l4, "Triggered by"@, actor_of(v));
    let l6 = push_if(l5, "Event"@, v.event);
    let l7 = push_if(l6, "Duration"@, run_duration(v));
    let l8 = push_if(l7, "Started"@, first_present(v.run_started_at, v.created_at));
    push_if(l8, "Updated"@, v.updated_at)
}

fn push_labeled(lines: &mut Vec<String>, label: &str, value: &Option<String>)
    ensures
        views_of(final(lines)@) == push_if(views_of(old(lines)@), label@, opt_seq(*value)),
{
    match value {
        Some(v) => push_part(lines, labeled_line(label, v.as_str())),
        None => {},
    }
}

/// A run's tooltip: its `tooltip_lines`, one per line.
pub fn format_run_tooltip(run: &WorkflowRun) -> (out: String)
    ensures
        out@ == join(tooltip_lines(run@), "\n"@),
{
    let mut lines: Vec<String> = Vec::new();
    let ghost v = run@;
    assert(views_of(lines@) =~= Seq::<Seq<char>>::empty());

    let status_text = friendly_status(opt_as_str(&run.status), opt_as_str(&run.conclusion));
    if chars_of(status_text.as_str()).len() > 0 {
        push_part(&mut lines, labeled_line("Status", status_text.as_str()));
    }
    if run.conclusion.is_some() {
        let conclusion_text = friendly_conclusion(opt_as_str(&run.conclusion));
        if chars_of(conclusion_text.as_str()).len() > 0 {
            push_part(&mut lines, labeled_line("Conclusion", conclusion_text.as_str()));
        }
    }
    push_labeled(&mut lines, "Branch", &run.head_branch);
    push_labeled(&mut lines, "Commit", &run.commit_message_headline());
    push_labeled(&mut lines, "Triggered by", &run.actor_login());
    push_labeled(&mut lines, "Event", &run.event);
    push_labeled(&mut lines, "Duration", &run.run_duration_string());
    if run.run_started_at.is_some() {
        push_labeled(&mut lines, "Started", &run.run_started_at);
    } else {
        push_labeled(&mut lines, "Started", &run.created_at);
    }
    push_labeled(&mut lines, "Updated", &run.updated_at);
    assert(views_of(lines@) == tooltip_lines(v));
    join_strings(&lines, "\n")
}

// ---------------------------------------------------------------------------
// Meta lines.
// ---------------------------------------------------------------------------

/// The timestamp a run's age is counted from: its start, else its creation,
/// else its last update.
pub open spec fn run_timestamp(v: RunView) -> Option<Seq<char>> {
    first_present(v.run_started_at, first_present(v.created_at, v.updated_at))
}

/// The timestamp a run's age is counted from (see `run_timestamp`).
pub fn run_timestamp_of(run: &WorkflowRun) -> (r: Option<&String>)
    ensures
        match r {
            Some(s) => run_timestamp(run@) == Some(s@),
            None => run_timestamp(run@) is None,
        },
{
    match &run.run_started_at {
        Some(s) => Some(s),
        None => match &run.created_at {
            Some(s) => Some(s),
            None => match &run.updated_at {
                Some(s) => Some(s),
                None => None,
            },
        },
    }
}

/// A run's age at the clock reading `now`, as "Just now", "5m ago",
/// "Yesterday" or a date: what its `run_timestamp` reads (see
/// `relative_time_from_iso`); empty when it has no timestamp that parses.
pub fn relative_time(run: &WorkflowRun, now: Instant, language: &str, localized: Option<&str>) -> (out: String)
    ensures
        run_timestamp(run@) is None ==> out@ == Seq::<char>::empty(),
        run_timestamp(run@) matches Some(t) ==> relative_reading(t, now, language@, opt_str_view(localized), out@),
        run_timestamp(run@) matches Some(t) && rfc3339_instant(t) is None ==> out@ == Seq::<char>::empty(),
{
    match run_timestamp_of(run) {
        Some(ts) => relative_time_from_iso(ts.as_str(), now, language, localized),
        None => String::new(),
    }
}

/// The parts of the meta line under a workflow's title: when its latest run
/// ran (if that reads as anything), its branch, its number.
pub open spec fn meta_parts(v: RunView, when: Seq<char>) -> Seq<Seq<char>> {
    let a = if when.len() > 0 {
        Seq::<Seq<char>>::empty().push(when)
    } else {
        Seq::<Seq<char>>::empty()
    };
    let b = match v.head_branch {
        Some(br) => a.push(br),
        None => a,
    };
    match v.run_number {
        Some(n) => b.push("#"@ + int_decimal(n as int)),
        None => b,
    }
}

/// The meta line under a workflow title, `<when> · <branch> · #<run>`, where
/// `when` is the latest run's age (see `relative_time`).
pub fn format_workflow_meta(run: &WorkflowRun, when: &str) -> (out: String)
    ensures
        out@ == join(meta_parts(run@, when@), " · "@),
{
    let mut parts: Vec<String> = Vec::new();
    assert(views_of(parts@) =~= Seq::<Seq<char>>::empty());
    if chars_of(when).len() > 0 {
        push_part(&mut parts, string_of(when));
    }
    if let Some(branch) = &run.head_branch {
        push_part(&mut parts, string_of(branch.as_str()));
    }
    if let Some(num) = run.run_number {
        let mut n = string_of("#");
        push_int_decimal(&mut n, num);
        push_part(&mut parts, n);
    }
    join_strings(&parts, " · ")
}

/// The parts of a run row's meta after its branch: who it is attributed
/// to, how long it ran (the live count while it runs, else GitHub's
/// duration), and when (if that reads as anything).
pub open spec fn rest_parts(v: RunView, live_elapsed: Option<Seq<char>>, when: Seq<char>) -> Seq<Seq<char>> {
    let a = match actor_of(v) {
        Some(x) => Seq::<Seq<char>>::empty().push(x),
        None => Seq::<Seq<char>>::empty(),
    };
    let b = match first_present(live_elapsed, run_duration(v)) {
        Some(d) => a.push(d),
        None => a,
    };
    if when.len() > 0 {
        b.push(when)
    } else {
        b
    }
}

/// The meta of a run row after its branch: `<actor> · <duration> · <when>`.
/// `live_elapsed` is the wall-clock `mm:ss` while the run is still going;
/// once it is done, GitHub's own duration applies.
pub fn run_meta_rest_text(run: &WorkflowRun, live_elapsed: Option<&str>, when: &str) -> (out: String)
    ensures
        out@ == join(rest_parts(run@, opt_str_view(live_elapsed), when@), " · "@),
{
    let mut parts: Vec<String> = Vec::new();
    assert(views_of(parts@) =~= Seq::<Seq<char>>::empty());
    if let Some(actor) = run.actor_login() {
        push_part(&mut parts, actor);
    }
    let duration = match live_elapsed {
        Some(e) => Some(string_of(e)),
        None => run.run_duration_string(),
    };
    if let Some(d) = duration {
        push_part(&mut parts, d);
    }
    if chars_of(when).len() > 0 {
        push_part(&mut parts, string_of(when));
    }
    join_strings(&parts, " · ")
}

/// Where a live run row counts up from: only while the run is active, from
/// its start, else its creation, else its last update.
pub open spec fn live_start(v: RunView) -> Option<Seq<char>> {
    if view_is_active(v) {
        run_timestamp(v)
    } else {
        None
    }
}

/// `Some(started_at)` when a run row should count up from the wall clock: a
/// dispatched run is live from the moment it is listed, so a run with no
/// confirmed start counts from its creation (or last update) instead.
pub fn run_live_start(run: &WorkflowRun) -> (r: Option<String>)
    ensures
        opt_seq(r) == live_start(run@),
{
    if !run.is_active() {
        return None;
    }
    match run_timestamp_of(run) {
        Some(s) => Some(string_of(s.as_str())),
        None => None,
    }
}

/// The meta of a live run for the reading `now`: the time since `started_at`
/// joined with the actor and `when`; `None` exactly for a start that does
/// not parse (or an instant chrono cannot hold).
pub open spec fn live_meta(run: RunView, started_at: Seq<char>, now: Instant, when: Seq<char>) -> Option<Seq<char>> {
    match running_at(Some(started_at), now) {
        Some(e) => Some(join(rest_parts(run, Some(e), when), " · "@)),
        None => None,
    }
}

/// One tick of a live run meta at the clock reading `now`.
pub fn run_meta_live_text(run: &WorkflowRun, started_at: &str, now: Instant, when: &str) -> (r: Option<String>)
    ensures
        opt_seq(r) == live_meta(run@, started_at@, now, when@),
{
    let start = string_of(started_at);
    match running_duration_string(Some(&start), now) {
        Some(elapsed) => Some(run_meta_rest_text(run, Some(elapsed.as_str()), when)),
        None => None,
    }
}

/// Whether a status reads as pending: queued, waiting, pending or requested.
pub open spec fn is_pending_status(s: Seq<char>) -> bool {
    s == "queued"@ || s == "waiting"@ || s == "pending"@ || s == "requested"@
}

/// The words for a workflow's latest run: its conclusion once there is one,
/// "In Progress" or "Queued" while it runs or waits, its friendly status
/// otherwise, and "Unknown" where all of that is empty.
pub open spec fn workflow_status_words(v: RunView) -> Seq<char> {
    let t = if v.conclusion is Some {
        friendly_conclusion_text(v.conclusion)
    } else {
        match v.status {
            Some(s) => if s == "in_progress"@ {
                "In Progress"@
            } else if is_pending_status(s) {
                "Queued"@
            } else {
                friendly_status_text(v.status, v.conclusion)
            },
            None => friendly_status_text(v.status, v.conclusion),
        }
    };
    if t.len() == 0 {
        "Unknown"@
    } else {
        t
    }
}

/// Human-readable status for a workflow's latest run, paired with the same
/// tint class its status dot uses, so the two can never disagree.
pub fn workflow_status_text(latest_run: &WorkflowRun) -> (r: (String, &'static str))
    ensures
        r.0@ == workflow_status_words(latest_run@),
        r.1@ == presentation(latest_run@.status, latest_run@.conclusion).1,
{
    let class = get_run_status_class(latest_run);
    let text = if latest_run.conclusion.is_some() {
        friendly_conclusion(opt_as_str(&latest_run.conclusion))
    } else {
        match &latest_run.status {
            Some(s) => {
                if str_eq(s.as_str(), "in_progress") {
                    string_of("In Progress")
                } else if str_eq(s.as_str(), "queued") || str_eq(s.as_str(), "waiting")
                    || str_eq(s.as_str(), "pending") || str_eq(s.as_str(), "requested") {
                    string_of("Queued")
                } else {
                    friendly_status(opt_as_str(&latest_run.status), opt_as_str(&latest_run.conclusion))
                }
            },
            None => friendly_status(opt_as_str(&latest_run.status), opt_as_str(&latest_run.conclusion)),
        }
    };
    let text = if chars_of(text.as_str()).len() == 0 {
        string_of("Unknown")
    } else {
        text
    };
    (text, class)
}

} // verus!
