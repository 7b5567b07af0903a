//! The job log viewer: which job of a run it opens on, which job the reader
//! is on as the run's jobs are refreshed, when a log comes from the cache and
//! when from GitHub, what a failed download says, and the file name a saved
//! log gets.
use vstd::prelude::*;
use std::collections::HashMap;
use crate::models::Job;
use crate::errors::{GitHubError, error_text};
use crate::chars::{trim, trim_end_at, skip_ws_from, trim_end_from, string_of_range};
use crate::text::{chars_of, opt_seq, string_of, push_str, str_eq};

verus! {

broadcast use vstd::std_specs::hash::group_hash_axioms;

/// Whether a conclusion reads as a failure: one that is neither `success`,
/// `skipped` nor `neutral`.
pub open spec fn is_failure(conclusion: Option<Seq<char>>) -> bool {
    conclusion matches Some(c) && c != "success"@ && c != "skipped"@ && c != "neutral"@
}

/// The first index whose job satisfies the failure test, if any.
pub open spec fn first_failed(jobs: Seq<Job>, from: int) -> Option<int>
    decreases jobs.len() - from,
{
    if from < 0 || from >= jobs.len() {
        None
    } else if is_failure(opt_seq(jobs[from].conclusion)) {
        Some(from)
    } else {
        first_failed(jobs, from + 1)
    }
}

/// The first index whose job has no conclusion yet, if any.
pub open spec fn first_unfinished(jobs: Seq<Job>, from: int) -> Option<int>
    decreases jobs.len() - from,
{
    if from < 0 || from >= jobs.len() {
        None
    } else if jobs[from].conclusion is None {
        Some(from)
    } else {
        first_unfinished(jobs, from + 1)
    }
}

/// The job a reader most likely wants: the first that failed, else the first
/// still running, else the first; none of an empty run.
pub open spec fn relevant_job(jobs: Seq<Job>) -> Option<int> {
    if jobs.len() == 0 {
        None
    } else {
        match first_failed(jobs, 0) {
            Some(i) => Some(i),
            None => match first_unfinished(jobs, 0) {
                Some(i) => Some(i),
                None => Some(0),
            },
        }
    }
}

/// The job a reader is shown first: in a run with a job whose conclusion is
/// present and is none of `success`, `skipped` and `neutral` (a failure,
/// a time-out, a cancellation, ...), the first such job; else the first job
/// still running; else the first job. An empty run has none.
pub proof fn lemma_relevant_job_law(jobs: Seq<Job>)
    ensures
        jobs.len() == 0 ==> relevant_job(jobs) is None,
        (exists|i: int| 0 <= i < jobs.len() && (opt_seq(#[trigger] jobs[i].conclusion) matches Some(c)
            && c != "success"@ && c != "skipped"@ && c != "neutral"@)) ==> (relevant_job(jobs) matches Some(k)
            && 0 <= k < jobs.len() && (opt_seq(jobs[k].conclusion) matches Some(c) && c != "success"@
            && c != "skipped"@ && c != "neutral"@) && forall|j: int| 0 <= j < k ==> !(opt_seq(
            #[trigger] jobs[j].conclusion) matches Some(c) && c != "success"@ && c != "skipped"@ && c
            != "neutral"@)),
        (jobs.len() > 0 && forall|i: int| 0 <= i < jobs.len() ==> !(opt_seq(#[trigger] jobs[i].conclusion) matches Some(c)
            && c != "success"@ && c != "skipped"@ && c != "neutral"@)) ==> (relevant_job(jobs) matches Some(k)
            && 0 <= k < jobs.len() && (jobs[k].conclusion is None || (k == 0 && forall|j: int|
            0 <= j < jobs.len() ==> #[trigger] jobs[j].conclusion is Some)) && forall|j: int| 0 <= j < k
            ==> #[trigger] jobs[j].conclusion is Some),
{
    lemma_first_failed(jobs, 0);
    lemma_first_unfinished(jobs, 0);
}

proof fn lemma_first_failed(jobs: Seq<Job>, from: int)
    requires
        0 <= from,
    ensures
        first_failed(jobs, from) matches Some(k) ==> from <= k < jobs.len() && is_failure(
            opt_seq(jobs[k].conclusion),
        ) && forall|j: int| from <= j < k ==> !is_failure(opt_seq(#[trigger] jobs[j].conclusion)),
        first_failed(jobs, from) is None ==> forall|j: int| from <= j < jobs.len() ==> !is_failure(
            opt_seq(#[trigger] jobs[j].conclusion),
        ),
    decreases jobs.len() - from,
{
    if from < jobs.len() && !is_failure(opt_seq(jobs[from].conclusion)) {
        lemma_first_failed(jobs, from + 1);
    }
}

proof fn lemma_first_unfinished(jobs: Seq<Job>, from: int)
    requires
        0 <= from,
    ensures
        first_unfinished(jobs, from) matches Some(k) ==> from <= k < jobs.len()
            && jobs[k].conclusion is None && forall|j: int| from <= j < k ==> #[trigger] jobs[j].conclusion is Some,
        first_unfinished(jobs, from) is None ==> forall|j: int| from <= j < jobs.len() ==> #[trigger] jobs[j].conclusion is Some,
    decreases jobs.len() - from,
{
    if from < jobs.len() && jobs[from].conclusion is Some {
        lemma_first_unfinished(jobs, from + 1);
    }
}

fn conclusion_is_failure(c: &Option<String>) -> (r: bool)
    ensures
        r == is_failure(opt_seq(*c)),
{
    match c {
        Some(v) => !str_eq(v.as_str(), "success") && !str_eq(v.as_str(), "skipped") && !str_eq(
            v.as_str(),
            "neutral",
        ),
        None => false,
    }
}

/// Picks the job a reader most likely wants to read.
pub fn most_relevant_job(jobs: &[Job]) -> (r: Option<usize>)
    ensures
        match r {
            Some(i) => relevant_job(jobs@) == Some(i as int),
            None => relevant_job(jobs@) is None,
        },
{
    if jobs.len() == 0 {
        return None;
    }
    let mut i: usize = 0;
    while i < jobs.len()
        invariant
            i <= jobs.len(),
            first_failed(jobs@, 0) == first_failed(jobs@, i as int),
        decreases jobs.len() - i,
    {
        if conclusion_is_failure(&jobs[i].conclusion) {
            return Some(i);
        }
        i = i + 1;
    }
    let mut j: usize = 0;
    while j < jobs.len()
        invariant
            j <= jobs.len(),
            first_failed(jobs@, 0) is None,
            first_unfinished(jobs@, 0) == first_unfinished(jobs@, j as int),
        decreases jobs.len() - j,
    {
        if jobs[j].conclusion.is_none() {
            return Some(j);
        }
        j = j + 1;
    }
    Some(0)
}

/// Whether a character is a Unicode control character.
pub open spec fn is_control(c: char) -> bool {
    (c as u32) <= 0x1F || (0x7F <= (c as u32) && (c as u32) <= 0x9F)
}

/// A character that a file name may not hold.
pub open spec fn is_unsafe_in_name(c: char) -> bool {
    c == '/' || c == '\\' || c == ':' || c == '*' || c == '?' || c == '"' || c == '<' || c == '>'
        || c == '|' || is_control(c)
}

/// The first index at or after `i` that is not a dot, or the length.
pub open spec fn skip_dots(s: Seq<char>, i: int) -> int
    decreases s.len() - i,
{
    if i < 0 {
        0
    } else if i >= s.len() {
        s.len() as int
    } else if s[i] == '.' {
        skip_dots(s, i + 1)
    } else {
        i
    }
}

/// The end of `s[..end]` without trailing dots.
pub open spec fn trim_dots_end(s: Seq<char>, end: int) -> int
    decreases end,
{
    if end <= 0 {
        0
    } else if s[end - 1] == '.' {
        trim_dots_end(s, end - 1)
    } else {
        end
    }
}

/// `s` without leading and trailing dots.
pub open spec fn trim_dots(s: Seq<char>) -> Seq<char> {
    let a = skip_dots(s, 0);
    let t = s.subrange(a, s.len() as int);
    t.subrange(0, trim_dots_end(t, t.len() as int))
}

/// A file name segment: each unsafe character becomes `_`; then whitespace,
/// dots and whitespace again are trimmed from both ends; nothing when
/// nothing is left.
pub open spec fn sanitized(input: Seq<char>) -> Option<Seq<char>> {
    let filtered = input.map_values(|c: char| if is_unsafe_in_name(c) { '_' } else { c });
    let cleaned = trim(trim_dots(trim(filtered)));
    if cleaned.len() == 0 {
        None
    } else {
        Some(cleaned)
    }
}

fn safe_char(c: char) -> (r: char)
    ensures
        r == if is_unsafe_in_name(c) { '_' } else { c },
{
    if c == '/' || c == '\\' || c == ':' || c == '*' || c == '?' || c == '"' || c == '<' || c
        == '>' || c == '|' || (c as u32) <= 0x1F || (0x7F <= (c as u32) && (c as u32) <= 0x9F) {
        '_'
    } else {
        c
    }
}

fn trim_dots_vec(s: &[char]) -> (r: Vec<char>)
    ensures
        r@ == trim_dots(s@),
{
    let mut a: usize = 0;
    while a < s.len() && s[a] == '.'
        invariant
            a <= s.len(),
            skip_dots(s@, 0) == skip_dots(s@, a as int),
        decreases s.len() - a,
    {
        a = a + 1;
    }
    let ghost t = s@.subrange(a as int, s@.len() as int);
    let mut b = s.len();
    while b > a && s[b - 1] == '.'
        invariant
            a <= b <= s.len(),
            t == s@.subrange(a as int, s@.len() as int),
            trim_dots_end(t, t.len() as int) == trim_dots_end(t, b - a),
        decreases b,
    {
        assert(t[b - a - 1] == s@[b - 1]);
        b = b - 1;
    }
    if b > a {
        assert(t[b - a - 1] == s@[b - 1]);
    }
    let mut out: Vec<char> = Vec::new();
    let mut k = a;
    while k < b
        invariant
            a <= k <= b <= s.len(),
            out@ == s@.subrange(a as int, k as int),
        decreases b - k,
    {
        out.push(s[k]);
        assert(s@.subrange(a as int, k + 1) =~= s@.subrange(a as int, k as int).push(s@[k as int]));
        k = k + 1;
    }
    assert(out@ =~= t.subrange(0, (b - a) as int));
    out
}

fn trim_vec(s: &[char]) -> (r: Vec<char>)
    ensures
        r@ == trim(s@),
{
    let a = skip_ws_from(s, 0);
    let b = trim_end_from(s, a, s.len());
    let mut out: Vec<char> = Vec::new();
    let mut k = a;
    while k < b
        invariant
            a <= k <= b <= s.len(),
            out@ == s@.subrange(a as int, k as int),
        decreases b - k,
    {
        out.push(s[k]);
        assert(s@.subrange(a as int, k + 1) =~= s@.subrange(a as int, k as int).push(s@[k as int]));
        k = k + 1;
    }
    proof {
        let t = crate::chars::trim_start(s@);
        assert(t =~= s@.subrange(a as int, s@.len() as int));
        assert(out@ =~= t.subrange(0, trim_end_at(t, t.len() as int)));
    }
    out
}

/// A run or job title made safe to use in a file name.
pub fn sanitize_filename_segment(input: &str) -> (r: Option<String>)
    ensures
        opt_seq(r) == sanitized(input@),
{
    let v = chars_of(input);
    let mut filtered: Vec<char> = Vec::new();
    let mut i: usize = 0;
    while i < v.len()
        invariant
            i <= v.len(),
            filtered@ == v@.take(i as int).map_values(|c: char| if is_unsafe_in_name(c) { '_' } else { c }),
        decreases v.len() - i,
    {
        filtered.push(safe_char(v[i]));
        assert(filtered@ =~= v@.take(i + 1).map_values(|c: char| if is_unsafe_in_name(c) { '_' } else { c }));
        i = i + 1;
    }
    assert(v@.take(v.len() as int) =~= v@);
    let t1 = trim_vec(filtered.as_slice());
    let t2 = trim_dots_vec(t1.as_slice());
    let t3 = trim_vec(t2.as_slice());
    if t3.len() == 0 {
        None
    } else {
        Some(string_of_range(t3.as_slice(), 0, t3.len()))
    }
}

/// `<run> - <job>.log`, each part made safe, `run` and `job` standing in for
/// a part that has nothing left.
pub open spec fn default_name(run_title: Seq<char>, job_title: Seq<char>) -> Seq<char> {
    let r = match sanitized(run_title) {
        Some(s) => s,
        None => "run"@,
    };
    let j = match sanitized(job_title) {
        Some(s) => s,
        None => "job"@,
    };
    r + " - "@ + j + ".log"@
}

/// The name a saved log is offered under.
pub fn default_file_name(run_title: &str, job_title: &str) -> (r: String)
    ensures
        r@ == default_name(run_title@, job_title@),
{
    let run_segment = match sanitize_filename_segment(run_title) {
        Some(s) => s,
        None => string_of("run"),
    };
    let job_segment = match sanitize_filename_segment(job_title) {
        Some(s) => s,
        None => string_of("job"),
    };
    let mut out = run_segment;
    push_str(&mut out, " - ");
    push_str(&mut out, job_segment.as_str());
    push_str(&mut out, ".log");
    out
}

/// The name a job is shown under: its name, else `Job`.
pub open spec fn display_name(job: Job) -> Seq<char> {
    match opt_seq(job.name) {
        Some(n) => n,
        None => "Job"@,
    }
}

/// The name a job is shown under.
pub fn job_display_name(job: &Job) -> (r: String)
    ensures
        r@ == display_name(*job),
{
    match &job.name {
        Some(n) => string_of(n.as_str()),
        None => string_of("Job"),
    }
}

/// Logs fetched while the viewer is open, by job id: only those of finished
/// jobs, since a running job is still writing its log.
pub struct LogCache {
    pub logs: HashMap<i64, String>,
}

/// The cache as plain values.
pub open spec fn cache_view(m: Map<i64, String>) -> Map<i64, Seq<char>> {
    m.map_values(|s: String| s@)
}

impl Default for LogCache {
    fn default() -> (r: Self)
        ensures
            cache_view(r.logs@) == Map::<i64, Seq<char>>::empty(),
    {
        let r = LogCache { logs: HashMap::new() };
        assert(cache_view(r.logs@) =~= Map::<i64, Seq<char>>::empty());
        r
    }
}

impl LogCache {
    /// The cached log of job `job_id`.
    pub fn get(&self, job_id: i64) -> (r: Option<String>)
        ensures
            opt_seq(r) == if cache_view(self.logs@).contains_key(job_id) {
                Some(cache_view(self.logs@)[job_id])
            } else {
                None
            },
    {
        match self.logs.get(&job_id) {
            Some(s) => Some(string_of(s.as_str())),
            None => None,
        }
    }

    /// Keeps `logs` for `job` when the job has finished.
    pub fn store(&mut self, job: &Job, logs: &str)
        ensures
            cache_view(final(self).logs@) == if job.conclusion is Some {
                cache_view(old(self).logs@).insert(job.id, logs@)
            } else {
                cache_view(old(self).logs@)
            },
    {
        if job.conclusion.is_some() {
            let ghost before = self.logs@;
            self.logs.insert(job.id, string_of(logs));
            assert(cache_view(self.logs@) =~= cache_view(before).insert(job.id, logs@));
        }
    }
}

/// What the viewer says when a log could not be loaded.
pub open spec fn fetch_error_text(e: GitHubError) -> Seq<char> {
    match e {
        GitHubError::NotFound => "Logs are not yet available for this job. GitHub only provides logs once the job starts streaming output or completes. Try refreshing in a few moments."@,
        GitHubError::Gone => "The logs for this run have expired and are no longer available."@,
        _ => "Unable to load logs right now. Please try again later.\n\nDetails: "@ + error_text(e),
    }
}

/// The text shown in place of a log that could not be loaded.
pub fn fetch_error_message(error: &GitHubError) -> (r: String)
    ensures
        r@ == fetch_error_text(*error),
{
    match error {
        GitHubError::NotFound => string_of(
            "Logs are not yet available for this job. GitHub only provides logs once the job starts streaming output or completes. Try refreshing in a few moments.",
        ),
        GitHubError::Gone => string_of(
            "The logs for this run have expired and are no longer available.",
        ),
        _ => {
            let mut s = string_of(
                "Unable to load logs right now. Please try again later.\n\nDetails: ",
            );
            push_str(&mut s, error.message().as_str());
            s
        },
    }
}

/// What opening a log takes: the cached copy, or a download of the job's log.
pub enum LoadStep {
    Cached(String),
    Fetch(i64),
}

/// What a finished download shows: the log, an explanation, or nothing
/// (when the reader has moved on or the window is gone).
pub enum LoadReply {
    Render(String),
    ShowError(String),
    Nothing,
}

/// The first index of a job with id `id`, if any.
pub open spec fn job_index(jobs: Seq<Job>, id: i64) -> Option<int>
    decreases jobs.len(),
{
    if jobs.len() == 0 {
        None
    } else {
        match job_index(jobs.drop_last(), id) {
            Some(i) => Some(i),
            None => if jobs.last().id == id {
                Some(jobs.len() - 1)
            } else {
                None
            },
        }
    }
}

proof fn lemma_job_index(jobs: Seq<Job>, id: i64)
    ensures
        job_index(jobs, id) matches Some(i) ==> 0 <= i < jobs.len() && jobs[i].id == id && forall|j: int| 0 <= j < i ==> jobs[j].id != id,
        job_index(jobs, id) is None ==> forall|j: int| 0 <= j < jobs.len() ==> jobs[j].id != id,
    decreases jobs.len(),
{
    if jobs.len() > 0 {
        lemma_job_index(jobs.drop_last(), id);
        assert forall|j: int| 0 <= j < jobs.len() - 1 implies jobs[j] == jobs.drop_last()[j] by {}
    }
}

fn find_job(jobs: &Vec<Job>, id: i64) -> (r: Option<usize>)
    ensures
        match r {
            Some(i) => job_index(jobs@, id) == Some(i as int) && i < jobs@.len() && jobs@[i as int].id == id,
            None => job_index(jobs@, id) is None,
        },
{
    proof {
        lemma_job_index(jobs@, id);
    }
    let mut i: usize = 0;
    while i < jobs.len()
        invariant
            i <= jobs.len(),
            forall|j: int| 0 <= j < i ==> jobs@[j].id != id,
        decreases jobs.len() - i,
    {
        if jobs[i].id == id {
            proof {
                lemma_job_index(jobs@, id);
                match job_index(jobs@, id) {
                    Some(k) => {
                        if k < i {
                        } else if k > i {
                        }
                    },
                    None => {},
                }
            }
            return Some(i);
        }
        i = i + 1;
    }
    None
}

/// The log viewer of one run: its jobs, the one on screen, and the cache.
pub struct LogViewer {
    pub run_title: String,
    pub run_id: i64,
    pub jobs: Vec<Job>,
    pub selected: usize,
    pub cache: LogCache,
}

impl LogViewer {
    /// The viewer's invariant: some job is on screen.
    pub open spec fn wf(&self) -> bool {
        self.selected < self.jobs@.len()
    }

    /// A viewer on job `selected` of `jobs` (the last job when `selected`
    /// lies past the list), for the run of the first job, with nothing
    /// cached. A viewer needs at least one job.
    pub fn new(run_title: String, jobs: Vec<Job>, selected: usize) -> (v: LogViewer)
        requires
            jobs@.len() > 0,
        ensures
            v.wf(),
            v.jobs@ == jobs@,
            v.selected == if selected < jobs@.len() {
                selected as int
            } else {
                jobs@.len() - 1
            },
            v.run_id == jobs@[0].run_id,
            v.run_title@ == run_title@,
            cache_view(v.cache.logs@) == Map::<i64, Seq<char>>::empty(),
    {
        let last = jobs.len() - 1;
        let selected = if selected < last { selected } else { last };
        let run_id = jobs[0].run_id;
        LogViewer { run_title, run_id, jobs, selected, cache: LogCache::default() }
    }

    /// The id of the job on screen.
    pub fn selected_job_id(&self) -> (r: i64)
        requires
            self.wf(),
        ensures
            r == self.jobs@[self.selected as int].id,
    {
        self.jobs[self.selected].id
    }

    /// The name of the job on screen.
    pub fn selected_job_name(&self) -> (r: String)
        requires
            self.wf(),
        ensures
            r@ == display_name(self.jobs@[self.selected as int]),
    {
        job_display_name(&self.jobs[self.selected])
    }

    /// The reader picked row `index`. Ignored while the list is being
    /// rebuilt, for a row past the end, and for the job already on screen;
    /// otherwise that job goes on screen. Answers whether it did.
    pub fn show_job(&mut self, index: usize, rebuilding: bool) -> (r: bool)
        requires
            old(self).wf(),
        ensures
            final(self).wf(),
            r == (!rebuilding && index < old(self).jobs@.len() && index != old(self).selected),
            final(self).selected == if r { index } else { old(self).selected },
            final(self).jobs == old(self).jobs,
            final(self).cache == old(self).cache,
            final(self).run_id == old(self).run_id,
            final(self).run_title == old(self).run_title,
    {
        if rebuilding || index >= self.jobs.len() || index == self.selected {
            return false;
        }
        self.selected = index;
        true
    }

    /// How to open the log on screen: from the cache unless `force` or it
    /// was never cached, else by downloading it.
    pub fn begin_load(&self, force: bool) -> (r: LoadStep)
        requires
            self.wf(),
        ensures
            ({
                let id = self.jobs@[self.selected as int].id;
                let c = cache_view(self.cache.logs@);
                match r {
                    LoadStep::Cached(log) => !force && c.contains_key(id) && log@ == c[id],
                    LoadStep::Fetch(job_id) => job_id == id && (force || !c.contains_key(id)),
                }
            }),
    {
        let job_id = self.selected_job_id();
        if !force {
            match self.cache.get(job_id) {
                Some(cached) => return LoadStep::Cached(cached),
                None => {},
            }
        }
        LoadStep::Fetch(job_id)
    }

    /// A download of job `job_id`'s log finished. A log is cached when the
    /// job is still listed and has finished; either answer is shown only
    /// when that job is still on screen and the window is visible.
    pub fn finish_load(&mut self, job_id: i64, result: Result<String, GitHubError>, on_screen: bool) -> (r: LoadReply)
        requires
            old(self).wf(),
        ensures
            final(self).wf(),
            final(self).jobs == old(self).jobs,
            final(self).selected == old(self).selected,
            ({
                let showing = old(self).jobs@[old(self).selected as int].id == job_id && on_screen;
                match result {
                    Ok(logs) => {
                        &&& cache_view(final(self).cache.logs@) == match job_index(old(self).jobs@, job_id) {
                            Some(i) => if old(self).jobs@[i].conclusion is Some {
                                cache_view(old(self).cache.logs@).insert(job_id, logs@)
                            } else {
                                cache_view(old(self).cache.logs@)
                            },
                            None => cache_view(old(self).cache.logs@),
                        }
                        &&& match r {
                            LoadReply::Render(t) => showing && t@ == logs@,
                            LoadReply::ShowError(_) => false,
                            LoadReply::Nothing => !showing,
                        }
                    },
                    Err(e) => {
                        &&& cache_view(final(self).cache.logs@) == cache_view(old(self).cache.logs@)
                        &&& match r {
                            LoadReply::Render(_) => false,
                            LoadReply::ShowError(t) => showing && t@ == fetch_error_text(e),
                            LoadReply::Nothing => !showing,
                        }
                    },
                }
            }),
    {
        let still_showing = self.selected_job_id() == job_id && on_screen;
        match result {
            Ok(logs) => {
                match find_job(&self.jobs, job_id) {
                    Some(i) => {
                        self.cache.store(&self.jobs[i], logs.as_str());
                    },
                    None => {},
                }
                if still_showing {
                    LoadReply::Render(logs)
                } else {
                    LoadReply::Nothing
                }
            },
            Err(error) => {
                if still_showing {
                    LoadReply::ShowError(fetch_error_message(&error))
                } else {
                    LoadReply::Nothing
                }
            },
        }
    }

    /// Fresh jobs of the run arrived. An empty answer, or one for a window
    /// that is gone, changes nothing (`None`). Otherwise the jobs are
    /// replaced and the reader stays on the job with the same id, or goes to
    /// the first job when it left the run; the answer says whether it stayed.
    pub fn apply_jobs(&mut self, jobs: Vec<Job>, on_screen: bool) -> (r: Option<bool>)
        requires
            old(self).wf(),
        ensures
            final(self).wf(),
            final(self).cache == old(self).cache,
            (jobs@.len() == 0 || !on_screen) ==> r is None && final(self).jobs == old(self).jobs
                && final(self).selected == old(self).selected,
            (jobs@.len() > 0 && on_screen) ==> {
                let id = old(self).jobs@[old(self).selected as int].id;
                &&& final(self).jobs@ == jobs@
                &&& r == Some(job_index(jobs@, id) is Some)
                &&& final(self).selected == match job_index(jobs@, id) {
                    Some(i) => i,
                    None => 0,
                }
            },
    {
        if jobs.len() == 0 || !on_screen {
            return None;
        }
        let current_id = self.selected_job_id();
        let found = find_job(&jobs, current_id);
        proof {
            lemma_job_index(jobs@, current_id);
        }
        let selected = match found {
            Some(i) => i,
            None => 0,
        };
        self.selected = selected;
        self.jobs = jobs;
        Some(found.is_some())
    }

    /// The name a saved log of the job on screen is offered under.
    pub fn save_file_name(&self) -> (r: String)
        requires
            self.wf(),
        ensures
            r@ == default_name(self.run_title@, display_name(self.jobs@[self.selected as int])),
    {
        let name = self.selected_job_name();
        default_file_name(self.run_title.as_str(), name.as_str())
    }
}

/// What copying the log says, and whether it copies: nothing to copy for an
/// empty log, an error without a display, else a confirmation.
pub open spec fn copy_outcome(empty: bool, has_display: bool) -> (Seq<char>, u32, bool) {
    if empty {
        ("Logs are empty; nothing to copy"@, 3, false)
    } else if !has_display {
        ("Unable to access the clipboard"@, 5, false)
    } else {
        ("Logs copied to clipboard"@, 3, true)
    }
}

/// The toast (and its timeout in seconds) a copy of `text` shows, and
/// whether the text goes to the clipboard.
pub fn copy_logs_outcome(text: &str, has_display: bool) -> (r: (String, u32, bool))
    ensures
        (r.0@, r.1, r.2) == copy_outcome(text@.len() == 0, has_display),
{
    if text.is_empty() {
        (string_of("Logs are empty; nothing to copy"), 3, false)
    } else if !has_display {
        (string_of("Unable to access the clipboard"), 5, false)
    } else {
        (string_of("Logs copied to clipboard"), 3, true)
    }
}

} // verus!
