//! The jobs of an expanded run: what a finished job listing does to the
//! jobs box and the run's job counts, which jobs a log window opens over,
//! how a step is captioned, and the status dots' glyph sizes.
use vstd::prelude::*;
use crate::text::{push_int_decimal, string_of, opt_seq, int_decimal};
use crate::models::{Job, JobStep};
use crate::errors::{GitHubError, error_text, user_message};
use crate::workflow_row::{JobSummary, summary_of};

verus! {

// ---------------------------------------------------------------------------
// Status dots.
// ---------------------------------------------------------------------------

/// The dot of a workflow row.
pub const WORKFLOW_DOT_SIZE: i32 = 26;
/// The dot of a run row.
pub const RUN_DOT_SIZE: i32 = 18;
/// The dot of a job card.
pub const JOB_DOT_SIZE: i32 = 16;
/// The dot of a step row; even like the others, see `icon_pixel_size`.
pub const STEP_DOT_SIZE: i32 = 14;

/// The smallest glyph a dot shows.
pub const MIN_GLYPH: i32 = 8;
/// The largest glyph a dot shows.
pub const MAX_GLYPH: i32 = 14;

/// Rust's `/ 2` on an `i32`, which cuts toward zero.
pub open spec fn half_toward_zero(n: int) -> int {
    if n >= 0 {
        n / 2
    } else {
        -((-n) / 2)
    }
}

/// The glyph size of a dot: roughly half the circle, clamped to 8..=14, and
/// moved by one where needed so that the margin around it is even. GTK
/// centres a child by integer division, so an odd margin would leave the
/// glyph half a pixel off centre.
pub open spec fn glyph_size(dot_size: int) -> int {
    let half = half_toward_zero(dot_size);
    let target = if half < MIN_GLYPH {
        MIN_GLYPH as int
    } else if half > MAX_GLYPH {
        MAX_GLYPH as int
    } else {
        half
    };
    if (dot_size - target) % 2 == 0 {
        target
    } else if target > MIN_GLYPH {
        target - 1
    } else {
        target + 1
    }
}

/// The glyph size of a dot of `dot_size` pixels.
pub fn icon_pixel_size(dot_size: i32) -> (r: i32)
    requires
        dot_size > i32::MIN + MAX_GLYPH,
    ensures
        r == glyph_size(dot_size as int),
{
    let half = dot_size / 2;
    let target = if half < MIN_GLYPH {
        MIN_GLYPH
    } else if half > MAX_GLYPH {
        MAX_GLYPH
    } else {
        half
    };
    let margin = dot_size - target;
    let even = if margin >= 0 {
        margin % 2 == 0
    } else {
        (-margin) % 2 == 0
    };
    if even {
        target
    } else if target > MIN_GLYPH {
        target - 1
    } else {
        target + 1
    }
}

/// Every dot's glyph stays in the legible range and leaves an even margin,
/// so it sits exactly on the dot's centre.
pub proof fn lemma_glyph_centred(dot_size: int)
    ensures
        MIN_GLYPH <= glyph_size(dot_size) <= MAX_GLYPH,
        (dot_size - glyph_size(dot_size)) % 2 == 0,
{
}

/// The tint class a dot wears: the status class, or `idle` for none.
pub fn dot_class(status_class: &str) -> (r: &str)
    ensures
        status_class@.len() == 0 ==> r@ == "idle"@,
        status_class@.len() > 0 ==> r@ == status_class@,
{
    if crate::text::chars_of(status_class).len() == 0 {
        "idle"
    } else {
        status_class
    }
}

// ---------------------------------------------------------------------------
// Steps and log windows.
// ---------------------------------------------------------------------------

/// The caption of a step: its name, or `#<n>` by its position.
pub fn step_title(step: &JobStep, display_number: u32) -> (out: String)
    ensures
        out@ == match opt_seq(step.name) {
            Some(n) => n,
            None => "#"@ + int_decimal(display_number as int),
        },
{
    match &step.name {
        Some(n) => string_of(n.as_str()),
        None => {
            let mut out = string_of("#");
            push_int_decimal(&mut out, display_number as i64);
            out
        },
    }
}

/// Whether a list of jobs holds one with the given id.
pub open spec fn has_job(jobs: Seq<Job>, id: i64) -> bool {
    exists|i: int| 0 <= i < jobs.len() && #[trigger] jobs[i].id == id
}

/// The views of a list of jobs.
pub open spec fn job_views(jobs: Seq<Job>) -> Seq<crate::models::JobView> {
    jobs.map_values(|j: Job| j@)
}

fn find_job(jobs: &Vec<Job>, id: i64) -> (r: Option<usize>)
    ensures
        match r {
            Some(i) => i < jobs.len() && jobs@[i as int].id == id
                && forall|k: int| 0 <= k < i ==> jobs@[k].id != id,
            None => !has_job(jobs@, id),
        },
{
    let mut i: usize = 0;
    while i < jobs.len()
        invariant
            i <= jobs.len(),
            forall|k: int| 0 <= k < i ==> jobs@[k].id != id,
        decreases jobs.len() - i,
    {
        if jobs[i].id == id {
            return Some(i);
        }
        i = i + 1;
    }
    None
}

/// The jobs a log window opened from a job card lists, and which of them it
/// selects: all of the run's jobs with this one selected where the run's
/// list holds it (its first occurrence), else this job alone.
pub fn jobs_for_logs(run_jobs: &Vec<Job>, job: &Job) -> (r: (Vec<Job>, usize))
    ensures
        has_job(run_jobs@, job.id) ==> {
            &&& job_views(r.0@) == job_views(run_jobs@)
            &&& r.1 < run_jobs.len()
            &&& run_jobs@[r.1 as int].id == job.id
            &&& forall|k: int| 0 <= k < r.1 ==> run_jobs@[k].id != job.id
        },
        !has_job(run_jobs@, job.id) ==> {
            &&& job_views(r.0@) == seq![job@]
            &&& r.1 == 0
        },
{
    match find_job(run_jobs, job.id) {
        Some(i) => {
            let mut all: Vec<Job> = Vec::new();
            let mut k: usize = 0;
            while k < run_jobs.len()
                invariant
                    k <= run_jobs.len(),
                    all.len() == k,
                    job_views(all@) == job_views(run_jobs@.take(k as int)),
                decreases run_jobs.len() - k,
            {
                let ghost prev = all@;
                let d = run_jobs[k].duplicate();
                all.push(d);
                proof {
                    let a = job_views(all@);
                    let b = job_views(run_jobs@.take(k + 1));
                    assert forall|j: int| 0 <= j < a.len() implies a[j] == b[j] by {
                        if j < k {
                            assert(job_views(prev)[j] == job_views(run_jobs@.take(k as int))[j]);
                        }
                    }
                    assert(a =~= b);
                }
                k = k + 1;
            }
            assert(run_jobs@.take(run_jobs.len() as int) =~= run_jobs@);
            (all, i)
        },
        None => {
            let mut one: Vec<Job> = Vec::new();
            one.push(job.duplicate());
            assert(job_views(one@) =~= seq![job@]);
            (one, 0)
        },
    }
}

// ---------------------------------------------------------------------------
// A finished job listing.
// ---------------------------------------------------------------------------

/// What happens to a run's stored job counts.
#[derive(Debug, Clone, Copy, PartialEq, Eq, Structural)]
pub enum SummaryChange {
    /// Left as they are.
    Keep,
    /// Dropped: there is nothing to count.
    Remove,
    /// Replaced by these counts.
    Store(JobSummary),
}

/// What the jobs box shows after a listing.
#[derive(Debug, Clone)]
pub enum JobsContent {
    /// The "No jobs found" placeholder (also on background refreshes, so
    /// that the box is never left empty and unreloadable).
    NoJobs,
    /// One card per listed job.
    Rows,
    /// "Unable to load jobs" with this detail and a retry button.
    Failed { detail: String },
    /// Nothing new: a background refresh failed and the old content stays.
    Unchanged,
}

/// What a finished job listing does.
pub struct JobsReplyPlan {
    /// Whether the jobs box is emptied first.
    pub clear: bool,
    /// What happens to the run's job counts.
    pub summary: SummaryChange,
    /// What the jobs box shows.
    pub content: JobsContent,
}

/// The plan for a finished job listing. A listing always empties the box
/// and refreshes the counts (dropped for no jobs or nothing countable,
/// stored otherwise); a failure empties it and shows the error only when
/// the user asked, and leaves a background refresh's content alone.
pub fn jobs_reply_plan(result: &Result<Vec<Job>, GitHubError>, background: bool) -> (p: JobsReplyPlan)
    requires
        result matches Ok(jobs) ==> jobs.len() < 0x7fff_ffff,
    ensures
        p.clear == (result is Ok || !background),
        match result {
            Ok(jobs) => {
                let (c, r, q) = summary_of(jobs@);
                &&& jobs.len() == 0 ==> p.content is NoJobs && p.summary == SummaryChange::Remove
                &&& jobs.len() > 0 ==> p.content is Rows
                &&& jobs.len() > 0 && c == 0 && r == 0 && q == 0 ==> p.summary == SummaryChange::Remove
                &&& jobs.len() > 0 && !(c == 0 && r == 0 && q == 0) ==> p.summary == SummaryChange::Store(
                    JobSummary { completed: c as i32, running: r as i32, queued: q as i32 },
                )
            },
            Err(e) => {
                &&& p.summary == SummaryChange::Keep
                &&& background ==> p.content is Unchanged
                &&& !background ==> (p.content matches JobsContent::Failed { detail } && detail@ == user_message(
                    error_text(*e),
                ))
            },
        },
{
    let clear = result.is_ok() || !background;
    match result {
        Ok(jobs) => {
            if jobs.len() == 0 {
                JobsReplyPlan { clear, summary: SummaryChange::Remove, content: JobsContent::NoJobs }
            } else {
                let summary = JobSummary::from_jobs(jobs.as_slice());
                let change = if summary.is_empty() {
                    SummaryChange::Remove
                } else {
                    SummaryChange::Store(summary)
                };
                JobsReplyPlan { clear, summary: change, content: JobsContent::Rows }
            }
        },
        Err(e) => {
            if background {
                JobsReplyPlan { clear, summary: SummaryChange::Keep, content: JobsContent::Unchanged }
            } else {
                let message = e.message();
                let detail = crate::errors::user_message_from(message.as_str());
                JobsReplyPlan { clear, summary: SummaryChange::Keep, content: JobsContent::Failed { detail } }
            }
        },
    }
}

/// Starting a listing with the flag at `in_flight`: whether it starts, and
/// the flag afterwards (set either way).
pub open spec fn begin_listing(in_flight: bool) -> (bool, bool) {
    (!in_flight, true)
}

/// A second listing of a run never starts while one is under way, whatever
/// the flag was before the first; once the first is answered (the flag
/// cleared), the next one starts.
pub proof fn lemma_listing_never_doubles(in_flight: bool)
    ensures
        !begin_listing(begin_listing(in_flight).1).0,
        begin_listing(false).0,
{
}

/// Whether a job listing may start: not while one is already under way for
/// the same run.
pub struct JobLoadFlag {
    pub in_flight: bool,
}

impl JobLoadFlag {
    /// A run with no listing under way.
    pub fn new() -> (f: JobLoadFlag)
        ensures
            !f.in_flight,
    {
        JobLoadFlag { in_flight: false }
    }

    /// Starts a listing when none is under way; says whether it started.
    pub fn try_begin(&mut self) -> (started: bool)
        ensures
            (started, final(self).in_flight) == begin_listing(old(self).in_flight),
    {
        if self.in_flight {
            false
        } else {
            self.in_flight = true;
            true
        }
    }

    /// Marks the listing as answered.
    pub fn finish(&mut self)
        ensures
            !final(self).in_flight,
    {
        self.in_flight = false;
    }
}

} // verus!
