//! Timestamps as GitHub reports them (RFC 3339 text) and what the views
//! read from them: a run's age ("5m ago"), a clock reading of a duration
//! ("01:05") and a numeric date for anything older than a week.
//!
//! Parsing, the current time, the difference of two instants and the local
//! calendar date come from `chrono`; the wording is this module's own.
use vstd::prelude::*;
use chrono::{DateTime, Datelike, Local};
use crate::text::{push_str, push_char, push_decimal, string_of, str_eq, decimal, digit_char, digit, opt_seq};
use crate::chars::{trim, trimmed_range};
use crate::text::chars_of;

verus! {

/// An instant as chrono counts it: whole seconds since 1970-01-01 UTC and
/// the nanoseconds past them (past 999,999,999 only inside a leap second).
#[derive(Clone, Copy, Debug, PartialEq, Eq, Structural)]
pub struct Instant {
    pub secs: i64,
    pub nanos: u32,
}

/// A calendar date in the machine's time zone.
#[derive(Clone, Copy, Debug, PartialEq, Eq, Structural)]
pub struct LocalDate {
    pub year: i32,
    pub month: u32,
    pub day: u32,
}

/// The instant chrono reads from an RFC 3339 text, as (seconds, nanoseconds),
/// or `None` where it refuses the text.
pub uninterp spec fn rfc3339_instant(text: Seq<char>) -> Option<(i64, u32)>;

/// The whole seconds from `earlier` to `later` as chrono counts them, or
/// `None` where chrono cannot represent one of the two instants.
pub uninterp spec fn chrono_seconds_between(later: (i64, u32), earlier: (i64, u32)) -> Option<i64>;

/// Whether chrono can hold the instant (`DateTime::from_timestamp` gives
/// one back for it).
pub uninterp spec fn chrono_represents(instant: (i64, u32)) -> bool;

/// An instant as the pair the names above take.
pub open spec fn pair_of(i: Instant) -> (i64, u32) {
    (i.secs, i.nanos)
}

/// `DateTime::parse_from_rfc3339`, read out as the instant's timestamp and
/// sub-second nanoseconds (`timestamp`, `timestamp_subsec_nanos`). The
/// result is a function of the text; which texts chrono accepts, and how it
/// reads them, is left to the name. chrono documents `from_timestamp` to
/// round-trip with this read-out, so the instant is one it can hold.
#[verifier::external_body]
fn parse_instant(text: &str) -> (r: Option<Instant>)
    ensures
        match r {
            Some(i) => rfc3339_instant(text@) == Some(pair_of(i)) && chrono_represents(pair_of(i)),
            None => rfc3339_instant(text@) is None,
        },
{
    match DateTime::parse_from_rfc3339(text) {
        Ok(dt) => Some(Instant { secs: dt.timestamp(), nanos: dt.timestamp_subsec_nanos() }),
        Err(_) => None,
    }
}

/// `DateTime::signed_duration_since` read out by `TimeDelta::num_seconds`,
/// on two instants rebuilt with `DateTime::from_timestamp` (which chrono
/// documents to round-trip with the read-out above, and to refuse what it
/// cannot represent). Stated beyond the name: away from leap seconds the
/// count is the exact difference cut toward zero to whole seconds, as the
/// source of `num_seconds` shows.
#[verifier::external_body]
fn seconds_between(later: Instant, earlier: Instant) -> (r: Option<i64>)
    ensures
        r == chrono_seconds_between(pair_of(later), pair_of(earlier)),
        r is Some <==> (chrono_represents(pair_of(later)) && chrono_represents(pair_of(earlier))),
        r matches Some(s) ==> (later.nanos < 1_000_000_000 && earlier.nanos < 1_000_000_000
            ==> truncated_seconds(later, earlier) == s),
{
    match (
        DateTime::from_timestamp(later.secs, later.nanos),
        DateTime::from_timestamp(earlier.secs, earlier.nanos),
    ) {
        (Some(a), Some(b)) => Some(a.signed_duration_since(b).num_seconds()),
        _ => None,
    }
}

/// The calendar date of an instant in the machine's time zone
/// (`DateTime::from_timestamp`, `with_timezone(&Local)`, then `year`,
/// `month`, `day`). It depends on the machine's zone, so only the ranges
/// chrono documents for month and day are stated, and that there is one
/// for every instant chrono can hold.
#[verifier::external_body]
fn local_date(at: Instant) -> (r: Option<LocalDate>)
    ensures
        r matches Some(d) ==> 1 <= d.month <= 12 && 1 <= d.day <= 31,
        chrono_represents(pair_of(at)) ==> r is Some,
{
    match DateTime::from_timestamp(at.secs, at.nanos) {
        Some(utc) => {
            let local = utc.with_timezone(&Local);
            Some(LocalDate { year: local.year(), month: local.month(), day: local.day() })
        },
        None => None,
    }
}

/// The exact span from `earlier` to `later` in nanoseconds.
pub open spec fn span_nanos(later: Instant, earlier: Instant) -> int {
    (later.secs - earlier.secs) * 1_000_000_000 + (later.nanos - earlier.nanos)
}

/// The span from `earlier` to `later` in whole seconds, cut toward zero.
pub open spec fn truncated_seconds(later: Instant, earlier: Instant) -> int {
    let d = span_nanos(later, earlier);
    if d >= 0 {
        d / 1_000_000_000
    } else {
        -((-d) / 1_000_000_000)
    }
}

// ---------------------------------------------------------------------------
// Ages.
// ---------------------------------------------------------------------------

/// How old something `seconds` old reads: "Just now" under a minute, then
/// whole minutes, hours and days ("5m ago", "3h ago", "Yesterday", "4d ago"),
/// and `None` from a week on, where a date is shown instead.
pub open spec fn age_phrase(seconds: int) -> Option<Seq<char>> {
    if seconds < 60 {
        Some("Just now"@)
    } else if seconds < 3600 {
        Some(decimal((seconds / 60) as nat) + "m ago"@)
    } else if seconds < 86400 {
        Some(decimal((seconds / 3600) as nat) + "h ago"@)
    } else if seconds < 604800 {
        if seconds / 86400 == 1 {
            Some("Yesterday"@)
        } else {
            Some(decimal((seconds / 86400) as nat) + "d ago"@)
        }
    } else {
        None
    }
}

fn count_text(n: u64, suffix: &str) -> (out: String)
    ensures
        out@ == decimal(n as nat) + suffix@,
{
    let mut out = String::new();
    push_decimal(&mut out, n);
    push_str(&mut out, suffix);
    out
}

/// The age phrase for `seconds`, or `None` from a week on.
pub fn age_text(seconds: i64) -> (r: Option<String>)
    ensures
        opt_seq(r) == age_phrase(seconds as int),
{
    if seconds < 60 {
        Some(string_of("Just now"))
    } else if seconds < 3600 {
        Some(count_text((seconds / 60) as u64, "m ago"))
    } else if seconds < 86400 {
        Some(count_text((seconds / 3600) as u64, "h ago"))
    } else if seconds < 604800 {
        let days = seconds / 86400;
        if days == 1 {
            Some(string_of("Yesterday"))
        } else {
            Some(count_text(days as u64, "d ago"))
        }
    } else {
        None
    }
}

// ---------------------------------------------------------------------------
// Numeric dates.
// ---------------------------------------------------------------------------

/// The order a language writes a numeric date in.
#[derive(Clone, Copy, Debug, PartialEq, Eq, Structural)]
pub enum DateOrder {
    /// `01/08/2024`
    MonthDayYear,
    /// `2024/01/08`
    YearMonthDay,
    /// `08/01/2024`
    DayMonthYear,
    /// `08.01.2024`
    DottedDayMonthYear,
    /// `2024-01-08`
    Iso,
}

/// The numeric date order of a language code: American English month
/// first, Simplified Chinese year first, most others day first (with dots in
/// German, Dutch and Russian), and ISO order otherwise.
pub open spec fn date_order_for(language: Seq<char>) -> DateOrder {
    if language == "en"@ {
        DateOrder::MonthDayYear
    } else if language == "zh_Hans"@ {
        DateOrder::YearMonthDay
    } else if language == "pt_BR"@ || language == "fr"@ || language == "es"@
        || language == "hi"@ || language == "ar"@ || language == "bn"@ || language == "ur"@ {
        DateOrder::DayMonthYear
    } else if language == "de"@ || language == "nl"@ || language == "ru"@ {
        DateOrder::DottedDayMonthYear
    } else {
        DateOrder::Iso
    }
}

/// The numeric date order for a language code.
pub fn fallback_date_order(language: &str) -> (r: DateOrder)
    ensures
        r == date_order_for(language@),
{
    if str_eq(language, "en") {
        DateOrder::MonthDayYear
    } else if str_eq(language, "zh_Hans") {
        DateOrder::YearMonthDay
    } else if str_eq(language, "pt_BR") || str_eq(language, "fr") || str_eq(language, "es")
        || str_eq(language, "hi") || str_eq(language, "ar") || str_eq(language, "bn")
        || str_eq(language, "ur") {
        DateOrder::DayMonthYear
    } else if str_eq(language, "de") || str_eq(language, "nl") || str_eq(language, "ru") {
        DateOrder::DottedDayMonthYear
    } else {
        DateOrder::Iso
    }
}

/// A number under a hundred in two digits (`%m`, `%d`).
pub open spec fn two_digits(n: nat) -> Seq<char> {
    if n < 10 {
        seq!['0', digit_char(n)]
    } else {
        decimal(n)
    }
}

/// A number under ten thousand zero-padded to four digits.
pub open spec fn four_digits(n: nat) -> Seq<char> {
    if n < 10 {
        seq!['0', '0', '0'] + decimal(n)
    } else if n < 100 {
        seq!['0', '0'] + decimal(n)
    } else if n < 1000 {
        seq!['0'] + decimal(n)
    } else {
        decimal(n)
    }
}

/// A year as `%Y` writes it: four digits within 0..=9999, otherwise signed
/// and padded to four digits after the sign.
pub open spec fn year_text(y: int) -> Seq<char> {
    if 0 <= y <= 9999 {
        four_digits(y as nat)
    } else if y > 9999 {
        seq!['+'] + decimal(y as nat)
    } else if -y <= 9999 {
        seq!['-'] + four_digits((-y) as nat)
    } else {
        seq!['-'] + decimal((-y) as nat)
    }
}

/// A date written in the given order.
pub open spec fn numeric_date(d: LocalDate, order: DateOrder) -> Seq<char> {
    let m = two_digits(d.month as nat);
    let dd = two_digits(d.day as nat);
    let y = year_text(d.year as int);
    match order {
        DateOrder::MonthDayYear => m + "/"@ + dd + "/"@ + y,
        DateOrder::YearMonthDay => y + "/"@ + m + "/"@ + dd,
        DateOrder::DayMonthYear => dd + "/"@ + m + "/"@ + y,
        DateOrder::DottedDayMonthYear => dd + "."@ + m + "."@ + y,
        DateOrder::Iso => y + "-"@ + m + "-"@ + dd,
    }
}

fn push_two_digits(s: &mut String, n: u32)
    requires
        n < 100,
    ensures
        final(s)@ == old(s)@ + two_digits(n as nat),
{
    if n < 10 {
        push_char(s, '0');
        push_char(s, digit(n as u64));
        assert(s@ =~= old(s)@ + two_digits(n as nat));
    } else {
        push_decimal(s, n as u64);
    }
}

fn push_four_digits(s: &mut String, n: u32)
    requires
        n <= 9999,
    ensures
        final(s)@ == old(s)@ + four_digits(n as nat),
{
    let ghost start = s@;
    if n < 10 {
        push_str(s, "000");
    } else if n < 100 {
        push_str(s, "00");
    } else if n < 1000 {
        push_str(s, "0");
    }
    let ghost mid = s@;
    push_decimal(s, n as u64);
    proof {
        reveal_strlit("000");
        reveal_strlit("00");
        reveal_strlit("0");
        assert(s@ =~= start + four_digits(n as nat));
    }
}

fn push_year(s: &mut String, y: i32)
    ensures
        final(s)@ == old(s)@ + year_text(y as int),
{
    let ghost start = s@;
    if 0 <= y && y <= 9999 {
        push_four_digits(s, y as u32);
    } else if y > 9999 {
        push_char(s, '+');
        push_decimal(s, y as u64);
        assert(s@ =~= start + year_text(y as int));
    } else {
        push_char(s, '-');
        let a: u64 = if y == i32::MIN {
            2147483648u64
        } else {
            (-y) as u64
        };
        if a <= 9999 {
            push_four_digits(s, a as u32);
        } else {
            push_decimal(s, a);
        }
        assert(s@ =~= start + year_text(y as int));
    }
}

fn push_sep(s: &mut String, sep: char)
    ensures
        final(s)@ == old(s)@ + seq![sep],
{
    push_char(s, sep);
    assert(s@ =~= old(s)@ + seq![sep]);
}

/// A local date written the way `language` orders numeric dates, with
/// zero-padded month and day.
pub fn fallback_localized_numeric_date(date: LocalDate, language: &str) -> (out: String)
    requires
        date.month < 100,
        date.day < 100,
    ensures
        out@ == numeric_date(date, date_order_for(language@)),
{
    let order = fallback_date_order(language);
    let mut out = String::new();
    proof {
        reveal_strlit("/");
        reveal_strlit(".");
        reveal_strlit("-");
    }
    match order {
        DateOrder::MonthDayYear => {
            push_two_digits(&mut out, date.month);
            push_sep(&mut out, '/');
            push_two_digits(&mut out, date.day);
            push_sep(&mut out, '/');
            push_year(&mut out, date.year);
        },
        DateOrder::YearMonthDay => {
            push_year(&mut out, date.year);
            push_sep(&mut out, '/');
            push_two_digits(&mut out, date.month);
            push_sep(&mut out, '/');
            push_two_digits(&mut out, date.day);
        },
        DateOrder::DayMonthYear => {
            push_two_digits(&mut out, date.day);
            push_sep(&mut out, '/');
            push_two_digits(&mut out, date.month);
            push_sep(&mut out, '/');
            push_year(&mut out, date.year);
        },
        DateOrder::DottedDayMonthYear => {
            push_two_digits(&mut out, date.day);
            push_sep(&mut out, '.');
            push_two_digits(&mut out, date.month);
            push_sep(&mut out, '.');
            push_year(&mut out, date.year);
        },
        DateOrder::Iso => {
            push_year(&mut out, date.year);
            push_sep(&mut out, '-');
            push_two_digits(&mut out, date.month);
            push_sep(&mut out, '-');
            push_two_digits(&mut out, date.day);
        },
    }
    out
}

// ---------------------------------------------------------------------------
// Relative times.
// ---------------------------------------------------------------------------

/// A locale's own rendering of a date, trimmed, when it holds anything.
pub open spec fn usable_localized(localized: Option<Seq<char>>) -> Option<Seq<char>> {
    match localized {
        Some(l) => if trim(l).len() > 0 {
            Some(trim(l))
        } else {
            None
        },
        None => None,
    }
}

/// What the age of the timestamp `iso` reads at `now`, where the text, the
/// clock and the locale's date settle it: empty for a text chrono refuses,
/// the age phrase under a week, the locale's date after that. `None` is
/// left for a week or more without a locale date: the numeric local date.
pub open spec fn relative_at(iso: Seq<char>, now: Instant, localized: Option<Seq<char>>) -> Option<Seq<char>> {
    match rfc3339_instant(iso) {
        None => Some(Seq::empty()),
        Some(t) => match chrono_seconds_between(pair_of(now), t) {
            None => Some(Seq::empty()),
            Some(s) => match age_phrase(s as int) {
                Some(p) => Some(p),
                None => usable_localized(localized),
            },
        },
    }
}

fn usable_localized_text(localized: Option<&str>) -> (r: Option<String>)
    ensures
        opt_seq(r) == usable_localized(match localized {
            Some(l) => Some(l@),
            None => None,
        }),
{
    match localized {
        Some(l) => {
            let v = chars_of(l);
            let t = trimmed_range(v.as_slice(), 0, v.len());
            proof {
                assert(v@.subrange(0, v@.len() as int) =~= l@);
            }
            if chars_of(t.as_str()).len() > 0 {
                Some(t)
            } else {
                None
            }
        },
        None => None,
    }
}

/// What the age of `iso` reads at `now`: the relative text where the text,
/// the clock and the locale's date settle it, else a numeric local date in
/// the order of `language`.
pub open spec fn relative_reading(
    iso: Seq<char>,
    now: Instant,
    language: Seq<char>,
    localized: Option<Seq<char>>,
    out: Seq<char>,
) -> bool {
    match relative_at(iso, now, localized) {
        Some(t) => out == t,
        None => exists|d: LocalDate|
            1 <= d.month <= 12 && 1 <= d.day <= 31 && out == numeric_date(d, date_order_for(language)),
    }
}

/// The age of the RFC 3339 timestamp `iso` at the clock reading `now`:
/// "Just now", "5m ago", "3h ago", "Yesterday", "4d ago"; from a week on the
/// date, as the locale wrote it (`localized`) or else as a numeric local
/// date in the order of `language`. Empty for a timestamp that does not
/// parse.
pub fn relative_time_from_iso(iso: &str, now: Instant, language: &str, localized: Option<&str>) -> (out: String)
    ensures
        relative_reading(iso@, now, language@, match localized {
            Some(l) => Some(l@),
            None => None,
        }, out@),
        rfc3339_instant(iso@) is None ==> out@ == Seq::<char>::empty(),
{
    match parse_instant(iso) {
        None => String::new(),
        Some(t) => match seconds_between(now, t) {
            None => String::new(),
            Some(s) => match age_text(s) {
                Some(p) => p,
                None => match usable_localized_text(localized) {
                    Some(l) => l,
                    None => match local_date(t) {
                        Some(d) => fallback_localized_numeric_date(d, language),
                        None => String::new(),
                    },
                },
            },
        },
    }
}

// ---------------------------------------------------------------------------
// Durations.
// ---------------------------------------------------------------------------

/// A duration of `s` seconds on a clock face: `mm:ss`, with the hours in
/// front (`h:mm:ss`) from an hour on.
pub open spec fn clock_reading(s: nat) -> Seq<char> {
    let h = s / 3600;
    let m = (s % 3600) / 60;
    let sec = s % 60;
    if h > 0 {
        decimal(h) + ":"@ + two_digits(m) + ":"@ + two_digits(sec)
    } else {
        two_digits(m) + ":"@ + two_digits(sec)
    }
}

/// The clock reading of a span of whole seconds, a negative span (a clock
/// running behind) reading as zero.
pub open spec fn span_reading(s: int) -> Seq<char> {
    clock_reading(if s < 0 {
        0
    } else {
        s as nat
    })
}

/// A duration of `seconds` on a clock face.
pub fn clock_text(seconds: u64) -> (out: String)
    ensures
        out@ == clock_reading(seconds as nat),
{
    let h = seconds / 3600;
    let m = ((seconds % 3600) / 60) as u32;
    let sec = (seconds % 60) as u32;
    let mut out = String::new();
    proof {
        reveal_strlit(":");
    }
    if h > 0 {
        push_decimal(&mut out, h);
        push_sep(&mut out, ':');
    }
    push_two_digits(&mut out, m);
    push_sep(&mut out, ':');
    push_two_digits(&mut out, sec);
    out
}

fn span_text(s: i64) -> (out: String)
    ensures
        out@ == span_reading(s as int),
{
    if s < 0 {
        clock_text(0)
    } else {
        clock_text(s as u64)
    }
}

/// How long the span from the timestamp `start` to the timestamp `end`
/// lasted, on a clock face; `None` unless both parse.
pub open spec fn duration_between(start: Seq<char>, end: Seq<char>) -> Option<Seq<char>> {
    match (rfc3339_instant(start), rfc3339_instant(end)) {
        (Some(a), Some(b)) => match chrono_seconds_between(b, a) {
            Some(s) => Some(span_reading(s as int)),
            None => None,
        },
        _ => None,
    }
}

/// The clock reading of the span between two RFC 3339 timestamps.
pub fn duration_text(start: &str, end: &str) -> (r: Option<String>)
    ensures
        opt_seq(r) == duration_between(start@, end@),
{
    match (parse_instant(start), parse_instant(end)) {
        (Some(a), Some(b)) => match seconds_between(b, a) {
            Some(s) => Some(span_text(s)),
            None => None,
        },
        _ => None,
    }
}

/// How long something that started at `started` has been running at `now`.
pub open spec fn running_at(started: Option<Seq<char>>, now: Instant) -> Option<Seq<char>> {
    match started {
        None => None,
        Some(text) => match rfc3339_instant(text) {
            None => None,
            Some(a) => match chrono_seconds_between(pair_of(now), a) {
                Some(s) => Some(span_reading(s as int)),
                None => None,
            },
        },
    }
}

/// The clock reading of the time since `started` at the clock reading
/// `now`; `None` without a start that parses (or an instant chrono cannot
/// hold).
pub fn running_duration_string(started: Option<&String>, now: Instant) -> (r: Option<String>)
    ensures
        opt_seq(r) == running_at(match started {
            Some(s) => Some(s@),
            None => None,
        }, now),
        started matches Some(s) && rfc3339_instant(s@) is Some && chrono_represents(pair_of(now))
            ==> r is Some,
{
    match started {
        None => None,
        Some(text) => match parse_instant(text.as_str()) {
            None => None,
            Some(a) => match seconds_between(now, a) {
                Some(s) => Some(span_text(s)),
                None => None,
            },
        },
    }
}

} // verus!
