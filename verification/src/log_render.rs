//! How a job log is laid out in the log viewer: each line becomes a run of
//! text segments, each with the tags that style it. Timestamps get a padded
//! column, groups fold their lines in by two spaces per level, commands,
//! errors and annotations get their markers, ANSI colours carry over, and
//! masked secrets (`***`) stand out.
use vstd::prelude::*;
use crate::ansi::{AnsiStyle, parse_ansi, ansi_spans, span_views, default_style};
use crate::chars::{find_from, lemma_find_from, trim_start, split_on, skip_ws_from, find_exec, lit, string_of_range, utf8_len};
use crate::log_parse::{WorkflowCommandKind, timestamp_split, padding_for, group_title_of, command_split, error_message_of, plain_error, workflow_command, annotation_meta, split_timestamp, timestamp_padding, is_group_end, group_title, split_error_prefix, is_plain_error_line, parse_workflow_command, build_annotation_meta, split_command_prefix};
use crate::chars::starts_with;
use crate::text::{chars_of, string_of, push_str};

verus! {

/// A style applied to a stretch of log text.
#[derive(Debug, Clone, Copy, PartialEq, Eq, Structural)]
pub enum LogTag {
    Timestamp,
    Group,
    Command,
    ErrorLine,
    Secret,
    Annotation(WorkflowCommandKind),
    AnnotationMeta,
    Ansi(AnsiStyle),
}

/// A stretch of log text and the tags it carries, in order.
pub struct LogSegment {
    pub text: String,
    pub tags: Vec<LogTag>,
}

/// A segment as plain values.
pub type SegView = (Seq<char>, Seq<LogTag>);

/// The views of a list of segments.
pub open spec fn seg_views(v: Seq<LogSegment>) -> Seq<SegView> {
    v.map_values(|s: LogSegment| (s.text@, s.tags@))
}

/// The tags of two optional tags, first the first.
pub open spec fn opt_tags(a: Option<LogTag>, b: Option<LogTag>) -> Seq<LogTag> {
    match (a, b) {
        (Some(x), Some(y)) => seq![x, y],
        (Some(x), None) => seq![x],
        (None, Some(y)) => seq![y],
        (None, None) => seq![],
    }
}

/// A segment, unless its text is empty.
pub open spec fn seg(text: Seq<char>, tags: Seq<LogTag>) -> Seq<SegView> {
    if text.len() > 0 {
        seq![(text, tags)]
    } else {
        seq![]
    }
}

/// Text split around each `***`: the text keeps the ANSI tag and the line's
/// tag; each `***` keeps the ANSI tag and takes the secret tag in place of
/// the line's (the line's when there is no secret tag).
pub open spec fn secret_split(
    text: Seq<char>,
    ansi: Option<LogTag>,
    secret: Option<LogTag>,
    extra: Option<LogTag>,
) -> Seq<SegView>
    decreases text.len(),
{
    match find_from(text, "***"@, 0) {
        None => seg(text, opt_tags(ansi, extra)),
        Some(k) => {
            proof {
                lemma_find_from(text, "***"@, 0);
                reveal_strlit("***");
            }
            seg(text.take(k), opt_tags(ansi, extra)) + seq![
                ("***"@, opt_tags(ansi, if secret is Some { secret } else { extra })),
            ] + secret_split(text.subrange(k + 3, text.len() as int), ansi, secret, extra)
        },
    }
}

/// The ANSI tag of a style: none for plain text.
pub open spec fn ansi_tag(style: AnsiStyle) -> Option<LogTag> {
    if style == default_style() {
        None
    } else {
        Some(LogTag::Ansi(style))
    }
}

/// The segments of styled spans.
pub open spec fn spans_segments(
    spans: Seq<(Seq<char>, AnsiStyle)>,
    secret: Option<LogTag>,
    extra: Option<LogTag>,
) -> Seq<SegView>
    decreases spans.len(),
{
    if spans.len() == 0 {
        seq![]
    } else {
        secret_split(spans[0].0, ansi_tag(spans[0].1), secret, extra) + spans_segments(
            spans.drop_first(),
            secret,
            extra,
        )
    }
}

/// The segments of a stretch of text with ANSI escapes in it.
pub open spec fn ansi_segments(text: Seq<char>, secret: Option<LogTag>, extra: Option<LogTag>) -> Seq<
    SegView,
> {
    spans_segments(ansi_spans(text), secret, extra)
}

/// `n` copies of `s`.
pub open spec fn repeat(s: Seq<char>, n: nat) -> Seq<char>
    decreases n,
{
    if n == 0 {
        seq![]
    } else {
        repeat(s, (n - 1) as nat) + s
    }
}

/// The indentation of a line inside `depth` groups.
pub open spec fn indent(depth: nat) -> Seq<SegView> {
    if depth == 0 {
        seq![]
    } else {
        seq![(repeat("  "@, depth), seq![])]
    }
}

/// The icon of an annotation.
pub open spec fn annotation_icon(kind: WorkflowCommandKind) -> Seq<char> {
    match kind {
        WorkflowCommandKind::Notice => "\u{2139}"@,
        WorkflowCommandKind::Warning => "\u{26A0}"@,
        WorkflowCommandKind::Error => "\u{26D4}"@,
        WorkflowCommandKind::Debug => "\u{1F41B}"@,
    }
}

/// The segments of a line's text after its timestamp, when it neither
/// opens nor closes a group: by the first that applies, an `##[error]`
/// message, a plain error line, an annotation with its location, a command,
/// or the text as it is.
pub open spec fn body_segments(rest: Seq<char>) -> Seq<SegView> {
    let rt = trim_start(rest);
    if error_message_of(rt) is Some {
        seq![("\u{26D4} "@, seq![LogTag::ErrorLine])] + ansi_segments(
            error_message_of(rt).unwrap(),
            Some(LogTag::Secret),
            Some(LogTag::ErrorLine),
        )
    } else if plain_error(rt) {
        ansi_segments(rt, Some(LogTag::Secret), Some(LogTag::ErrorLine))
    } else if workflow_command(rt) is Some {
        let (kind, message, params) = workflow_command(rt).unwrap();
        let tag = seq![LogTag::Annotation(kind)];
        seq![(annotation_icon(kind), tag), (" "@, tag), (message, tag)] + match annotation_meta(
            params,
        ) {
            Some(meta) => seq![
                (" "@, seq![LogTag::AnnotationMeta]),
                (meta, seq![LogTag::AnnotationMeta]),
            ],
            None => seq![],
        }
    } else if command_split(rest) is Some {
        let (lead, tail) = command_split(rest).unwrap();
        seg(lead, seq![]) + seq![("\u{25B6} [command] "@, seq![LogTag::Command])]
            + ansi_segments(tail, Some(LogTag::Secret), Some(LogTag::Command))
    } else {
        ansi_segments(rest, Some(LogTag::Secret), None)
    }
}

/// The segments of a line's text after its timestamp inside `depth`
/// groups, and the depth after it. A group's end closes a level and shows
/// nothing; a group's start shows its title and opens one; other lines are
/// indented.
pub open spec fn rest_plan(rest: Seq<char>, depth: nat) -> (Seq<SegView>, nat) {
    let rt = trim_start(rest);
    if starts_with(rt, "##[endgroup]"@) {
        (seq![], if depth > 0 { (depth - 1) as nat } else { 0 })
    } else if group_title_of(rt) is Some {
        (
            indent(depth) + seq![
                ("\u{25BE} "@, seq![LogTag::Group]),
                (group_title_of(rt).unwrap(), seq![LogTag::Group]),
            ],
            depth + 1,
        )
    } else {
        (indent(depth) + body_segments(rest), depth)
    }
}

/// The timestamp of a line and the padding after it, when more follows.
pub open spec fn head_segments(ts: Option<Seq<char>>, rest: Seq<char>) -> Seq<SegView> {
    match ts {
        Some(t) => seq![(t, seq![LogTag::Timestamp])] + if rest.len() > 0 {
            seq![(repeat(" "@, padding_for(utf8_len(t))), seq![LogTag::Timestamp])]
        } else {
            seq![]
        },
        None => seq![],
    }
}

/// The segments of one log line inside `depth` groups, and the depth after
/// it: the timestamp column first, then the rest of the line.
pub open spec fn line_plan(line: Seq<char>, depth: nat) -> (Seq<SegView>, nat) {
    let (ts, rest) = timestamp_split(line);
    (head_segments(ts, rest) + rest_plan(rest, depth).0, rest_plan(rest, depth).1)
}

/// The segments of `lines` inside `depth` groups; every line but the first
/// starts with a line break.
pub open spec fn plan_lines(lines: Seq<Seq<char>>, depth: nat, first: bool) -> Seq<SegView>
    decreases lines.len(),
{
    if lines.len() == 0 {
        seq![]
    } else {
        let (segs, next) = line_plan(lines[0], depth);
        (if first {
            seq![]
        } else {
            seq![("\n"@, seq![])]
        }) + segs + plan_lines(lines.drop_first(), next, false)
    }
}

/// The segments of a whole log.
pub open spec fn log_plan(logs: Seq<char>) -> Seq<SegView> {
    plan_lines(split_on(logs, '\n', 0), 0, true)
}

fn push_seg(out: &mut Vec<LogSegment>, text: String, tags: Vec<LogTag>)
    ensures
        seg_views(final(out)@) == seg_views(old(out)@) + seg(text@, tags@),
{
    let ghost before = seg_views(out@);
    if !text.as_str().is_empty() {
        out.push(LogSegment { text, tags });
        assert(seg_views(out@) =~= before.push((text@, tags@)));
    } else {
        assert(seg(text@, tags@) =~= Seq::<SegView>::empty());
        assert(before + seg(text@, tags@) =~= before);
    }
}

fn tags_of(a: Option<LogTag>, b: Option<LogTag>) -> (r: Vec<LogTag>)
    ensures
        r@ == opt_tags(a, b),
{
    let mut v: Vec<LogTag> = Vec::new();
    if let Some(x) = a {
        v.push(x);
    }
    if let Some(y) = b {
        v.push(y);
    }
    assert(v@ =~= opt_tags(a, b));
    v
}

fn one_tag(t: LogTag) -> (r: Vec<LogTag>)
    ensures
        r@ == seq![t],
{
    let mut v: Vec<LogTag> = Vec::new();
    v.push(t);
    assert(v@ =~= seq![t]);
    v
}

/// Appends the segments of `text` split around each `***`.
pub fn push_secret_split(
    out: &mut Vec<LogSegment>,
    text: &str,
    ansi: Option<LogTag>,
    secret: Option<LogTag>,
    extra: Option<LogTag>,
)
    ensures
        seg_views(final(out)@) == seg_views(old(out)@) + secret_split(text@, ansi, secret, extra),
{
    proof {
        reveal_strlit("***");
    }
    let v = chars_of(text);
    let s = v.as_slice();
    let stars = lit("***");
    let mut start: usize = 0;
    let ghost base = seg_views(out@);
    assert(s@.subrange(0, s@.len() as int) =~= s@);
    loop
        invariant_except_break
            start <= s.len(),
            seg_views(out@) + secret_split(s@.subrange(start as int, s@.len() as int), ansi, secret, extra)
                == base + secret_split(s@, ansi, secret, extra),
        invariant
            s@ == text@,
            stars@ == "***"@,
        ensures
            seg_views(out@) == base + secret_split(s@, ansi, secret, extra),
        decreases s.len() - start,
    {
        let ghost t = s@.subrange(start as int, s@.len() as int);
        let rest = vstd::slice::slice_subrange(s, start, s.len());
        let found = find_exec(rest, stars.as_slice(), 0);
        match found {
            None => {
                let ghost before = seg_views(out@);
                push_seg(out, string_of_range(s, start, s.len()), tags_of(ansi, extra));
                assert(seg_views(out@) == before + secret_split(t, ansi, secret, extra));
                break;
            },
            Some(k) => {
                proof {
                    reveal_strlit("***");
                    lemma_find_from(rest@, "***"@, 0);
                }
                assert(k + 3 <= rest@.len());
                let ghost before = seg_views(out@);
                push_seg(out, string_of_range(s, start, start + k), tags_of(ansi, extra));
                let star_tag = if secret.is_some() {
                    secret
                } else {
                    extra
                };
                push_seg(out, string_of("***"), tags_of(ansi, star_tag));
                proof {
                    assert(rest@.take(k as int) =~= s@.subrange(start as int, start + k));
                    assert(rest@.subrange(k + 3, rest@.len() as int) =~= s@.subrange(start + k + 3, s@.len() as int));
                    assert(seg("***"@, opt_tags(ansi, star_tag)) =~= seq![("***"@, opt_tags(ansi, star_tag))]);
                    assert(seg_views(out@) + secret_split(s@.subrange(start + k + 3, s@.len() as int), ansi, secret, extra) =~= before + secret_split(t, ansi, secret, extra));
                }
                start = start + k + 3;
            },
        }
    }
}

/// Appends the segments of a stretch of text with ANSI escapes in it.
pub fn push_ansi_text(
    out: &mut Vec<LogSegment>,
    text: &str,
    secret: Option<LogTag>,
    extra: Option<LogTag>,
)
    ensures
        seg_views(final(out)@) == seg_views(old(out)@) + ansi_segments(text@, secret, extra),
{
    let spans = parse_ansi(text);
    let ghost all = span_views(spans@);
    let ghost base = seg_views(out@);
    let mut i: usize = 0;
    assert(all.subrange(0, all.len() as int) =~= all);
    while i < spans.len()
        invariant
            i <= spans.len(),
            all == span_views(spans@),
            all == ansi_spans(text@),
            seg_views(out@) + spans_segments(all.subrange(i as int, all.len() as int), secret, extra)
                == base + spans_segments(all, secret, extra),
        decreases spans.len() - i,
    {
        let ghost before = seg_views(out@);
        let ghost tail = all.subrange(i as int, all.len() as int);
        let span = &spans[i];
        let tag = if span.style.is_default() {
            None
        } else {
            Some(LogTag::Ansi(span.style))
        };
        push_secret_split(out, span.text.as_str(), tag, secret, extra);
        proof {
            assert(tail[0] == (span.text@, span.style));
            assert(tail.drop_first() =~= all.subrange(i + 1, all.len() as int));
        }
        i = i + 1;
    }
    assert(all.subrange(spans.len() as int, all.len() as int) =~= Seq::<(Seq<char>, AnsiStyle)>::empty());
    assert(all.subrange(0, all.len() as int) =~= all);
}

fn repeat_string(unit: &str, n: usize) -> (r: String)
    ensures
        r@ == repeat(unit@, n as nat),
{
    let mut s = String::new();
    let mut i: usize = 0;
    while i < n
        invariant
            i <= n,
            s@ == repeat(unit@, i as nat),
        decreases n - i,
    {
        push_str(&mut s, unit);
        i = i + 1;
    }
    s
}

fn push_indent(out: &mut Vec<LogSegment>, depth: usize)
    ensures
        seg_views(final(out)@) == seg_views(old(out)@) + indent(depth as nat),
{
    if depth == 0 {
        assert(seg_views(out@) + indent(0) =~= seg_views(out@));
        return;
    }
    proof {
        reveal_strlit("  ");
    }
    let ghost before = seg_views(out@);
    let text = repeat_string("  ", depth);
    assert(text@.len() > 0) by {
        assert(repeat("  "@, depth as nat) == repeat("  "@, (depth - 1) as nat) + "  "@);
    }
    push_seg(out, text, Vec::new());
    assert(seg_views(out@) =~= before + indent(depth as nat));
}


proof fn lemma_timestamp_nonempty(line: Seq<char>)
    ensures
        timestamp_split(line).0 matches Some(t) ==> t.len() > 0,
{
    reveal_strlit("Z ");
    let l = crate::log_parse::strip_bom(line);
    lemma_find_from(l, "Z "@, 0);
}

proof fn lemma_trim_len(x: Seq<char>)
    ensures
        trim_start(x).len() <= x.len(),
        crate::chars::trim(x).len() <= trim_start(x).len(),
{
    crate::log_parse::lemma_skip_ws_shift(x, 0);
    assert(x.subrange(0, x.len() as int) =~= x);
    lemma_trim_end_bound(trim_start(x), trim_start(x).len() as int);
}

proof fn lemma_trim_end_bound(t: Seq<char>, end: int)
    requires
        0 <= end,
    ensures
        0 <= crate::chars::trim_end_at(t, end) <= end,
    decreases end,
{
    if end > 0 && crate::chars::is_ws(t[end - 1]) {
        lemma_trim_end_bound(t, end - 1);
    }
}

/// A line opens at most one group, and one that does holds at least ten
/// characters.
proof fn lemma_line_plan_depth(line: Seq<char>, depth: nat)
    ensures
        line_plan(line, depth).1 <= depth + 1,
        line_plan(line, depth).1 == depth + 1 ==> line.len() >= 10,
{
    reveal_strlit("##[group]");
    reveal_strlit("Z ");
    let l = crate::log_parse::strip_bom(line);
    let rest = timestamp_split(line).1;
    assert(rest.len() <= line.len()) by {
        lemma_find_from(l, "Z "@, 0);
        match find_from(l, "Z "@, 0) {
            Some(k) => {
                crate::log_parse::lemma_skip_spaces_bound(l, k + 1);
            },
            None => {},
        }
    }
    let rt = trim_start(rest);
    lemma_trim_len(rest);
    if group_title_of(rt) is Some {
        lemma_trim_len(rt.subrange(9, rt.len() as int));
    }
}

fn trim_start_string(text: &str) -> (r: String)
    ensures
        r@ == trim_start(text@),
{
    let v = chars_of(text);
    let a = skip_ws_from(v.as_slice(), 0);
    string_of_range(v.as_slice(), a, v.len())
}

fn annotation_icon_text(kind: WorkflowCommandKind) -> (r: &'static str)
    ensures
        r@ == annotation_icon(kind),
        r@.len() > 0,
{
    proof {
        reveal_strlit("\u{2139}");
        reveal_strlit("\u{26A0}");
        reveal_strlit("\u{26D4}");
        reveal_strlit("\u{1F41B}");
    }
    match kind {
        WorkflowCommandKind::Notice => "\u{2139}",
        WorkflowCommandKind::Warning => "\u{26A0}",
        WorkflowCommandKind::Error => "\u{26D4}",
        WorkflowCommandKind::Debug => "\u{1F41B}",
    }
}

fn push_body(out: &mut Vec<LogSegment>, rest: &str)
    ensures
        seg_views(final(out)@) == seg_views(old(out)@) + body_segments(rest@),
{
    proof {
        reveal_strlit(" ");
        reveal_strlit("\u{26D4} ");
        reveal_strlit("\u{25B6} [command] ");
    }
    let ghost base = seg_views(out@);
    let rt = trim_start_string(rest);
    if let Some(message) = split_error_prefix(rt.as_str()) {
        push_seg(out, string_of("\u{26D4} "), one_tag(LogTag::ErrorLine));
        push_ansi_text(out, message.as_str(), Some(LogTag::Secret), Some(LogTag::ErrorLine));
        assert(seg_views(out@) =~= base + body_segments(rest@));
        return;
    }
    if is_plain_error_line(rt.as_str()) {
        push_ansi_text(out, rt.as_str(), Some(LogTag::Secret), Some(LogTag::ErrorLine));
        return;
    }
    if let Some(command) = parse_workflow_command(rt.as_str()) {
        let kind = command.kind;
        push_seg(out, string_of(annotation_icon_text(kind)), one_tag(LogTag::Annotation(kind)));
        push_seg(out, string_of(" "), one_tag(LogTag::Annotation(kind)));
        push_seg(out, command.message, one_tag(LogTag::Annotation(kind)));
        let ghost mid = seg_views(out@);
        match build_annotation_meta(&command.params) {
            Some(meta) => {
                push_seg(out, string_of(" "), one_tag(LogTag::AnnotationMeta));
                assert(meta@.len() > 0) by {
                    reveal_strlit("\u{2014} ");
                }
                push_seg(out, meta, one_tag(LogTag::AnnotationMeta));
            },
            None => {},
        }
        assert(seg_views(out@) =~= base + body_segments(rest@));
        return;
    }
    match split_command_prefix(rest) {
        Some((lead, tail)) => {
            push_seg(out, lead, Vec::new());
            push_seg(out, string_of("\u{25B6} [command] "), one_tag(LogTag::Command));
            push_ansi_text(out, tail.as_str(), Some(LogTag::Secret), Some(LogTag::Command));
            assert(seg_views(out@) =~= base + body_segments(rest@));
        },
        None => {
            push_ansi_text(out, rest, Some(LogTag::Secret), None);
        },
    }
}

fn push_rest(out: &mut Vec<LogSegment>, rest: &str, depth: usize) -> (next: usize)
    requires
        depth < usize::MAX,
    ensures
        seg_views(final(out)@) == seg_views(old(out)@) + rest_plan(rest@, depth as nat).0,
        next as nat == rest_plan(rest@, depth as nat).1,
{
    proof {
        reveal_strlit("\u{25BE} ");
    }
    let ghost base = seg_views(out@);
    let rt = trim_start_string(rest);
    if is_group_end(rt.as_str()) {
        assert(base + Seq::<SegView>::empty() =~= base);
        return if depth > 0 {
            depth - 1
        } else {
            0
        };
    }
    if let Some(title) = group_title(rt.as_str()) {
        push_indent(out, depth);
        push_seg(out, string_of("\u{25BE} "), one_tag(LogTag::Group));
        push_seg(out, title, one_tag(LogTag::Group));
        assert(seg_views(out@) =~= base + rest_plan(rest@, depth as nat).0);
        return depth + 1;
    }
    push_indent(out, depth);
    push_body(out, rest);
    assert(seg_views(out@) =~= base + rest_plan(rest@, depth as nat).0);
    depth
}

/// Appends the segments of one log line inside `depth` groups and answers
/// the depth after it.
pub fn push_log_line(out: &mut Vec<LogSegment>, line: &str, depth: usize) -> (next: usize)
    requires
        depth < usize::MAX,
    ensures
        seg_views(final(out)@) == seg_views(old(out)@) + line_plan(line@, depth as nat).0,
        next as nat == line_plan(line@, depth as nat).1,
{
    proof {
        reveal_strlit(" ");
        lemma_timestamp_nonempty(line@);
    }
    let ghost base = seg_views(out@);
    let (timestamp, rest) = split_timestamp(line);
    if let Some(ts) = &timestamp {
        push_seg(out, string_of(ts.as_str()), one_tag(LogTag::Timestamp));
        if !rest.as_str().is_empty() {
            let pad = timestamp_padding(ts.as_str());
            let spaces = repeat_string(" ", pad);
            assert(spaces@.len() > 0) by {
                assert(repeat(" "@, pad as nat) == repeat(" "@, (pad - 1) as nat) + " "@);
            }
            push_seg(out, spaces, one_tag(LogTag::Timestamp));
        }
    }
    assert(seg_views(out@) =~= base + head_segments(timestamp_split(line@).0, rest@));
    let ghost mid = seg_views(out@);
    let next = push_rest(out, rest.as_str(), depth);
    assert(seg_views(out@) =~= base + line_plan(line@, depth as nat).0);
    next
}

/// The segments of a whole job log, line by line, in order.
pub fn plan_log_render(logs: &str) -> (out: Vec<LogSegment>)
    ensures
        seg_views(out@) == log_plan(logs@),
{
    proof {
        reveal_strlit("\n");
    }
    let v = chars_of(logs);
    let s = v.as_slice();
    let newline = lit("\n");
    assert(newline@ =~= seq!['\n']);
    let mut out: Vec<LogSegment> = Vec::new();
    let mut start: usize = 0;
    let mut depth: usize = 0;
    let mut first = true;
    assert(seg_views(out@) =~= Seq::<SegView>::empty());
    loop
        invariant_except_break
            start <= s.len(),
            depth * 10 <= start,
            seg_views(out@) + plan_lines(split_on(s@, '\n', start as int), depth as nat, first)
                == log_plan(logs@),
        invariant
            s@ == logs@,
            newline@ == seq!['\n'],
        ensures
            seg_views(out@) == log_plan(logs@),
        decreases s.len() + 1 - start,
    {
        let found = find_exec(s, newline.as_slice(), start);
        proof {
            lemma_find_from(s@, seq!['\n'], start as int);
        }
        let end = match found {
            Some(k) => k,
            None => s.len(),
        };
        let line = string_of_range(s, start, end);
        let ghost before = seg_views(out@);
        let ghost rest = match found {
            Some(k) => split_on(s@, '\n', k + 1),
            None => Seq::<Seq<char>>::empty(),
        };
        assert(split_on(s@, '\n', start as int) == seq![line@] + rest);
        assert((seq![line@] + rest).drop_first() =~= rest);
        proof {
            reveal_strlit("\n");
            lemma_line_plan_depth(line@, depth as nat);
        }
        let ghost was_first = first;
        if !first {
            push_seg(&mut out, string_of("\n"), Vec::new());
        }
        assert(seg_views(out@) =~= before + if was_first { seq![] } else { seq![("\n"@, Seq::<LogTag>::empty())] });
        let next = push_log_line(&mut out, line.as_str(), depth);
        first = false;
        match found {
            Some(k) => {
                assert(seg_views(out@) + plan_lines(rest, next as nat, false) =~= before + plan_lines(seq![line@] + rest, depth as nat, was_first));
                start = k + 1;
                depth = next;
            },
            None => {
                assert(rest =~= Seq::<Seq<char>>::empty());
                assert(seg_views(out@) =~= before + plan_lines(seq![line@] + rest, depth as nat, was_first));
                break;
            },
        }
    }
    out
}

} // verus!
