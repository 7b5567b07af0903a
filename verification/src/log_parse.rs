//! The line grammar of GitHub Actions job logs: the timestamp that starts
//! each line, group markers, `##[command]` and `##[error]` lines, and
//! workflow commands such as `::warning file=a.rs,line=3::message`.
use vstd::prelude::*;
use crate::chars::{occurs_at, is_ws, is_digit, utf8_len, utf8_len_capped, skip_ws, trim_start, trim, starts_with, find_from, lemma_find_from, split_on, find_ws, skip_ws_from, find_exec, starts_with_at, string_of_range, trimmed_range, find_ws_from, lit};
use crate::text::{chars_of, push_str, string_of, str_eq};

verus! {

/// The byte order mark some logs start with.
pub const BOM: char = '\u{FEFF}';

/// The width, in bytes, the timestamp column is padded to.
pub const TIMESTAMP_PAD_WIDTH: usize = 30;

/// `s` without one leading byte order mark.
pub open spec fn strip_bom(s: Seq<char>) -> Seq<char> {
    if s.len() > 0 && s[0] == BOM {
        s.drop_first()
    } else {
        s
    }
}

/// The first index at or after `i` that holds no space, or the length.
pub open spec fn skip_spaces(s: Seq<char>, i: int) -> int
    decreases s.len() - i,
{
    if i < 0 {
        0
    } else if i >= s.len() {
        s.len() as int
    } else if s[i] == ' ' {
        skip_spaces(s, i + 1)
    } else {
        i
    }
}

/// Whether the first four characters of `s` (or all, when fewer) are ASCII
/// digits.
pub open spec fn leads_with_digits(s: Seq<char>) -> bool {
    forall|i: int| 0 <= i < s.len() && i < 4 ==> is_digit(#[trigger] s[i])
}

/// A log line's timestamp and the rest of the line. After an optional byte
/// order mark, a line of at least ten bytes whose first four characters are
/// digits has a timestamp when `Z ` occurs within its first thirty bytes:
/// the timestamp runs up to and with the `Z`, and the rest follows the
/// spaces after it.
pub open spec fn timestamp_split(line: Seq<char>) -> (Option<Seq<char>>, Seq<char>) {
    let l = strip_bom(line);
    if utf8_len(l) < 10 || !leads_with_digits(l) {
        (None, l)
    } else {
        match find_from(l, "Z "@, 0) {
            Some(k) => if utf8_len(l.take(k)) <= 30 {
                (Some(l.take(k + 1)), l.subrange(skip_spaces(l, k + 1), l.len() as int))
            } else {
                (None, l)
            },
            None => (None, l),
        }
    }
}

/// Splits a log line into its timestamp, if any, and the rest.
pub fn split_timestamp(line: &str) -> (r: (Option<String>, String))
    ensures
        crate::text::opt_seq(r.0) == timestamp_split(line@).0,
        r.1@ == timestamp_split(line@).1,
{
    let v = chars_of(line);
    let start: usize = if v.len() > 0 && v[0] == BOM {
        1
    } else {
        0
    };
    let l = vstd::slice::slice_subrange(v.as_slice(), start, v.len());
    proof {
        assert(l@ =~= strip_bom(line@));
    }
    if utf8_len_capped(l, 10) < 10 {
        return (None, string_of_range(l, 0, l.len()));
    }
    let mut i: usize = 0;
    while i < l.len() && i < 4
        invariant
            i <= l.len(),
            l@ == strip_bom(line@),
            utf8_len(l@) >= 10,
            forall|j: int| 0 <= j < i ==> is_digit(#[trigger] l@[j]),
        decreases l.len() - i,
    {
        if !('0' <= l[i] && l[i] <= '9') {
            assert(!leads_with_digits(l@));
            return (None, string_of_range(l, 0, l.len()));
        }
        i = i + 1;
    }
    assert(l@.subrange(0, l@.len() as int) =~= l@);
    let pat = lit("Z ");
    match find_exec(l, pat.as_slice(), 0) {
        Some(k) => {
            proof {
                lemma_find_from(l@, "Z "@, 0);
                reveal_strlit("Z ");
            }
            let head = vstd::slice::slice_subrange(l, 0, k);
            assert(head@ =~= l@.take(k as int));
            if utf8_len_capped(head, 31) <= 30 {
                let mut j = k + 1;
                while j < l.len() && l[j] == ' '
                    invariant
                        k + 1 <= j <= l.len(),
                        skip_spaces(l@, k + 1) == skip_spaces(l@, j as int),
                    decreases l.len() - j,
                {
                    j = j + 1;
                }
                (Some(string_of_range(l, 0, k + 1)), string_of_range(l, j, l.len()))
            } else {
                (None, string_of_range(l, 0, l.len()))
            }
        },
        None => (None, string_of_range(l, 0, l.len())),
    }
}

/// The spaces that pad a timestamp to the column width: the width minus the
/// timestamp's byte length, plus one; a single space for a long timestamp.
pub open spec fn padding_for(len: nat) -> nat {
    if len >= TIMESTAMP_PAD_WIDTH {
        1
    } else {
        (TIMESTAMP_PAD_WIDTH - len + 1) as nat
    }
}

/// How many spaces follow `timestamp`.
pub fn timestamp_padding(timestamp: &str) -> (r: usize)
    ensures
        r == padding_for(utf8_len(timestamp@)),
{
    let v = chars_of(timestamp);
    let length = utf8_len_capped(v.as_slice(), TIMESTAMP_PAD_WIDTH);
    if length >= TIMESTAMP_PAD_WIDTH {
        1
    } else {
        TIMESTAMP_PAD_WIDTH - length + 1
    }
}

/// Whether a line closes a group.
pub fn is_group_end(text: &str) -> (r: bool)
    ensures
        r == starts_with(text@, "##[endgroup]"@),
{
    let v = chars_of(text);
    let p = lit("##[endgroup]");
    let r = starts_with_at(v.as_slice(), 0, p.as_slice());
    assert(v@.subrange(0, v@.len() as int) =~= v@);
    r
}

/// The title of a line that opens a group: what follows `##[group]`,
/// trimmed, when that is not empty.
pub open spec fn group_title_of(text: Seq<char>) -> Option<Seq<char>> {
    if starts_with(text, "##[group]"@) && trim(text.subrange(9, text.len() as int)).len() > 0 {
        Some(trim(text.subrange(9, text.len() as int)))
    } else {
        None
    }
}

/// The title of a group's opening line.
pub fn group_title(text: &str) -> (r: Option<String>)
    ensures
        crate::text::opt_seq(r) == group_title_of(text@),
{
    proof {
        reveal_strlit("##[group]");
    }
    let v = chars_of(text);
    let p = lit("##[group]");
    assert(v@.subrange(0, v@.len() as int) =~= v@);
    if !starts_with_at(v.as_slice(), 0, p.as_slice()) {
        return None;
    }
    let t = trimmed_range(v.as_slice(), 9, v.len());
    if t.as_str().is_empty() {
        None
    } else {
        Some(t)
    }
}

/// The three ways a log marks a command line.
pub open spec fn command_marker_len(s: Seq<char>) -> Option<int> {
    if starts_with(s, "##[command]"@) {
        Some(11)
    } else if starts_with(s, "[command]"@) {
        Some(9)
    } else if starts_with(s, "\u{25B6} [command]"@) {
        Some(11)
    } else {
        None
    }
}

/// A command line split into its leading whitespace and the command after
/// the marker, with the whitespace before the command dropped.
pub open spec fn command_split(text: Seq<char>) -> Option<(Seq<char>, Seq<char>)> {
    let w = skip_ws(text, 0);
    let rem = text.subrange(w, text.len() as int);
    match command_marker_len(rem) {
        Some(n) => Some((text.take(w), trim_start(rem.subrange(n, rem.len() as int)))),
        None => None,
    }
}

/// Splits a command line into its indentation and its command.
pub fn split_command_prefix(text: &str) -> (r: Option<(String, String)>)
    ensures
        match r {
            Some(p) => command_split(text@) == Some((p.0@, p.1@)),
            None => command_split(text@) is None,
        },
{
    proof {
        reveal_strlit("##[command]");
        reveal_strlit("[command]");
        reveal_strlit("\u{25B6} [command]");
    }
    let v = chars_of(text);
    let s = v.as_slice();
    let w = skip_ws_from(s, 0);
    let ghost rem = v@.subrange(w as int, v@.len() as int);
    let n: usize = if starts_with_at(s, w, lit("##[command]").as_slice()) {
        11
    } else if starts_with_at(s, w, lit("[command]").as_slice()) {
        9
    } else if starts_with_at(s, w, lit("\u{25B6} [command]").as_slice()) {
        11
    } else {
        return None;
    };
    assert(command_marker_len(rem) == Some(n as int));
    let lead = string_of_range(s, 0, w);
    let t = skip_ws_from(s, w + n);
    proof {
        let tail = rem.subrange(n as int, rem.len() as int);
        assert(tail =~= v@.subrange(w + n, v@.len() as int));
        assert(v@.take(w as int) =~= v@.subrange(0, w as int));
        lemma_skip_ws_shift(v@, w + n);
    }
    Some((lead, string_of_range(s, t, v.len())))
}

/// Skipping whitespace in a suffix is skipping it in the whole.
pub proof fn lemma_skip_ws_shift(s: Seq<char>, i: int)
    requires
        0 <= i <= s.len(),
    ensures
        trim_start(s.subrange(i, s.len() as int)) == s.subrange(skip_ws(s, i), s.len() as int),
        i <= skip_ws(s, i) <= s.len(),
{
    lemma_skip_ws_shift_rec(s, i, i);
    let t = s.subrange(i, s.len() as int);
    assert(t.subrange(skip_ws(t, 0), t.len() as int) =~= s.subrange(skip_ws(s, i), s.len() as int));
}

proof fn lemma_skip_ws_shift_rec(s: Seq<char>, i: int, k: int)
    requires
        0 <= i <= k <= s.len(),
    ensures
        skip_ws(s.subrange(i, s.len() as int), k - i) + i == skip_ws(s, k),
        k <= skip_ws(s, k) <= s.len(),
    decreases s.len() - k,
{
    if k < s.len() && is_ws(s[k]) {
        lemma_skip_ws_shift_rec(s, i, k + 1);
    }
}

/// `s` without any number of leading `::`.
pub open spec fn strip_colons(s: Seq<char>) -> Seq<char>
    decreases s.len(),
{
    if s.len() >= 2 && s[0] == ':' && s[1] == ':' {
        strip_colons(s.subrange(2, s.len() as int))
    } else {
        s
    }
}

/// The kind of a workflow command.
#[derive(Debug, Clone, Copy, PartialEq, Eq, Hash, Structural)]
pub enum WorkflowCommandKind {
    Notice,
    Warning,
    Error,
    Debug,
}

/// A workflow command: its kind, its message and its `key=value`
/// parameters in the order they came.
pub struct WorkflowCommand {
    pub kind: WorkflowCommandKind,
    pub message: String,
    pub params: Vec<(String, String)>,
}

/// A parameter list as plain values.
pub open spec fn param_views(p: Seq<(String, String)>) -> Seq<(Seq<char>, Seq<char>)> {
    p.map_values(|kv: (String, String)| (kv.0@, kv.1@))
}

/// The value of `key` in `params`: the last pair with that key wins, as
/// when the pairs are inserted into a map one by one.
pub open spec fn param_get(params: Seq<(Seq<char>, Seq<char>)>, key: Seq<char>) -> Option<Seq<char>>
    decreases params.len(),
{
    if params.len() == 0 {
        None
    } else if params.last().0 == key {
        Some(params.last().1)
    } else {
        param_get(params.drop_last(), key)
    }
}

/// One `key=value` pair, both sides trimmed; pairs with an empty side are
/// dropped.
pub open spec fn param_pair(pair: Seq<char>) -> Option<(Seq<char>, Seq<char>)> {
    let (k, v) = match find_from(pair, seq!['='], 0) {
        Some(e) => (trim(pair.take(e)), trim(pair.subrange(e + 1, pair.len() as int))),
        None => (trim(pair), Seq::<char>::empty()),
    };
    if k.len() > 0 && v.len() > 0 {
        Some((k, v))
    } else {
        None
    }
}

/// The pairs of a list of `,`-separated parts, in order.
pub open spec fn params_of_parts(parts: Seq<Seq<char>>) -> Seq<(Seq<char>, Seq<char>)>
    decreases parts.len(),
{
    if parts.len() == 0 {
        seq![]
    } else {
        let rest = params_of_parts(parts.drop_first());
        match param_pair(parts[0]) {
            Some(p) => seq![p] + rest,
            None => rest,
        }
    }
}

/// The parameters of a workflow command: `key=value` pairs separated by
/// commas.
pub open spec fn params_of(input: Seq<char>) -> Seq<(Seq<char>, Seq<char>)> {
    if input.len() == 0 {
        seq![]
    } else {
        params_of_parts(split_on(input, ',', 0))
    }
}

/// The kind a command name names.
pub open spec fn command_kind(name: Seq<char>) -> Option<WorkflowCommandKind> {
    if name == "notice"@ {
        Some(WorkflowCommandKind::Notice)
    } else if name == "warning"@ {
        Some(WorkflowCommandKind::Warning)
    } else if name == "error"@ {
        Some(WorkflowCommandKind::Error)
    } else if name == "debug"@ {
        Some(WorkflowCommandKind::Debug)
    } else {
        None
    }
}

/// Each of the four command names names its own kind, and no other name
/// names that kind: `notice` a notice, `warning` a warning, `error` an
/// error, `debug` a debug message.
pub proof fn lemma_command_kind_names(name: Seq<char>)
    ensures
        command_kind(name) == Some(WorkflowCommandKind::Notice) <==> name == "notice"@,
        command_kind(name) == Some(WorkflowCommandKind::Warning) <==> name == "warning"@,
        command_kind(name) == Some(WorkflowCommandKind::Error) <==> name == "error"@,
        command_kind(name) == Some(WorkflowCommandKind::Debug) <==> name == "debug"@,
        command_kind(name) is None <==> (name != "notice"@ && name != "warning"@ && name
            != "error"@ && name != "debug"@),
{
    reveal_strlit("notice");
    reveal_strlit("warning");
    reveal_strlit("error");
    reveal_strlit("debug");
    assert("notice"@.len() != "warning"@.len());
    assert("error"@[0] != "debug"@[0] && "error"@[0] != "notice"@[0] && "debug"@[0] != "notice"@[0]);
    assert("warning"@.len() != "error"@.len() && "warning"@.len() != "debug"@.len());
}

proof fn lemma_find_ws_at(s: Seq<char>, i: int, w: int)
    requires
        0 <= i <= w < s.len(),
        is_ws(s[w]),
        forall|k: int| i <= k < w ==> !is_ws(#[trigger] s[k]),
    ensures
        find_ws(s, i) == w,
    decreases w - i,
{
    if i < w {
        lemma_find_ws_at(s, i + 1, w);
    }
}

/// A workflow command as plain values.
pub type CommandView = (WorkflowCommandKind, Seq<char>, Seq<(Seq<char>, Seq<char>)>);

/// The workflow command a line holds: after leading whitespace, `::`, the
/// command block up to the next `::`, then a message that is not empty once
/// further `::` and surrounding whitespace are dropped. The block's first
/// word names the kind (`notice`, `warning`, `error` or `debug`); the rest
/// of it holds the parameters.
pub open spec fn workflow_command(text: Seq<char>) -> Option<CommandView> {
    let t = trim_start(text);
    if !starts_with(t, "::"@) {
        None
    } else {
        let rest = t.subrange(2, t.len() as int);
        match find_from(rest, "::"@, 0) {
            None => None,
            Some(sep) => {
                let block = rest.take(sep);
                let message = trim(strip_colons(rest.subrange(sep, rest.len() as int)));
                let w = find_ws(block, 0);
                let name = block.take(w);
                let params_str = if w < block.len() {
                    trim(block.subrange(w + 1, block.len() as int))
                } else {
                    Seq::<char>::empty()
                };
                if message.len() == 0 {
                    None
                } else {
                    match command_kind(name) {
                        Some(kind) => Some((kind, message, params_of(params_str))),
                        None => None,
                    }
                }
            },
        }
    }
}


/// A line `::<name> <params>::<message>` whose name is one of the four
/// command names and whose parameters hold no `:` is a command of the kind
/// the name says, carrying the message with its leading `::` runs and
/// surrounding whitespace dropped, whenever that message is not empty.
pub proof fn lemma_command_line_kind(name: Seq<char>, params: Seq<char>, msg: Seq<char>)
    requires
        name == "notice"@ || name == "warning"@ || name == "error"@ || name == "debug"@,
        forall|i: int| 0 <= i < params.len() ==> #[trigger] params[i] != ':',
        trim(strip_colons(msg)).len() > 0,
    ensures
        ({
            let line = "::"@ + name + " "@ + params + "::"@ + msg;
            &&& workflow_command(line) matches Some((kind, message, _))
            &&& message == trim(strip_colons(msg))
            &&& (kind == WorkflowCommandKind::Notice <==> name == "notice"@)
            &&& (kind == WorkflowCommandKind::Warning <==> name == "warning"@)
            &&& (kind == WorkflowCommandKind::Error <==> name == "error"@)
            &&& (kind == WorkflowCommandKind::Debug <==> name == "debug"@)
        }),
{
    reveal_strlit("notice");
    reveal_strlit("warning");
    reveal_strlit("error");
    reveal_strlit("debug");
    assert forall|k: int| 0 <= k < name.len() implies #[trigger] name[k] != ':' && !is_ws(name[k]) by {
        if name == "notice"@ {
        } else if name == "warning"@ {
        } else if name == "error"@ {
        } else {
        }
    }
    lemma_command_line_shape(name, params, msg);
    lemma_command_kind_names(name);
}

proof fn lemma_first_separator(name: Seq<char>, params: Seq<char>, msg: Seq<char>)
    requires
        forall|k: int| 0 <= k < name.len() ==> #[trigger] name[k] != ':',
        forall|i: int| 0 <= i < params.len() ==> #[trigger] params[i] != ':',
    ensures
        find_from(name + " "@ + params + "::"@ + msg, "::"@, 0) == Some(name.len() + 1 + params.len() as int),
{
    reveal_strlit("::");
    reveal_strlit(" ");
    let rest = name + " "@ + params + "::"@ + msg;
    let nl = name.len() as int;
    let sep = nl + 1 + params.len();
    assert(rest.subrange(sep, sep + 2) =~= "::"@);
    assert(occurs_at(rest, "::"@, sep));
    assert forall|j: int| 0 <= j < sep implies !occurs_at(rest, "::"@, j) by {
        if occurs_at(rest, "::"@, j) {
            assert(rest.subrange(j, j + 2)[0] == rest[j]);
            if j < nl {
                assert(rest[j] == name[j]);
            } else if j == nl {
                assert(rest[j] == ' ');
            } else {
                assert(rest[j] == params[j - nl - 1]);
            }
        }
    }
    lemma_find_from(rest, "::"@, 0);
}

proof fn lemma_block_name(name: Seq<char>, params: Seq<char>)
    requires
        forall|k: int| 0 <= k < name.len() ==> !is_ws(#[trigger] name[k]),
    ensures
        find_ws(name + " "@ + params, 0) == name.len() as int,
{
    reveal_strlit(" ");
    let block = name + " "@ + params;
    let nl = name.len() as int;
    assert(block[nl] == ' ');
    assert forall|k: int| 0 <= k < nl implies !is_ws(#[trigger] block[k]) by {
        assert(block[k] == name[k]);
    }
    lemma_find_ws_at(block, 0, nl);
}

proof fn lemma_command_line_shape(name: Seq<char>, params: Seq<char>, msg: Seq<char>)
    requires
        forall|k: int| 0 <= k < name.len() ==> #[trigger] name[k] != ':' && !is_ws(name[k]),
        forall|i: int| 0 <= i < params.len() ==> #[trigger] params[i] != ':',
        trim(strip_colons(msg)).len() > 0,
    ensures
        workflow_command("::"@ + name + " "@ + params + "::"@ + msg) == match command_kind(name) {
            Some(kind) => Some((kind, trim(strip_colons(msg)), params_of(trim(params)))),
            None => None::<CommandView>,
        },
{
    reveal_strlit("::");
    reveal_strlit(" ");
    let line = "::"@ + name + " "@ + params + "::"@ + msg;
    let nl = name.len() as int;
    let sep = nl + 1 + params.len();
    assert(line[0] == ':');
    assert(skip_ws(line, 0) == 0);
    let t = trim_start(line);
    assert(t =~= line);
    assert(t.subrange(0, 2) =~= "::"@);
    let rest = t.subrange(2, t.len() as int);
    assert(rest =~= name + " "@ + params + "::"@ + msg);
    lemma_first_separator(name, params, msg);
    let block = rest.take(sep);
    assert(block =~= name + " "@ + params);
    lemma_block_name(name, params);
    assert(block.take(nl) =~= name);
    assert(block.subrange(nl + 1, block.len() as int) =~= params);
    let tail = rest.subrange(sep, rest.len() as int);
    assert(tail =~= "::"@ + msg);
    assert(tail.subrange(2, tail.len() as int) =~= msg);
    assert(strip_colons(tail) == strip_colons(msg));
}

fn parse_pair(part: &[char]) -> (r: Option<(String, String)>)
    ensures
        match r {
            Some(p) => param_pair(part@) == Some((p.0@, p.1@)),
            None => param_pair(part@) is None,
        },
{
    proof {
        reveal_strlit("=");
    }
    let eq = lit("=");
    assert(eq@ =~= seq!['=']);
    let (k, v) = match find_exec(part, eq.as_slice(), 0) {
        Some(e) => {
            proof {
                lemma_find_from(part@, seq!['='], 0);
                assert(occurs_at(part@, seq!['='], e as int));
            }
            (trimmed_range(part, 0, e), trimmed_range(part, e + 1, part.len()))
        },
        None => {
            assert(part@.subrange(0, part@.len() as int) =~= part@);
            (trimmed_range(part, 0, part.len()), String::new())
        },
    };
    proof {
        match find_from(part@, seq!['='], 0) {
            Some(e) => {
                assert(part@.take(e) =~= part@.subrange(0, e));
            },
            None => {},
        }
    }
    if !k.as_str().is_empty() && !v.as_str().is_empty() {
        Some((k, v))
    } else {
        None
    }
}

/// The `key=value` pairs of a command's parameter list, in order; pairs
/// with an empty key or value are dropped.
pub fn parse_command_params(input: &str) -> (out: Vec<(String, String)>)
    ensures
        param_views(out@) == params_of(input@),
{
    proof {
        reveal_strlit(",");
    }
    let v = chars_of(input);
    let mut out: Vec<(String, String)> = Vec::new();
    if v.len() == 0 {
        assert(param_views(out@) =~= Seq::<(Seq<char>, Seq<char>)>::empty());
        return out;
    }
    let s = v.as_slice();
    let comma = lit(",");
    assert(comma@ =~= seq![',']);
    let mut start: usize = 0;
    assert(param_views(out@) =~= Seq::<(Seq<char>, Seq<char>)>::empty());
    loop
        invariant_except_break
            start <= s.len(),
            param_views(out@) + params_of_parts(split_on(s@, ',', start as int)) == params_of_parts(split_on(s@, ',', 0)),
        invariant
            s@ == input@,
            s@.len() > 0,
            comma@ == seq![','],
        ensures
            param_views(out@) == params_of_parts(split_on(s@, ',', 0)),
        decreases s.len() + 1 - start,
    {
        let found = find_exec(s, comma.as_slice(), start);
        proof {
            lemma_find_from(s@, seq![','], start as int);
        }
        let end = match found {
            Some(k) => k,
            None => s.len(),
        };
        let part = vstd::slice::slice_subrange(s, start, end);
        let ghost before = param_views(out@);
        let pair = parse_pair(part);
        match pair {
            Some(p) => {
                out.push(p);
                assert(param_views(out@) =~= before.push(param_pair(part@).unwrap()));
            },
            None => {},
        }
        let ghost rest = match found {
            Some(k) => split_on(s@, ',', k + 1),
            None => Seq::<Seq<char>>::empty(),
        };
        assert(split_on(s@, ',', start as int) == seq![part@] + rest);
        assert((seq![part@] + rest).drop_first() =~= rest);
        assert(params_of_parts(seq![part@] + rest) == match param_pair(part@) {
            Some(p) => seq![p] + params_of_parts(rest),
            None => params_of_parts(rest),
        });
        match found {
            Some(k) => {
                assert(param_views(out@) + params_of_parts(rest) =~= before + params_of_parts(seq![part@] + rest));
                start = k + 1;
            },
            None => {
                assert(params_of_parts(rest) =~= Seq::<(Seq<char>, Seq<char>)>::empty());
                assert(param_views(out@) =~= before + params_of_parts(seq![part@] + rest));
                break;
            },
        }
    }
    out
}

/// The text after an annotation: `— (title) file:line:col`, with the title,
/// line and column each left out when absent; nothing without a file.
pub open spec fn annotation_meta(params: Seq<(Seq<char>, Seq<char>)>) -> Option<Seq<char>> {
    match param_get(params, "file"@) {
        None => None,
        Some(file) => {
            let location = match param_get(params, "line"@) {
                Some(line) => file + ":"@ + line + match param_get(params, "col"@) {
                    Some(col) => ":"@ + col,
                    None => Seq::<char>::empty(),
                },
                None => file,
            };
            let parts = match param_get(params, "title"@) {
                Some(title) => "("@ + title + ") "@ + location,
                None => location,
            };
            Some("\u{2014} "@ + parts)
        },
    }
}

fn param_lookup(params: &Vec<(String, String)>, key: &str) -> (r: Option<String>)
    ensures
        crate::text::opt_seq(r) == param_get(param_views(params@), key@),
{
    let mut i = params.len();
    assert(param_views(params@).take(i as int) =~= param_views(params@));
    while i > 0
        invariant
            i <= params.len(),
            param_get(param_views(params@), key@) == param_get(param_views(params@).take(i as int), key@),
        decreases i,
    {
        let ghost t = param_views(params@).take(i as int);
        assert(t.drop_last() =~= param_views(params@).take(i - 1));
        assert(t.last() == (params@[i - 1].0@, params@[i - 1].1@));
        if str_eq(params[i - 1].0.as_str(), key) {
            return Some(string_of(params[i - 1].1.as_str()));
        }
        i = i - 1;
    }
    None
}

/// The location text shown after an annotation.
pub fn build_annotation_meta(params: &Vec<(String, String)>) -> (r: Option<String>)
    ensures
        crate::text::opt_seq(r) == annotation_meta(param_views(params@)),
{
    proof {
        reveal_strlit(":");
        reveal_strlit("(");
        reveal_strlit(") ");
        reveal_strlit("\u{2014} ");
    }
    let file = match param_lookup(params, "file") {
        Some(f) => f,
        None => return None,
    };
    let line = param_lookup(params, "line");
    let col = param_lookup(params, "col");
    let title = param_lookup(params, "title");
    let mut location = file;
    if let Some(l) = &line {
        push_str(&mut location, ":");
        push_str(&mut location, l.as_str());
        if let Some(c) = &col {
            push_str(&mut location, ":");
            push_str(&mut location, c.as_str());
        }
    }
    let mut out = string_of("\u{2014} ");
    if let Some(t) = &title {
        push_str(&mut out, "(");
        push_str(&mut out, t.as_str());
        push_str(&mut out, ") ");
    }
    push_str(&mut out, location.as_str());
    Some(out)
}


fn slices_equal(a: &[char], b: &[char]) -> (r: bool)
    ensures
        r == (a@ == b@),
{
    if a.len() != b.len() {
        return false;
    }
    let mut i: usize = 0;
    while i < a.len()
        invariant
            a.len() == b.len(),
            i <= a.len(),
            forall|k: int| 0 <= k < i ==> a@[k] == b@[k],
        decreases a.len() - i,
    {
        if a[i] != b[i] {
            return false;
        }
        i = i + 1;
    }
    assert(a@ =~= b@);
    true
}

fn kind_of(name: &[char]) -> (r: Option<WorkflowCommandKind>)
    ensures
        r == command_kind(name@),
{
    if slices_equal(name, lit("notice").as_slice()) {
        Some(WorkflowCommandKind::Notice)
    } else if slices_equal(name, lit("warning").as_slice()) {
        Some(WorkflowCommandKind::Warning)
    } else if slices_equal(name, lit("error").as_slice()) {
        Some(WorkflowCommandKind::Error)
    } else if slices_equal(name, lit("debug").as_slice()) {
        Some(WorkflowCommandKind::Debug)
    } else {
        None
    }
}

/// The workflow command a log line holds, if any.
pub fn parse_workflow_command(text: &str) -> (r: Option<WorkflowCommand>)
    ensures
        match r {
            Some(c) => workflow_command(text@) == Some((c.kind, c.message@, param_views(c.params@))),
            None => workflow_command(text@) is None,
        },
{
    proof {
        reveal_strlit("::");
    }
    let v = chars_of(text);
    let s = v.as_slice();
    let a = skip_ws_from(s, 0);
    let ghost t = trim_start(s@);
    assert(t =~= s@.subrange(a as int, s@.len() as int));
    let colons = lit("::");
    if !starts_with_at(s, a, colons.as_slice()) {
        return None;
    }
    let rest = vstd::slice::slice_subrange(s, a + 2, s.len());
    assert(rest@ =~= t.subrange(2, t.len() as int));
    let sep = match find_exec(rest, colons.as_slice(), 0) {
        Some(k) => k,
        None => return None,
    };
    proof {
        lemma_find_from(rest@, "::"@, 0);
    }
    let mut m = sep;
    while m < rest.len() && rest.len() - m >= 2 && rest[m] == ':' && rest[m + 1] == ':'
        invariant
            sep <= m <= rest.len(),
            strip_colons(rest@.subrange(sep as int, rest@.len() as int)) == strip_colons(
                rest@.subrange(m as int, rest@.len() as int),
            ),
        decreases rest.len() - m,
    {
        assert(rest@.subrange(m as int, rest@.len() as int).subrange(2, rest@.len() - m) =~= rest@.subrange(m + 2, rest@.len() as int));
        m = m + 2;
    }
    assert(strip_colons(rest@.subrange(m as int, rest@.len() as int)) == rest@.subrange(m as int, rest@.len() as int));
    let message = trimmed_range(rest, m, rest.len());
    if message.as_str().is_empty() {
        return None;
    }
    let block = vstd::slice::slice_subrange(rest, 0, sep);
    assert(block@ =~= rest@.take(sep as int));
    let w = find_ws_from(block, 0);
    let name = vstd::slice::slice_subrange(block, 0, w);
    assert(name@ =~= block@.take(w as int));
    let kind = match kind_of(name) {
        Some(k) => k,
        None => return None,
    };
    let params_str = if w < block.len() {
        trimmed_range(block, w + 1, block.len())
    } else {
        String::new()
    };
    let params = parse_command_params(params_str.as_str());
    Some(WorkflowCommand { kind, message, params })
}

/// The message of an `##[error]` line, when it has one.
pub open spec fn error_message_of(text: Seq<char>) -> Option<Seq<char>> {
    if starts_with(text, "##[error]"@) && trim_start(text.subrange(9, text.len() as int)).len() > 0 {
        Some(trim_start(text.subrange(9, text.len() as int)))
    } else {
        None
    }
}

/// The message after `##[error]`, without leading whitespace, when not empty.
pub fn split_error_prefix(text: &str) -> (r: Option<String>)
    ensures
        crate::text::opt_seq(r) == error_message_of(text@),
{
    proof {
        reveal_strlit("##[error]");
    }
    let v = chars_of(text);
    let s = v.as_slice();
    assert(s@.subrange(0, s@.len() as int) =~= s@);
    if !starts_with_at(s, 0, lit("##[error]").as_slice()) {
        return None;
    }
    let b = skip_ws_from(s, 9);
    proof {
        lemma_skip_ws_shift(s@, 9);
    }
    if b == s.len() {
        return None;
    }
    Some(string_of_range(s, b, s.len()))
}

/// A line that reads as an error without a marker: after leading
/// whitespace, `Error:`, `error:` or `ERROR:`.
pub open spec fn plain_error(text: Seq<char>) -> bool {
    let t = trim_start(text);
    starts_with(t, "Error:"@) || starts_with(t, "error:"@) || starts_with(t, "ERROR:"@)
}

/// Whether a line reads as an error without a marker.
pub fn is_plain_error_line(text: &str) -> (r: bool)
    ensures
        r == plain_error(text@),
{
    let v = chars_of(text);
    let s = v.as_slice();
    let a = skip_ws_from(s, 0);
    assert(trim_start(s@) =~= s@.subrange(a as int, s@.len() as int));
    starts_with_at(s, a, lit("Error:").as_slice()) || starts_with_at(s, a, lit("error:").as_slice())
        || starts_with_at(s, a, lit("ERROR:").as_slice())
}


/// Skipping spaces stays within the sequence.
pub proof fn lemma_skip_spaces_bound(s: Seq<char>, i: int)
    requires
        0 <= i,
    ensures
        i <= skip_spaces(s, i) || i > s.len(),
        skip_spaces(s, i) <= s.len(),
    decreases s.len() - i,
{
    if i < s.len() && s[i] == ' ' {
        lemma_skip_spaces_bound(s, i + 1);
    }
}

} // verus!
