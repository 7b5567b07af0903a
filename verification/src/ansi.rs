//! ANSI SGR ("select graphic rendition") escape sequences in job logs: the
//! parser splits a line into spans of text that share one style.
use vstd::prelude::*;
use crate::text::{push_char, chars_of};

verus! {

/// The escape character that opens a control sequence.
pub const ESC: char = '\u{1b}';

/// One of the sixteen terminal colours: the eight basic ones and their bright
/// variants, each numbered 0..=7.
#[derive(Debug, Clone, Copy, PartialEq, Eq, Hash, Structural)]
pub enum AnsiColor {
    Basic(u8),
    Bright(u8),
}

/// The CSS colour the log viewer uses for `color`.
pub open spec fn css_of(color: AnsiColor) -> Seq<char> {
    match color {
        AnsiColor::Basic(0) => "#000000"@,
        AnsiColor::Basic(1) => "#cc0000"@,
        AnsiColor::Basic(2) => "#4e9a06"@,
        AnsiColor::Basic(3) => "#c4a000"@,
        AnsiColor::Basic(4) => "#3465a4"@,
        AnsiColor::Basic(5) => "#75507b"@,
        AnsiColor::Basic(6) => "#06989a"@,
        AnsiColor::Basic(7) => "#d3d7cf"@,
        AnsiColor::Bright(0) => "#555753"@,
        AnsiColor::Bright(1) => "#ef2929"@,
        AnsiColor::Bright(2) => "#8ae234"@,
        AnsiColor::Bright(3) => "#fce94f"@,
        AnsiColor::Bright(4) => "#729fcf"@,
        AnsiColor::Bright(5) => "#ad7fa8"@,
        AnsiColor::Bright(6) => "#34e2e2"@,
        AnsiColor::Bright(7) => "#eeeeec"@,
        _ => "#ffffff"@,
    }
}

impl AnsiColor {
    /// The CSS colour of this terminal colour (white for an index above 7).
    pub fn to_css(self) -> (r: &'static str)
        ensures
            r@ == css_of(self),
    {
        match self {
            AnsiColor::Basic(0) => "#000000",
            AnsiColor::Basic(1) => "#cc0000",
            AnsiColor::Basic(2) => "#4e9a06",
            AnsiColor::Basic(3) => "#c4a000",
            AnsiColor::Basic(4) => "#3465a4",
            AnsiColor::Basic(5) => "#75507b",
            AnsiColor::Basic(6) => "#06989a",
            AnsiColor::Basic(7) => "#d3d7cf",
            AnsiColor::Bright(0) => "#555753",
            AnsiColor::Bright(1) => "#ef2929",
            AnsiColor::Bright(2) => "#8ae234",
            AnsiColor::Bright(3) => "#fce94f",
            AnsiColor::Bright(4) => "#729fcf",
            AnsiColor::Bright(5) => "#ad7fa8",
            AnsiColor::Bright(6) => "#34e2e2",
            AnsiColor::Bright(7) => "#eeeeec",
            _ => "#ffffff",
        }
    }
}

/// One of the sixteen palette colours: basic or bright, numbered 0..=7.
pub open spec fn is_palette(c: AnsiColor) -> bool {
    match c {
        AnsiColor::Basic(n) => n < 8,
        AnsiColor::Bright(n) => n < 8,
    }
}

/// A lowercase hexadecimal digit.
pub open spec fn is_lower_hex(ch: char) -> bool {
    ('0' <= ch && ch <= '9') || ('a' <= ch && ch <= 'f')
}

/// Every palette colour is a `#rrggbb` colour in lowercase hexadecimal,
/// none of them the white an unknown index falls back to.
pub proof fn lemma_palette_css_format(c: AnsiColor)
    requires
        is_palette(c),
    ensures
        css_of(c).len() == 7,
        css_of(c)[0] == '#',
        forall|i: int| 1 <= i < 7 ==> is_lower_hex(#[trigger] css_of(c)[i]),
        css_of(c) != "#ffffff"@,
{
    reveal_strlit("#000000");
    reveal_strlit("#cc0000");
    reveal_strlit("#4e9a06");
    reveal_strlit("#c4a000");
    reveal_strlit("#3465a4");
    reveal_strlit("#75507b");
    reveal_strlit("#06989a");
    reveal_strlit("#d3d7cf");
    reveal_strlit("#555753");
    reveal_strlit("#ef2929");
    reveal_strlit("#8ae234");
    reveal_strlit("#fce94f");
    reveal_strlit("#729fcf");
    reveal_strlit("#ad7fa8");
    reveal_strlit("#34e2e2");
    reveal_strlit("#eeeeec");
    reveal_strlit("#ffffff");
    assert(css_of(c)[1] != 'f' || css_of(c)[2] != 'f' || css_of(c)[3] != 'f');
    assert(("#ffffff"@)[1] == 'f' && ("#ffffff"@)[2] == 'f' && ("#ffffff"@)[3] == 'f');
}

/// The sixteen palette colours are sixteen different CSS colours.
pub proof fn lemma_palette_css_distinct(c1: AnsiColor, c2: AnsiColor)
    requires
        is_palette(c1),
        is_palette(c2),
        c1 != c2,
    ensures
        css_of(c1) != css_of(c2),
{
    reveal_strlit("#000000");
    reveal_strlit("#cc0000");
    reveal_strlit("#4e9a06");
    reveal_strlit("#c4a000");
    reveal_strlit("#3465a4");
    reveal_strlit("#75507b");
    reveal_strlit("#06989a");
    reveal_strlit("#d3d7cf");
    reveal_strlit("#555753");
    reveal_strlit("#ef2929");
    reveal_strlit("#8ae234");
    reveal_strlit("#fce94f");
    reveal_strlit("#729fcf");
    reveal_strlit("#ad7fa8");
    reveal_strlit("#34e2e2");
    reveal_strlit("#eeeeec");
    reveal_strlit("#ffffff");
    assert(css_of(c1)[1] != css_of(c2)[1] || css_of(c1)[2] != css_of(c2)[2] || css_of(c1)[3] != css_of(c2)[3]);
}

/// The rendition in force at some point of a log line.
#[derive(Debug, Clone, Copy, PartialEq, Eq, Hash, Structural)]
pub struct AnsiStyle {
    pub bold: bool,
    pub underline: bool,
    pub fg: Option<AnsiColor>,
    pub bg: Option<AnsiColor>,
}

/// Plain text: no emphasis, no colours.
pub open spec fn default_style() -> AnsiStyle {
    AnsiStyle { bold: false, underline: false, fg: None, bg: None }
}

impl Default for AnsiStyle {
    fn default() -> (r: Self)
        ensures
            r == default_style(),
    {
        AnsiStyle { bold: false, underline: false, fg: None, bg: None }
    }
}

impl AnsiStyle {
    /// Whether this is plain text.
    pub fn is_default(&self) -> (r: bool)
        ensures
            r == (*self == default_style()),
    {
        !self.bold && !self.underline && self.fg.is_none() && self.bg.is_none()
    }
}

/// A run of text that shares one style.
#[derive(Debug, Clone, PartialEq, Eq)]
pub struct AnsiSpan {
    pub text: String,
    pub style: AnsiStyle,
}

impl View for AnsiSpan {
    type V = (Seq<char>, AnsiStyle);

    open spec fn view(&self) -> (Seq<char>, AnsiStyle) {
        (self.text@, self.style)
    }
}

/// The views of a list of spans.
pub open spec fn span_views(spans: Seq<AnsiSpan>) -> Seq<(Seq<char>, AnsiStyle)> {
    spans.map_values(|sp: AnsiSpan| sp@)
}

/// What one SGR code does to a style. Codes the viewer does not render leave
/// the style as it is.
pub open spec fn sgr_code_effect(code: u16, style: AnsiStyle) -> AnsiStyle {
    if code == 0 {
        default_style()
    } else if code == 1 {
        AnsiStyle { bold: true, ..style }
    } else if code == 4 {
        AnsiStyle { underline: true, ..style }
    } else if code == 22 {
        AnsiStyle { bold: false, ..style }
    } else if code == 24 {
        AnsiStyle { underline: false, ..style }
    } else if 30 <= code <= 37 {
        AnsiStyle { fg: Some(AnsiColor::Basic((code - 30) as u8)), ..style }
    } else if 90 <= code <= 97 {
        AnsiStyle { fg: Some(AnsiColor::Bright((code - 90) as u8)), ..style }
    } else if code == 39 {
        AnsiStyle { fg: None, ..style }
    } else if 40 <= code <= 47 {
        AnsiStyle { bg: Some(AnsiColor::Basic((code - 40) as u8)), ..style }
    } else if 100 <= code <= 107 {
        AnsiStyle { bg: Some(AnsiColor::Bright((code - 100) as u8)), ..style }
    } else if code == 49 {
        AnsiStyle { bg: None, ..style }
    } else {
        style
    }
}

/// The first index `k >= from` with `s[k] == c`, or -1 when there is none.
pub open spec fn index_of_from(s: Seq<char>, c: char, from: int) -> int
    decreases s.len() - from,
{
    if from >= s.len() {
        -1
    } else if s[from] == c {
        from
    } else {
        index_of_from(s, c, from + 1)
    }
}

/// A found index lies at or after `from` and holds `c`; nothing before it does.
pub proof fn lemma_index_of_from(s: Seq<char>, c: char, from: int)
    requires
        0 <= from,
    ensures
        index_of_from(s, c, from) == -1 || (from <= index_of_from(s, c, from) < s.len() && s[index_of_from(s, c, from)] == c),
        index_of_from(s, c, from) == -1 ==> forall|k: int| from <= k < s.len() ==> s[k] != c,
        index_of_from(s, c, from) >= 0 ==> forall|k: int| from <= k < index_of_from(s, c, from) ==> s[k] != c,
    decreases s.len() - from,
{
    if from < s.len() && s[from] != c {
        lemma_index_of_from(s, c, from + 1);
    }
}

/// Whether every character is an ASCII digit.
pub open spec fn all_digits(s: Seq<char>) -> bool {
    forall|i: int| 0 <= i < s.len() ==> '0' <= #[trigger] s[i] && s[i] <= '9'
}

/// The value of a string of decimal digits.
pub open spec fn digits_value(s: Seq<char>) -> nat
    decreases s.len(),
{
    if s.len() == 0 {
        0
    } else {
        digits_value(s.drop_last()) * 10 + ((s.last() as u32) - ('0' as u32)) as nat
    }
}

/// A run of decimal digits read as a `u16`: at least one digit, only digits,
/// and a value of at most 65535.
pub open spec fn parse_digits(d: Seq<char>) -> Option<u16> {
    if d.len() == 0 || !all_digits(d) || digits_value(d) > 65535 {
        None
    } else {
        Some(digits_value(d) as u16)
    }
}

/// A `u16` written in decimal, as std's `u16::from_str` reads it: an optional
/// leading `+`, then one or more ASCII digits, for a value of at most 65535.
pub open spec fn parse_u16(s: Seq<char>) -> Option<u16> {
    if s.len() > 0 && s[0] == '+' {
        parse_digits(s.drop_first())
    } else {
        parse_digits(s)
    }
}

/// The parts of `s` from `start` on, split at each `;`.
pub open spec fn parts_from(s: Seq<char>, start: int) -> Seq<Seq<char>>
    decreases s.len() - start,
{
    if start < 0 || start > s.len() {
        seq![]
    } else {
        let k = index_of_from(s, ';', start);
        if k < 0 {
            seq![s.subrange(start, s.len() as int)]
        } else {
            proof {
                lemma_index_of_from(s, ';', start);
            }
            seq![s.subrange(start, k)] + parts_from(s, k + 1)
        }
    }
}

/// What one `;`-separated part does to the (style, any code seen) pair: an
/// empty part counts as code 0; a part that is not a `u16` is skipped.
pub open spec fn sgr_part_step(part: Seq<char>, st: (AnsiStyle, bool)) -> (AnsiStyle, bool) {
    if part.len() == 0 {
        (sgr_code_effect(0, st.0), true)
    } else {
        match parse_u16(part) {
            Some(v) => (sgr_code_effect(v, st.0), true),
            None => st,
        }
    }
}

/// The parts applied left to right.
pub open spec fn sgr_fold(parts: Seq<Seq<char>>, st: (AnsiStyle, bool)) -> (AnsiStyle, bool)
    decreases parts.len(),
{
    if parts.len() == 0 {
        st
    } else {
        sgr_fold(parts.drop_first(), sgr_part_step(parts[0], st))
    }
}

/// What the parameters of one `ESC [ ... m` sequence do to a style: an empty
/// sequence, or one with no readable code, resets to plain text.
pub open spec fn sgr_sequence_effect(seq: Seq<char>, style: AnsiStyle) -> AnsiStyle {
    if seq.len() == 0 {
        default_style()
    } else {
        let r = sgr_fold(parts_from(seq, 0), (style, false));
        if r.1 {
            r.0
        } else {
            default_style()
        }
    }
}

/// `spans` with the pending text appended as a span, when there is any.
pub open spec fn flush_span(
    spans: Seq<(Seq<char>, AnsiStyle)>,
    cur: Seq<char>,
    style: AnsiStyle,
) -> Seq<(Seq<char>, AnsiStyle)> {
    if cur.len() > 0 {
        spans.push((cur, style))
    } else {
        spans
    }
}

/// Scans `s` from `i` with `style` in force, `cur` pending and `spans` done.
/// An `ESC [` followed somewhere by `m` is a sequence; an `ESC` without its
/// `m` is ordinary text.
pub open spec fn ansi_scan(
    s: Seq<char>,
    i: int,
    style: AnsiStyle,
    cur: Seq<char>,
    spans: Seq<(Seq<char>, AnsiStyle)>,
) -> Seq<(Seq<char>, AnsiStyle)>
    decreases s.len() - i,
{
    if i < 0 || i >= s.len() {
        flush_span(spans, cur, style)
    } else if s[i] == ESC && i + 1 < s.len() && s[i + 1] == '[' && index_of_from(s, 'm', i + 2)
        >= 0 {
        let j = index_of_from(s, 'm', i + 2);
        proof {
            lemma_index_of_from(s, 'm', i + 2);
        }
        ansi_scan(
            s,
            j + 1,
            sgr_sequence_effect(s.subrange(i + 2, j), style),
            seq![],
            flush_span(spans, cur, style),
        )
    } else {
        ansi_scan(s, i + 1, style, cur.push(s[i]), spans)
    }
}

/// The styled spans of a log line.
pub open spec fn ansi_spans(s: Seq<char>) -> Seq<(Seq<char>, AnsiStyle)> {
    ansi_scan(s, 0, default_style(), seq![], seq![])
}

proof fn lemma_scan_plain(
    s: Seq<char>,
    i: int,
    style: AnsiStyle,
    cur: Seq<char>,
    spans: Seq<(Seq<char>, AnsiStyle)>,
)
    requires
        0 <= i <= s.len(),
        forall|k: int| i <= k < s.len() ==> #[trigger] s[k] != ESC,
    ensures
        ansi_scan(s, i, style, cur, spans) == flush_span(spans, cur + s.subrange(i, s.len() as int), style),
    decreases s.len() - i,
{
    if i < s.len() {
        lemma_scan_plain(s, i + 1, style, cur.push(s[i]), spans);
        assert(cur.push(s[i]) + s.subrange(i + 1, s.len() as int) =~= cur + s.subrange(i, s.len() as int));
    } else {
        assert(cur + s.subrange(i, s.len() as int) =~= cur);
    }
}

proof fn lemma_two_digit_sequence(d1: char, d2: char, text: Seq<char>, style: AnsiStyle)
    requires
        '0' <= d1 <= '9',
        '0' <= d2 <= '9',
        text.len() > 0,
        forall|k: int| 0 <= k < text.len() ==> #[trigger] text[k] != ESC,
    ensures
        ansi_scan(seq![ESC, '[', d1, d2, 'm'] + text, 0, style, seq![], seq![]) == seq![
            (text, sgr_code_effect(((d1 as u32 - '0' as u32) * 10 + (d2 as u32 - '0' as u32)) as u16, style)),
        ],
{
    let s = seq![ESC, '[', d1, d2, 'm'] + text;
    assert(s[0] == ESC && s[1] == '[' && s[2] == d1 && s[3] == d2 && s[4] == 'm');
    assert(index_of_from(s, 'm', 4) == 4);
    assert(index_of_from(s, 'm', 3) == 4);
    assert(index_of_from(s, 'm', 2) == 4);
    let p = s.subrange(2, 4);
    assert(p =~= seq![d1, d2]);
    assert(index_of_from(p, ';', 2) == -1);
    assert(index_of_from(p, ';', 1) == -1);
    assert(index_of_from(p, ';', 0) == -1);
    assert(p.subrange(0, 2) =~= p);
    assert(parts_from(p, 0) =~= seq![p]);
    assert(seq![p].drop_first() =~= Seq::<Seq<char>>::empty());
    assert(all_digits(p));
    assert(p.drop_last() =~= seq![d1]);
    assert(seq![d1].drop_last() =~= Seq::<char>::empty());
    assert(seq![d1].last() == d1);
    assert(p.last() == d2);
    assert(digits_value(Seq::<char>::empty()) == 0);
    assert(digits_value(seq![d1]) == (d1 as u32 - '0' as u32) as nat);
    let v = (d1 as u32 - '0' as u32) * 10 + (d2 as u32 - '0' as u32);
    assert(digits_value(p) == v);
    assert(parse_u16(p) == Some(v as u16));
    let eff = sgr_code_effect(v as u16, style);
    let st1 = sgr_part_step(p, (style, false));
    assert(st1 == (eff, true));
    assert(sgr_fold(seq![p], (style, false)) == sgr_fold(Seq::<Seq<char>>::empty(), st1));
    assert(sgr_fold(Seq::<Seq<char>>::empty(), st1) == st1);
    assert(sgr_sequence_effect(p, style) == eff);
    lemma_scan_plain(s, 5, eff, seq![], seq![]);
    assert(s.subrange(5, s.len() as int) =~= text);
    assert(Seq::<char>::empty() + text =~= text);
}

/// A line that sets one basic colour and then holds plain text is one span of
/// that text: `ESC[3<n>m` colours the text with basic colour `n` and leaves
/// the background alone; `ESC[4<n>m` gives it basic background `n` and leaves
/// the text colour alone; nothing else is set.
pub proof fn lemma_basic_colour_line(n: u8, text: Seq<char>)
    requires
        n < 8,
        text.len() > 0,
        forall|k: int| 0 <= k < text.len() ==> #[trigger] text[k] != ESC,
    ensures
        ansi_spans(seq![ESC, '[', '3', ((n as int) + 48) as char, 'm'] + text) == seq![
            (text, AnsiStyle { bold: false, underline: false, fg: Some(AnsiColor::Basic(n)), bg: None }),
        ],
        ansi_spans(seq![ESC, '[', '4', ((n as int) + 48) as char, 'm'] + text) == seq![
            (text, AnsiStyle { bold: false, underline: false, fg: None, bg: Some(AnsiColor::Basic(n)) }),
        ],
{
    let d = ((n as int) + 48) as char;
    lemma_two_digit_sequence('3', d, text, default_style());
    lemma_two_digit_sequence('4', d, text, default_style());
    lemma_sgr_code_law((30 + n) as u16, default_style());
    lemma_sgr_code_law((40 + n) as u16, default_style());
}

/// Reads `s[start..end]` as a `u16`, as `u16::from_str` does.
fn parse_u16_range(s: &Vec<char>, start: usize, end: usize) -> (r: Option<u16>)
    requires
        start <= end <= s.len(),
    ensures
        r == parse_u16(s@.subrange(start as int, end as int)),
{
    let ghost part = s@.subrange(start as int, end as int);
    let mut k = start;
    if k < end && s[k] == '+' {
        k = k + 1;
    }
    let ghost d = s@.subrange(k as int, end as int);
    assert(parse_u16(part) == parse_digits(d)) by {
        if part.len() > 0 && part[0] == '+' {
            assert(part.drop_first() =~= d);
        } else {
            assert(part =~= d);
        }
    }
    if k == end {
        return None;
    }
    let mut value: u32 = 0;
    let mut over = false;
    let mut p = k;
    while p < end
        invariant
            start <= k <= p <= end <= s.len(),
            part == s@.subrange(start as int, end as int),
            d == s@.subrange(k as int, end as int),
            parse_u16(part) == parse_digits(d),
            all_digits(s@.subrange(k as int, p as int)),
            over ==> digits_value(s@.subrange(k as int, p as int)) > 65535,
            !over ==> value == digits_value(s@.subrange(k as int, p as int)) && value <= 65535,
        decreases end - p,
    {
        let c = s[p];
        if !('0' <= c && c <= '9') {
            assert(d[(p - k) as int] == c);
            assert(!all_digits(d));
            return None;
        }
        let ghost prev = s@.subrange(k as int, p as int);
        let ghost next = s@.subrange(k as int, p + 1);
        assert(next.drop_last() == prev);
        assert(next.last() == c);
        assert(all_digits(next));
        if !over {
            let dv: u32 = (c as u32) - ('0' as u32);
            let nv: u32 = value * 10 + dv;
            if nv > 65535 {
                over = true;
            } else {
                value = nv;
            }
        }
        p = p + 1;
    }
    assert(s@.subrange(k as int, p as int) == d);
    if over {
        None
    } else {
        Some(value as u16)
    }
}

/// What each SGR code does to the four parts of a style. `30`–`37` and
/// `90`–`97` pick the text colour (basic, bright) and leave the background;
/// `40`–`47` and `100`–`107` pick the background and leave the text colour;
/// `39` and `49` drop one of them; `1`/`22` and `4`/`24` switch bold and
/// underline; `0` clears everything; any other code changes nothing.
pub proof fn lemma_sgr_code_law(code: u16, style: AnsiStyle)
    ensures
        ({
            let r = sgr_code_effect(code, style);
            &&& 30 <= code <= 37 ==> (r.fg matches Some(AnsiColor::Basic(n)) && n + 30 == code
                && r.bg == style.bg && r.bold == style.bold && r.underline == style.underline)
            &&& 90 <= code <= 97 ==> (r.fg matches Some(AnsiColor::Bright(n)) && n + 90 == code
                && r.bg == style.bg && r.bold == style.bold && r.underline == style.underline)
            &&& 40 <= code <= 47 ==> (r.bg matches Some(AnsiColor::Basic(n)) && n + 40 == code
                && r.fg == style.fg && r.bold == style.bold && r.underline == style.underline)
            &&& 100 <= code <= 107 ==> (r.bg matches Some(AnsiColor::Bright(n)) && n + 100 == code
                && r.fg == style.fg && r.bold == style.bold && r.underline == style.underline)
            &&& code == 39 ==> r.fg is None && r.bg == style.bg && r.bold == style.bold
                && r.underline == style.underline
            &&& code == 49 ==> r.bg is None && r.fg == style.fg && r.bold == style.bold
                && r.underline == style.underline
            &&& code == 0 ==> r.fg is None && r.bg is None && !r.bold && !r.underline
            &&& (code == 1 || code == 22) ==> r.bold == (code == 1) && r.fg == style.fg
                && r.bg == style.bg && r.underline == style.underline
            &&& (code == 4 || code == 24) ==> r.underline == (code == 4) && r.fg == style.fg
                && r.bg == style.bg && r.bold == style.bold
            &&& !(code <= 1 || code == 4 || code == 22 || code == 24 || 30 <= code <= 37 || code == 39
                || 40 <= code <= 47 || code == 49 || 90 <= code <= 97 || 100 <= code <= 107) ==> r
                == style
        }),
{
}

/// Applies one SGR code to `style`.
fn apply_sgr_code(code: u16, style: &mut AnsiStyle)
    ensures
        *final(style) == sgr_code_effect(code, *old(style)),
{
    match code {
        0 => *style = AnsiStyle::default(),
        1 => style.bold = true,
        4 => style.underline = true,
        22 => style.bold = false,
        24 => style.underline = false,
        30..=37 => style.fg = Some(AnsiColor::Basic((code - 30) as u8)),
        90..=97 => style.fg = Some(AnsiColor::Bright((code - 90) as u8)),
        39 => style.fg = None,
        40..=47 => style.bg = Some(AnsiColor::Basic((code - 40) as u8)),
        100..=107 => style.bg = Some(AnsiColor::Bright((code - 100) as u8)),
        49 => style.bg = None,
        _ => {},
    }
}

/// Applies the parameters of one `ESC [ ... m` sequence to `style`.
fn apply_sgr_sequence(seq: &str, style: &mut AnsiStyle)
    ensures
        *final(style) == sgr_sequence_effect(seq@, *old(style)),
{
    let s = chars_of(seq);
    let n = s.len();
    if n == 0 {
        *style = AnsiStyle::default();
        return;
    }
    let ghost init = *style;
    let mut any = false;
    let mut start: usize = 0;
    loop
        invariant_except_break
            sgr_fold(parts_from(s@, 0), (init, false)) == sgr_fold(
                parts_from(s@, start as int),
                (*style, any),
            ),
        invariant
            s@ == seq@,
            n == s.len(),
            n > 0,
            start <= n,
        ensures
            sgr_fold(parts_from(s@, 0), (init, false)) == (*style, any),
        decreases n - start,
    {
        let mut j = start;
        while j < n && s[j] != ';'
            invariant
                start <= j <= n,
                n == s.len(),
                index_of_from(s@, ';', start as int) == index_of_from(s@, ';', j as int),
            decreases n - j,
        {
            j = j + 1;
        }
        proof {
            lemma_index_of_from(s@, ';', start as int);
        }
        let ghost part = s@.subrange(start as int, j as int);
        let ghost before = (*style, any);
        if j == start {
            any = true;
            apply_sgr_code(0, style);
        } else {
            match parse_u16_range(&s, start, j) {
                Some(value) => {
                    any = true;
                    apply_sgr_code(value, style);
                },
                None => {},
            }
        }
        assert((*style, any) == sgr_part_step(part, before));
        if j == n {
            assert(parts_from(s@, start as int) == seq![part]);
            assert(seq![part].drop_first() =~= Seq::<Seq<char>>::empty());
            assert(sgr_fold(seq![part], before) == sgr_fold(
                seq![part].drop_first(),
                sgr_part_step(part, before),
            ));
            assert(sgr_fold(Seq::<Seq<char>>::empty(), (*style, any)) == (*style, any));
            break;
        }
        assert(parts_from(s@, start as int) == seq![part] + parts_from(s@, j + 1));
        assert((seq![part] + parts_from(s@, j + 1)).drop_first() =~= parts_from(s@, j + 1));
        start = j + 1;
    }
    if !any {
        *style = AnsiStyle::default();
    }
}

fn string_of_range(s: &Vec<char>, start: usize, end: usize) -> (out: String)
    requires
        start <= end <= s.len(),
    ensures
        out@ == s@.subrange(start as int, end as int),
{
    let mut out = String::new();
    let mut k = start;
    while k < end
        invariant
            start <= k <= end <= s.len(),
            out@ == s@.subrange(start as int, k as int),
        decreases end - k,
    {
        push_char(&mut out, s[k]);
        assert(s@.subrange(start as int, k + 1) == s@.subrange(start as int, k as int).push(
            s@[k as int],
        ));
        k = k + 1;
    }
    out
}

proof fn lemma_push_span(spans: Seq<AnsiSpan>, sp: AnsiSpan)
    ensures
        span_views(spans.push(sp)) == span_views(spans).push(sp@),
{
    assert(span_views(spans.push(sp)) =~= span_views(spans).push(sp@));
}

/// Splits a log line into styled spans. Each `ESC [ ... m` sequence ends the
/// span before it and changes the style of the text after it; the sequences
/// themselves are not part of any span, and no span is empty.
pub fn parse_ansi(input: &str) -> (spans: Vec<AnsiSpan>)
    ensures
        span_views(spans@) == ansi_spans(input@),
{
    let s = chars_of(input);
    let n = s.len();
    let mut spans: Vec<AnsiSpan> = Vec::new();
    let mut style = AnsiStyle::default();
    let mut current = String::new();
    let mut i: usize = 0;
    assert(span_views(spans@) =~= Seq::<(Seq<char>, AnsiStyle)>::empty());
    while i < n
        invariant
            s@ == input@,
            n == s.len(),
            i <= n,
            ansi_spans(input@) == ansi_scan(s@, i as int, style, current@, span_views(spans@)),
        decreases n - i,
    {
        if s[i] == ESC && i + 1 < n && s[i + 1] == '[' {
            let mut j = i + 2;
            while j < n && s[j] != 'm'
                invariant
                    i + 2 <= j <= n,
                    n == s.len(),
                    index_of_from(s@, 'm', i + 2) == index_of_from(s@, 'm', j as int),
                decreases n - j,
            {
                j = j + 1;
            }
            proof {
                lemma_index_of_from(s@, 'm', i + 2);
            }
            if j < n {
                let ghost before = span_views(spans@);
                let ghost pending = current@;
                if !current.as_str().is_empty() {
                    let sp = AnsiSpan { text: current, style };
                    proof {
                        lemma_push_span(spans@, sp);
                    }
                    spans.push(sp);
                }
                current = String::new();
                assert(span_views(spans@) == flush_span(before, pending, style));
                let seq_text = string_of_range(&s, i + 2, j);
                apply_sgr_sequence(seq_text.as_str(), &mut style);
                i = j + 1;
                continue;
            }
        }
        push_char(&mut current, s[i]);
        i = i + 1;
    }
    if !current.as_str().is_empty() {
        let sp = AnsiSpan { text: current, style };
        proof {
            lemma_push_span(spans@, sp);
        }
        spans.push(sp);
    }
    spans
}

} // verus!
