//! Searching and trimming character sequences, with the meanings std gives
//! them: whitespace is Unicode's `White_Space`, byte lengths are UTF-8's.
use vstd::prelude::*;
use crate::text::{chars_of, push_char};

verus! {

/// Whether `c` is Unicode whitespace, as `char::is_whitespace` reads it.
pub open spec fn is_ws(c: char) -> bool {
    ||| c == '\t' || c == '\n' || c == '\u{0B}' || c == '\u{0C}' || c == '\r' || c == ' '
    ||| c == '\u{85}' || c == '\u{A0}' || c == '\u{1680}'
    ||| ('\u{2000}' <= c && c <= '\u{200A}')
    ||| c == '\u{2028}' || c == '\u{2029}' || c == '\u{202F}' || c == '\u{205F}' || c == '\u{3000}'
}

/// Whether `c` is whitespace.
pub fn char_is_ws(c: char) -> (r: bool)
    ensures
        r == is_ws(c),
{
    c == '\t' || c == '\n' || c == '\u{0B}' || c == '\u{0C}' || c == '\r' || c == ' ' || c
        == '\u{85}' || c == '\u{A0}' || c == '\u{1680}' || ('\u{2000}' <= c && c <= '\u{200A}')
        || c == '\u{2028}' || c == '\u{2029}' || c == '\u{202F}' || c == '\u{205F}' || c
        == '\u{3000}'
}

/// Whether `c` is an ASCII digit.
pub open spec fn is_digit(c: char) -> bool {
    '0' <= c && c <= '9'
}

/// The number of UTF-8 bytes of `c`.
pub open spec fn char_utf8_len(c: char) -> nat {
    if (c as u32) < 0x80 {
        1
    } else if (c as u32) < 0x800 {
        2
    } else if (c as u32) < 0x10000 {
        3
    } else {
        4
    }
}

/// The number of UTF-8 bytes of `s`, what `str::len` answers.
pub open spec fn utf8_len(s: Seq<char>) -> nat
    decreases s.len(),
{
    if s.len() == 0 {
        0
    } else {
        utf8_len(s.drop_last()) + char_utf8_len(s.last())
    }
}

/// The UTF-8 length of `s`, capped at `cap`.
pub fn utf8_len_capped(s: &[char], cap: usize) -> (r: usize)
    requires
        cap < usize::MAX - 4,
    ensures
        r == if utf8_len(s@) < cap { utf8_len(s@) } else { cap as nat },
{
    let mut total: usize = 0;
    let mut i: usize = 0;
    while i < s.len()
        invariant
            i <= s.len(),
            cap < usize::MAX - 4,
            total < cap ==> total == utf8_len(s@.take(i as int)),
            total >= cap ==> utf8_len(s@.take(i as int)) >= cap && total == cap,
        decreases s.len() - i,
    {
        assert(s@.take(i + 1).drop_last() =~= s@.take(i as int));
        if total < cap {
            let c = s[i];
            let w: usize = if (c as u32) < 0x80 {
                1
            } else if (c as u32) < 0x800 {
                2
            } else if (c as u32) < 0x10000 {
                3
            } else {
                4
            };
            total = total + w;
            if total >= cap {
                total = cap;
            }
        } else {
            assert(utf8_len(s@.take(i + 1)) >= utf8_len(s@.take(i as int)));
        }
        i = i + 1;
    }
    assert(s@.take(s.len() as int) =~= s@);
    total
}

/// The first index at or after `i` that holds no whitespace, or the length.
pub open spec fn skip_ws(s: Seq<char>, i: int) -> int
    decreases s.len() - i,
{
    if i < 0 {
        0
    } else if i >= s.len() {
        s.len() as int
    } else if is_ws(s[i]) {
        skip_ws(s, i + 1)
    } else {
        i
    }
}

/// `s` without its leading whitespace (`str::trim_start`).
pub open spec fn trim_start(s: Seq<char>) -> Seq<char> {
    s.subrange(skip_ws(s, 0), s.len() as int)
}

/// The end of `s[..end]` without its trailing whitespace.
pub open spec fn trim_end_at(s: Seq<char>, end: int) -> int
    decreases end,
{
    if end <= 0 {
        0
    } else if is_ws(s[end - 1]) {
        trim_end_at(s, end - 1)
    } else {
        end
    }
}

/// `s` without leading and trailing whitespace (`str::trim`).
pub open spec fn trim(s: Seq<char>) -> Seq<char> {
    let t = trim_start(s);
    t.subrange(0, trim_end_at(t, t.len() as int))
}

/// Whether `s` begins with `p`.
pub open spec fn starts_with(s: Seq<char>, p: Seq<char>) -> bool {
    p.len() <= s.len() && s.subrange(0, p.len() as int) == p
}

/// Whether `p` occurs in `s` at `k`.
pub open spec fn occurs_at(s: Seq<char>, p: Seq<char>, k: int) -> bool {
    0 <= k && k + p.len() <= s.len() && s.subrange(k, k + p.len()) == p
}

/// The first index at or after `from` where `p` occurs in `s`, if any.
pub open spec fn find_from(s: Seq<char>, p: Seq<char>, from: int) -> Option<int>
    decreases s.len() + 1 - from,
{
    if from < 0 || from + p.len() > s.len() {
        None
    } else if occurs_at(s, p, from) {
        Some(from)
    } else {
        find_from(s, p, from + 1)
    }
}

/// A found occurrence is the first one at or after `from`.
pub proof fn lemma_find_from(s: Seq<char>, p: Seq<char>, from: int)
    requires
        0 <= from,
    ensures
        find_from(s, p, from) matches Some(k) ==> from <= k && occurs_at(s, p, k) && forall|j: int| from <= j < k ==> !occurs_at(s, p, j),
        find_from(s, p, from) is None ==> forall|j: int| from <= j ==> !occurs_at(s, p, j),
    decreases s.len() + 1 - from,
{
    if from + p.len() <= s.len() && !occurs_at(s, p, from) {
        lemma_find_from(s, p, from + 1);
    }
}

/// The first index at or after `i` that holds no whitespace.
pub fn skip_ws_from(s: &[char], i: usize) -> (r: usize)
    requires
        i <= s.len(),
    ensures
        r == skip_ws(s@, i as int),
        i <= r <= s.len(),
{
    let mut k = i;
    while k < s.len() && char_is_ws(s[k])
        invariant
            i <= k <= s.len(),
            skip_ws(s@, i as int) == skip_ws(s@, k as int),
        decreases s.len() - k,
    {
        k = k + 1;
    }
    k
}

/// The end of `s[..end]` without its trailing whitespace, but not before
/// `start`.
pub fn trim_end_from(s: &[char], start: usize, end: usize) -> (r: usize)
    requires
        start <= end <= s.len(),
    ensures
        r == start + trim_end_at(s@.subrange(start as int, end as int), end - start),
        start <= r <= end,
{
    let ghost t = s@.subrange(start as int, end as int);
    let mut k = end;
    while k > start && char_is_ws(s[k - 1])
        invariant
            start <= k <= end <= s.len(),
            t == s@.subrange(start as int, end as int),
            trim_end_at(t, end - start) == trim_end_at(t, k - start),
        decreases k,
    {
        assert(t[k - start - 1] == s@[k - 1]);
        k = k - 1;
    }
    if k > start {
        assert(t[k - start - 1] == s@[k - 1]);
    }
    k
}

/// Whether `p` occurs in `s` at `k`.
pub fn occurs_at_exec(s: &[char], p: &[char], k: usize) -> (r: bool)
    ensures
        r == occurs_at(s@, p@, k as int),
{
    if k > s.len() || p.len() > s.len() - k {
        return false;
    }
    let mut j: usize = 0;
    while j < p.len()
        invariant
            j <= p.len(),
            k + p.len() <= s.len(),
            forall|m: int| 0 <= m < j ==> s@[k + m] == p@[m],
        decreases p.len() - j,
    {
        if s[k + j] != p[j] {
            assert(s@.subrange(k as int, k + p.len())[j as int] != p@[j as int]);
            return false;
        }
        j = j + 1;
    }
    assert(s@.subrange(k as int, k + p.len()) =~= p@);
    true
}

/// The first index at or after `from` where `p` occurs in `s`.
pub fn find_exec(s: &[char], p: &[char], from: usize) -> (r: Option<usize>)
    requires
        from <= s.len(),
    ensures
        r matches Some(k) ==> find_from(s@, p@, from as int) == Some(k as int),
        r is None ==> find_from(s@, p@, from as int) is None,
{
    let mut k = from;
    while k < s.len()
        invariant
            from <= k <= s.len(),
            find_from(s@, p@, from as int) == find_from(s@, p@, k as int),
        decreases s.len() - k,
    {
        if p.len() > s.len() - k {
            return None;
        }
        if occurs_at_exec(s, p, k) {
            return Some(k);
        }
        k = k + 1;
    }
    assert(find_from(s@, p@, k + 1) is None);
    if occurs_at_exec(s, p, k) {
        Some(k)
    } else {
        None
    }
}

/// Whether `s[i..]` begins with `p`.
pub fn starts_with_at(s: &[char], i: usize, p: &[char]) -> (r: bool)
    requires
        i <= s.len(),
    ensures
        r == starts_with(s@.subrange(i as int, s.len() as int), p@),
{
    let r = occurs_at_exec(s, p, i);
    proof {
        let t = s@.subrange(i as int, s.len() as int);
        if p@.len() <= t.len() {
            assert(t.subrange(0, p@.len() as int) =~= s@.subrange(i as int, i + p@.len()));
        }
    }
    r
}

/// The characters of `s[start..end]` as a new string.
pub fn string_of_range(s: &[char], start: usize, end: usize) -> (out: String)
    requires
        start <= end <= s.len(),
    ensures
        out@ == s@.subrange(start as int, end as int),
{
    let mut out = String::new();
    let mut k = start;
    while k < end
        invariant
            start <= k <= end <= s.len(),
            out@ == s@.subrange(start as int, k as int),
        decreases end - k,
    {
        push_char(&mut out, s[k]);
        assert(s@.subrange(start as int, k + 1) == s@.subrange(start as int, k as int).push(
            s@[k as int],
        ));
        k = k + 1;
    }
    out
}

/// The characters of a string literal.
pub fn lit(s: &str) -> (v: Vec<char>)
    ensures
        v@ == s@,
{
    chars_of(s)
}


/// The parts of `s[start..]` between the separators `sep` (`str::split`).
pub open spec fn split_on(s: Seq<char>, sep: char, start: int) -> Seq<Seq<char>>
    decreases s.len() + 1 - start,
{
    if start < 0 || start > s.len() {
        seq![]
    } else {
        match find_from(s, seq![sep], start) {
            None => seq![s.subrange(start, s.len() as int)],
            Some(k) => {
                proof {
                    lemma_find_from(s, seq![sep], start);
                }
                seq![s.subrange(start, k)] + split_on(s, sep, k + 1)
            },
        }
    }
}

/// The first index at or after `i` that holds whitespace, or the length.
pub open spec fn find_ws(s: Seq<char>, i: int) -> int
    decreases s.len() - i,
{
    if i < 0 {
        0
    } else if i >= s.len() {
        s.len() as int
    } else if is_ws(s[i]) {
        i
    } else {
        find_ws(s, i + 1)
    }
}

/// The first index at or after `i` that holds whitespace, or the length.
pub fn find_ws_from(s: &[char], i: usize) -> (r: usize)
    requires
        i <= s.len(),
    ensures
        r == find_ws(s@, i as int),
        i <= r <= s.len(),
{
    let mut k = i;
    while k < s.len() && !char_is_ws(s[k])
        invariant
            i <= k <= s.len(),
            find_ws(s@, i as int) == find_ws(s@, k as int),
        decreases s.len() - k,
    {
        k = k + 1;
    }
    k
}

/// `s[start..end]` trimmed, as a new string.
pub fn trimmed_range(s: &[char], start: usize, end: usize) -> (out: String)
    requires
        start <= end <= s.len(),
    ensures
        out@ == trim(s@.subrange(start as int, end as int)),
{
    let sub = vstd::slice::slice_subrange(s, start, end);
    let a = skip_ws_from(sub, 0);
    let b = trim_end_from(sub, a, sub.len());
    proof {
        let t = s@.subrange(start as int, end as int);
        assert(sub@ == t);
        assert(trim_start(t) =~= sub@.subrange(a as int, sub@.len() as int));
    }
    string_of_range(sub, a, b)
}

} // verus!
