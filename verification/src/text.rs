//! Character-level text handling: white space, trimming, searching,
//! splitting into lines and pieces, ASCII case folding, and decimal numbers.
//!
//! Every operation works on the characters of a string (`Seq<char>`), the
//! view that `vstd` gives `str` and `String`.
use vstd::prelude::*;

use crate::trusted::push_char;

verus! {

// ---------------------------------------------------------------------------
// White space and trimming
// ---------------------------------------------------------------------------

/// A character with the Unicode `White_Space` property, which is what
/// `char::is_whitespace` and `str::trim` go by.
pub open spec fn is_white_space(c: char) -> bool {
    ||| ('\u{9}' <= c && c <= '\u{d}')
    ||| c == ' '
    ||| c == '\u{85}'
    ||| c == '\u{a0}'
    ||| c == '\u{1680}'
    ||| ('\u{2000}' <= c && c <= '\u{200a}')
    ||| c == '\u{2028}'
    ||| c == '\u{2029}'
    ||| c == '\u{202f}'
    ||| c == '\u{205f}'
    ||| c == '\u{3000}'
}

pub fn white_space(c: char) -> (b: bool)
    ensures
        b == is_white_space(c),
{
    ('\u{9}' <= c && c <= '\u{d}') || c == ' ' || c == '\u{85}' || c == '\u{a0}' || c
        == '\u{1680}' || ('\u{2000}' <= c && c <= '\u{200a}') || c == '\u{2028}' || c
        == '\u{2029}' || c == '\u{202f}' || c == '\u{205f}' || c == '\u{3000}'
}

/// `s` without its leading white space.
pub open spec fn trim_start(s: Seq<char>) -> Seq<char>
    decreases s.len(),
{
    if s.len() > 0 && is_white_space(s[0]) {
        trim_start(s.drop_first())
    } else {
        s
    }
}

/// `s` without its trailing white space.
pub open spec fn trim_end(s: Seq<char>) -> Seq<char>
    decreases s.len(),
{
    if s.len() > 0 && is_white_space(s.last()) {
        trim_end(s.drop_last())
    } else {
        s
    }
}

/// `s` without leading and trailing white space (`str::trim`).
pub open spec fn trim(s: Seq<char>) -> Seq<char> {
    trim_end(trim_start(s))
}

/// What trimming leaves is a contiguous part of the text that neither
/// starts nor ends with white space.
pub proof fn lemma_trim_shape(s: Seq<char>)
    ensures
        exists|a: int, b: int|
            0 <= a <= b <= s.len() && #[trigger] s.subrange(a, b) == trim(s),
        trim(s).len() > 0 ==> !is_white_space(trim(s)[0]) && !is_white_space(trim(s).last()),
    decreases s.len(),
{
    lemma_trim_start_shape(s);
    let t = trim_start(s);
    let a = choose|a: int| 0 <= a <= s.len() && s.subrange(a, s.len() as int) == t;
    lemma_trim_end_shape(t);
    let b = choose|b: int| 0 <= b <= t.len() && t.subrange(0, b) == trim_end(t);
    assert(s.subrange(a, a + b) =~= t.subrange(0, b));
    if trim(s).len() > 0 {
        assert(trim(s)[0] == t[0]);
    }
}

proof fn lemma_trim_start_shape(s: Seq<char>)
    ensures
        exists|a: int| 0 <= a <= s.len() && #[trigger] s.subrange(a, s.len() as int) == trim_start(s),
        trim_start(s).len() > 0 ==> !is_white_space(trim_start(s)[0]),
    decreases s.len(),
{
    if s.len() > 0 && is_white_space(s[0]) {
        lemma_trim_start_shape(s.drop_first());
        let a = choose|a: int|
            0 <= a <= s.drop_first().len() && s.drop_first().subrange(
                a,
                s.drop_first().len() as int,
            ) == trim_start(s.drop_first());
        assert(s.subrange(a + 1, s.len() as int) =~= s.drop_first().subrange(
            a,
            s.drop_first().len() as int,
        ));
    } else {
        assert(s.subrange(0, s.len() as int) =~= s);
    }
}

proof fn lemma_trim_end_shape(s: Seq<char>)
    ensures
        exists|b: int| 0 <= b <= s.len() && #[trigger] s.subrange(0, b) == trim_end(s),
        trim_end(s).len() > 0 ==> !is_white_space(trim_end(s).last()),
        trim_end(s).len() > 0 && s.len() > 0 ==> trim_end(s)[0] == s[0],
    decreases s.len(),
{
    if s.len() > 0 && is_white_space(s.last()) {
        lemma_trim_end_shape(s.drop_last());
        let b = choose|b: int|
            0 <= b <= s.drop_last().len() && s.drop_last().subrange(0, b) == trim_end(
                s.drop_last(),
            );
        assert(s.subrange(0, b) =~= s.drop_last().subrange(0, b));
    } else {
        assert(s.subrange(0, s.len() as int) =~= s);
    }
}

/// Trimming leaves nothing to trim.
pub proof fn lemma_trim_idempotent(s: Seq<char>)
    ensures
        trim(trim(s)) == trim(s),
{
    lemma_trim_shape(s);
    let t = trim(s);
    if t.len() > 0 {
        assert(trim_start(t) == t);
        assert(trim_end(t) == t);
    } else {
        assert(trim_start(t) == t);
        assert(trim_end(t) == t);
    }
}

/// The characters of a string.
pub fn chars_of(s: &str) -> (v: Vec<char>)
    ensures
        v@ == s@,
{
    let mut v: Vec<char> = Vec::new();
    for c in it: s.chars()
        invariant
            v@ == it.seq().take(it.index() as int),
            it.seq() == s@,
    {
        v.push(c);
    }
    v
}

/// A string made of the characters `v[from..to]`.
pub fn string_of(v: &[char], from: usize, to: usize) -> (s: String)
    requires
        from <= to <= v@.len(),
    ensures
        s@ == v@.subrange(from as int, to as int),
{
    let mut s = String::new();
    let mut i = from;
    while i < to
        invariant
            from <= i <= to <= v@.len(),
            s@ == v@.subrange(from as int, i as int),
        decreases to - i,
    {
        push_char(&mut s, v[i]);
        assert(v@.subrange(from as int, i + 1) =~= v@.subrange(from as int, i as int).push(v@[i as int]));
        i += 1;
    }
    s
}

/// The bounds of `trim(v[from..to])` inside `v`.
pub fn trim_range(v: &[char], from: usize, to: usize) -> (r: (usize, usize))
    requires
        from <= to <= v@.len(),
    ensures
        from <= r.0 <= r.1 <= to,
        v@.subrange(r.0 as int, r.1 as int) == trim(v@.subrange(from as int, to as int)),
{
    let mut a = from;
    while a < to && white_space(v[a])
        invariant
            from <= a <= to <= v@.len(),
            trim_start(v@.subrange(from as int, to as int)) == trim_start(
                v@.subrange(a as int, to as int),
            ),
        decreases to - a,
    {
        assert(v@.subrange(a as int, to as int).drop_first() =~= v@.subrange(a + 1, to as int));
        a += 1;
    }
    assert(trim_start(v@.subrange(a as int, to as int)) == v@.subrange(a as int, to as int));
    let mut b = to;
    while b > a && white_space(v[b - 1])
        invariant
            from <= a <= b <= to <= v@.len(),
            trim_end(v@.subrange(a as int, to as int)) == trim_end(v@.subrange(a as int, b as int)),
        decreases b - a,
    {
        assert(v@.subrange(a as int, b as int).drop_last() =~= v@.subrange(a as int, b - 1));
        b -= 1;
    }
    assert(trim_end(v@.subrange(a as int, b as int)) == v@.subrange(a as int, b as int));
    (a, b)
}

/// `str::trim`, giving an owned string.
pub fn trim_text(s: &str) -> (t: String)
    ensures
        t@ == trim(s@),
{
    let v = chars_of(s);
    let (a, b) = trim_range(v.as_slice(), 0, v.len());
    assert(v@.subrange(0, v@.len() as int) =~= v@);
    string_of(v.as_slice(), a, b)
}

// ---------------------------------------------------------------------------
// Searching
// ---------------------------------------------------------------------------

/// `p` stands in `s` at position `i`.
pub open spec fn occurs_at(s: Seq<char>, p: Seq<char>, i: int) -> bool {
    0 <= i && i + p.len() <= s.len() && s.subrange(i, i + p.len()) == p
}

/// The position of the first occurrence of `p` in `s` (`str::find`, counted
/// in characters).
pub open spec fn find_sub(s: Seq<char>, p: Seq<char>) -> Option<int>
    decreases s.len(),
{
    if p.len() <= s.len() && s.take(p.len() as int) == p {
        Some(0)
    } else if s.len() == 0 {
        None
    } else {
        match find_sub(s.drop_first(), p) {
            Some(i) => Some(i + 1),
            None => None,
        }
    }
}

/// `s` contains `p`.
pub open spec fn contains(s: Seq<char>, p: Seq<char>) -> bool {
    find_sub(s, p) is Some
}

/// `s` begins with `p`.
pub open spec fn starts_with(s: Seq<char>, p: Seq<char>) -> bool {
    p.len() <= s.len() && s.take(p.len() as int) == p
}

/// `s` ends with `p`.
pub open spec fn ends_with(s: Seq<char>, p: Seq<char>) -> bool {
    p.len() <= s.len() && s.skip(s.len() - p.len()) == p
}

proof fn lemma_occurs_shift(s: Seq<char>, p: Seq<char>, j: int)
    requires
        s.len() > 0,
        j >= 0,
    ensures
        occurs_at(s.drop_first(), p, j) == occurs_at(s, p, j + 1),
{
    if j + 1 + p.len() <= s.len() {
        assert(s.drop_first().subrange(j, j + p.len()) =~= s.subrange(j + 1, j + 1 + p.len()));
    }
}

/// The first occurrence of `p` is where `find_sub` says it is.
pub proof fn lemma_find_sub_first(s: Seq<char>, p: Seq<char>, i: int)
    requires
        occurs_at(s, p, i),
        forall|j: int| 0 <= j < i ==> !#[trigger] occurs_at(s, p, j),
    ensures
        find_sub(s, p) == Some(i),
    decreases s.len(),
{
    assert(s.take(p.len() as int) =~= s.subrange(0, p.len() as int));
    if i == 0 {
    } else {
        assert(!occurs_at(s, p, 0));
        lemma_occurs_shift(s, p, i - 1);
        assert forall|j: int| 0 <= j < i - 1 implies !#[trigger] occurs_at(s.drop_first(), p, j) by {
            lemma_occurs_shift(s, p, j);
        }
        lemma_find_sub_first(s.drop_first(), p, i - 1);
    }
}

/// Where `p` occurs nowhere, `find_sub` finds nothing.
pub proof fn lemma_find_sub_none(s: Seq<char>, p: Seq<char>)
    requires
        forall|j: int| !#[trigger] occurs_at(s, p, j),
    ensures
        find_sub(s, p) is None,
    decreases s.len(),
{
    assert(!occurs_at(s, p, 0));
    if p.len() <= s.len() {
        assert(s.take(p.len() as int) =~= s.subrange(0, p.len() as int));
    }
    if s.len() > 0 {
        assert forall|j: int| !#[trigger] occurs_at(s.drop_first(), p, j) by {
            if j >= 0 {
                lemma_occurs_shift(s, p, j);
            }
        }
        lemma_find_sub_none(s.drop_first(), p);
    }
}

/// What `find_sub` returns is an occurrence, and the first one.
pub proof fn lemma_find_sub_sound(s: Seq<char>, p: Seq<char>)
    ensures
        find_sub(s, p) matches Some(i) ==> occurs_at(s, p, i) && forall|j: int|
            0 <= j < i ==> !#[trigger] occurs_at(s, p, j),
        find_sub(s, p) is None ==> forall|j: int| !#[trigger] occurs_at(s, p, j),
    decreases s.len(),
{
    if p.len() <= s.len() {
        assert(s.take(p.len() as int) =~= s.subrange(0, p.len() as int));
    }
    if p.len() <= s.len() && s.take(p.len() as int) == p {
    } else if s.len() == 0 {
        assert forall|j: int| !#[trigger] occurs_at(s, p, j) by {
            if occurs_at(s, p, j) {
                assert(j == 0 && p.len() == 0);
                assert(s.take(0) =~= p);
            }
        }
    } else {
        lemma_find_sub_sound(s.drop_first(), p);
        assert forall|j: int| 0 <= j implies occurs_at(s.drop_first(), p, j) == #[trigger] occurs_at(
            s,
            p,
            j + 1,
        ) by {
            lemma_occurs_shift(s, p, j);
        }
        if let Some(i) = find_sub(s.drop_first(), p) {
            assert(occurs_at(s, p, i + 1));
            assert forall|j: int| 0 <= j < i + 1 implies !#[trigger] occurs_at(s, p, j) by {
                if j > 0 {
                    lemma_occurs_shift(s, p, j - 1);
                }
            }
        } else {
            assert forall|j: int| !#[trigger] occurs_at(s, p, j) by {
                if j > 0 {
                    lemma_occurs_shift(s, p, j - 1);
                }
            }
        }
    }
}

/// A text contains whatever stands in it somewhere.
pub proof fn lemma_occurs_contains(s: Seq<char>, p: Seq<char>, i: int)
    requires
        occurs_at(s, p, i),
    ensures
        contains(s, p),
{
    lemma_find_sub_sound(s, p);
}

/// A text contains each of its own pieces.
pub proof fn lemma_contains_piece(a: Seq<char>, p: Seq<char>, b: Seq<char>)
    ensures
        contains(a + p + b, p),
{
    assert((a + p + b).subrange(a.len() as int, (a.len() + p.len()) as int) =~= p);
    lemma_occurs_contains(a + p + b, p, a.len() as int);
}

/// `p` stands in `v` at position `i`.
pub fn matches_at(v: &[char], i: usize, p: &[char]) -> (b: bool)
    ensures
        b == (i + p@.len() <= v@.len() && v@.subrange(i as int, i + p@.len()) == p@),
{
    if i > v.len() || p.len() > v.len() - i {
        return false;
    }
    let n = v.len();
    let mut k: usize = 0;
    while k < p.len()
        invariant
            n == v@.len(),
            i + p@.len() <= v@.len(),
            k <= p@.len(),
            forall|m: int| 0 <= m < k ==> v@[i + m] == p@[m],
        decreases p@.len() - k,
    {
        assert(i + k < n);
        if v[i + k] != p[k] {
            assert(v@.subrange(i as int, i + p@.len())[k as int] != p@[k as int]);
            return false;
        }
        k += 1;
    }
    assert(v@.subrange(i as int, i + p@.len()) =~= p@);
    true
}

/// The first occurrence of `p` in `v[from..to]`, as a position in `v`.
pub fn find_in(v: &[char], from: usize, to: usize, p: &[char]) -> (r: Option<usize>)
    requires
        from <= to <= v@.len(),
    ensures
        match r {
            Some(k) => from <= k && find_sub(v@.subrange(from as int, to as int), p@) == Some(
                k - from,
            ),
            None => find_sub(v@.subrange(from as int, to as int), p@) is None,
        },
{
    let ghost s = v@.subrange(from as int, to as int);
    if p.len() > to - from {
        proof {
            assert forall|j: int| !#[trigger] occurs_at(s, p@, j) by {}
            lemma_find_sub_none(s, p@);
        }
        return None;
    }
    let last = to - p.len();
    let mut i = from;
    loop
        invariant
            from <= i <= last,
            last + p@.len() == to,
            to <= v@.len(),
            s == v@.subrange(from as int, to as int),
            forall|j: int| 0 <= j < i - from ==> !#[trigger] occurs_at(s, p@, j),
        decreases last - i,
    {
        let hit = matches_at(v, i, p);
        assert(s.subrange(i - from, i - from + p@.len()) =~= v@.subrange(i as int, i + p@.len()));
        if hit {
            proof {
                lemma_find_sub_first(s, p@, i - from);
            }
            return Some(i);
        }
        if i == last {
            proof {
                assert forall|j: int| !#[trigger] occurs_at(s, p@, j) by {
                    if 0 <= j && j < i - from {
                    }
                }
                lemma_find_sub_none(s, p@);
            }
            return None;
        }
        i += 1;
    }
}

/// `v[from..to]` is the text `lit`.
pub fn range_is(v: &[char], from: usize, to: usize, lit: &str) -> (b: bool)
    requires
        from <= to <= v@.len(),
    ensures
        b == (v@.subrange(from as int, to as int) == lit@),
{
    let p = chars_of(lit);
    if to - from != p.len() {
        assert(v@.subrange(from as int, to as int).len() != lit@.len());
        return false;
    }
    matches_at(v, from, p.as_slice())
}

/// The text `s` is the text `lit`.
pub fn text_is(s: &str, lit: &str) -> (b: bool)
    ensures
        b == (s@ == lit@),
{
    let v = chars_of(s);
    assert(v@.subrange(0, v@.len() as int) =~= v@);
    range_is(v.as_slice(), 0, v.len(), lit)
}

/// The first occurrence of the text `lit` in `v[from..to]`, as a position in
/// `v`, with what that tells of the occurrence.
pub fn find_text_in(v: &[char], from: usize, to: usize, lit: &str) -> (r: Option<usize>)
    requires
        from <= to <= v@.len(),
    ensures
        match r {
            Some(k) => {
                &&& from <= k
                &&& k + lit@.len() <= to
                &&& find_sub(v@.subrange(from as int, to as int), lit@) == Some(k - from)
                &&& v@.subrange(k as int, k + lit@.len()) == lit@
            },
            None => find_sub(v@.subrange(from as int, to as int), lit@) is None,
        },
{
    let p = chars_of(lit);
    let r = find_in(v, from, to, p.as_slice());
    proof {
        let s = v@.subrange(from as int, to as int);
        lemma_find_sub_sound(s, lit@);
        if let Some(k) = r {
            assert(s.subrange(k - from, k - from + lit@.len()) =~= v@.subrange(k as int, k + lit@.len()));
        }
    }
    r
}

/// `str::contains` with a string pattern.
pub fn contains_text(s: &str, p: &str) -> (b: bool)
    ensures
        b == contains(s@, p@),
{
    let v = chars_of(s);
    let q = chars_of(p);
    let r = find_in(v.as_slice(), 0, v.len(), q.as_slice());
    assert(v@.subrange(0, v@.len() as int) =~= v@);
    r.is_some()
}

/// `str::starts_with` with a string pattern, on `v[from..to]`.
pub fn starts_with_in(v: &[char], from: usize, to: usize, p: &[char]) -> (b: bool)
    requires
        from <= to <= v@.len(),
    ensures
        b == starts_with(v@.subrange(from as int, to as int), p@),
{
    let m = matches_at(v, from, p);
    if p.len() <= to - from {
        assert(v@.subrange(from as int, to as int).take(p@.len() as int) =~= v@.subrange(
            from as int,
            from + p@.len(),
        ));
        m
    } else {
        false
    }
}

/// `str::ends_with` with a string pattern, on `v[from..to]`.
pub fn ends_with_in(v: &[char], from: usize, to: usize, p: &[char]) -> (b: bool)
    requires
        from <= to <= v@.len(),
    ensures
        b == ends_with(v@.subrange(from as int, to as int), p@),
{
    if p.len() <= to - from {
        let m = matches_at(v, to - p.len(), p);
        assert(v@.subrange(from as int, to as int).skip(to - from - p@.len()) =~= v@.subrange(
            to - p@.len(),
            to as int,
        ));
        m
    } else {
        false
    }
}

// ---------------------------------------------------------------------------
// ASCII case
// ---------------------------------------------------------------------------

/// The ASCII lower case of a character; every other character stays.
pub open spec fn ascii_lower(c: char) -> char {
    if 'A' <= c && c <= 'Z' {
        ((c as u32) + 32) as char
    } else {
        c
    }
}

pub fn to_ascii_lower(c: char) -> (r: char)
    ensures
        r == ascii_lower(c),
{
    if 'A' <= c && c <= 'Z' {
        let b = (c as u8) + 32;
        b as char
    } else {
        c
    }
}

/// `a` and `b` are equal when ASCII letters are compared without case
/// (`str::eq_ignore_ascii_case`).
pub open spec fn eq_ignore_ascii_case(a: Seq<char>, b: Seq<char>) -> bool {
    a.len() == b.len() && forall|i: int| 0 <= i < a.len() ==> ascii_lower(#[trigger] a[i]) == ascii_lower(b[i])
}

/// `eq_ignore_ascii_case` on `v[from..to]` and `p`.
pub fn eq_ignore_ascii_case_in(v: &[char], from: usize, to: usize, p: &[char]) -> (b: bool)
    requires
        from <= to <= v@.len(),
    ensures
        b == eq_ignore_ascii_case(v@.subrange(from as int, to as int), p@),
{
    let ghost s = v@.subrange(from as int, to as int);
    if to - from != p.len() {
        return false;
    }
    let mut k: usize = 0;
    while k < p.len()
        invariant
            to - from == p@.len(),
            from <= to <= v@.len(),
            s == v@.subrange(from as int, to as int),
            k <= p@.len(),
            forall|m: int| 0 <= m < k ==> ascii_lower(#[trigger] s[m]) == ascii_lower(p@[m]),
        decreases p@.len() - k,
    {
        if to_ascii_lower(v[from + k]) != to_ascii_lower(p[k]) {
            assert(s[k as int] == v@[from + k]);
            return false;
        }
        k += 1;
    }
    true
}

// ---------------------------------------------------------------------------
// Lines
// ---------------------------------------------------------------------------

/// `s` without one trailing carriage return.
pub open spec fn strip_cr(s: Seq<char>) -> Seq<char> {
    if s.len() > 0 && s.last() == '\r' {
        s.drop_last()
    } else {
        s
    }
}

/// Reading `s` from the start: the lines ended so far by a line feed (each
/// without its `\n` or `\r\n`), and the line that is still open.
pub open spec fn line_scan(s: Seq<char>) -> (Seq<Seq<char>>, Seq<char>)
    decreases s.len(),
{
    if s.len() == 0 {
        (seq![], seq![])
    } else {
        let (done, open) = line_scan(s.drop_last());
        if s.last() == '\n' {
            (done.push(strip_cr(open)), seq![])
        } else {
            (done, open.push(s.last()))
        }
    }
}

/// The lines of `s` (`str::lines`): split at `\n` or `\r\n`, the last line
/// ending being optional.
pub open spec fn lines(s: Seq<char>) -> Seq<Seq<char>> {
    let (done, open) = line_scan(s);
    if open.len() > 0 {
        done.push(open)
    } else {
        done
    }
}

/// The texts of the ranges `r` in `v`.
pub open spec fn range_texts(v: Seq<char>, r: Seq<(usize, usize)>) -> Seq<Seq<char>> {
    Seq::new(r.len(), |k: int| v.subrange(r[k].0 as int, r[k].1 as int))
}

pub open spec fn ranges_within(v: Seq<char>, r: Seq<(usize, usize)>) -> bool {
    forall|k: int| 0 <= k < r.len() ==> #[trigger] r[k].0 <= r[k].1 && r[k].1 <= v.len()
}

/// The bounds of each line of `v`.
pub fn line_ranges(v: &[char]) -> (r: Vec<(usize, usize)>)
    ensures
        ranges_within(v@, r@),
        range_texts(v@, r@) == lines(v@),
{
    let mut r: Vec<(usize, usize)> = Vec::new();
    let mut start: usize = 0;
    let mut i: usize = 0;
    while i < v.len()
        invariant
            start <= i <= v@.len(),
            ranges_within(v@, r@),
            line_scan(v@.take(i as int)) == (range_texts(v@, r@), v@.subrange(start as int, i as int)),
        decreases v@.len() - i,
    {
        let ghost before = range_texts(v@, r@);
        assert(v@.take(i + 1).drop_last() =~= v@.take(i as int));
        assert(v@.take(i + 1).last() == v@[i as int]);
        if v[i] == '\n' {
            let end = if i > start && v[i - 1] == '\r' {
                i - 1
            } else {
                i
            };
            assert(strip_cr(v@.subrange(start as int, i as int)) =~= v@.subrange(start as int, end as int));
            r.push((start, end));
            assert(range_texts(v@, r@) =~= before.push(v@.subrange(start as int, end as int)));
            start = i + 1;
            assert(v@.subrange(start as int, i + 1) =~= Seq::<char>::empty());
        } else {
            assert(v@.subrange(start as int, i + 1) =~= v@.subrange(start as int, i as int).push(v@[i as int]));
        }
        i += 1;
    }
    assert(v@.take(v@.len() as int) =~= v@);
    if start < v.len() {
        let ghost before = range_texts(v@, r@);
        r.push((start, v.len()));
        assert(range_texts(v@, r@) =~= before.push(v@.subrange(start as int, v@.len() as int)));
    }
    r
}

// ---------------------------------------------------------------------------
// Pieces between separators
// ---------------------------------------------------------------------------

/// What separates the pieces of a text.
#[derive(Clone, Copy)]
pub enum Separator {
    /// One given character.
    Char(char),
    /// Any white space character.
    WhiteSpace,
}

pub open spec fn separates(sep: Separator, c: char) -> bool {
    match sep {
        Separator::Char(d) => c == d,
        Separator::WhiteSpace => is_white_space(c),
    }
}

/// Reading `s` from the start: the non-empty pieces ended so far by a
/// separator, and the piece that is still open.
pub open spec fn piece_scan(s: Seq<char>, sep: Separator) -> (Seq<Seq<char>>, Seq<char>)
    decreases s.len(),
{
    if s.len() == 0 {
        (seq![], seq![])
    } else {
        let (done, open) = piece_scan(s.drop_last(), sep);
        if separates(sep, s.last()) {
            if open.len() > 0 {
                (done.push(open), seq![])
            } else {
                (done, seq![])
            }
        } else {
            (done, open.push(s.last()))
        }
    }
}

/// The non-empty pieces of `s` between separators, in order
/// (`str::split` followed by dropping the empty pieces; with white space as
/// separator, `str::split_whitespace`).
pub open spec fn pieces(s: Seq<char>, sep: Separator) -> Seq<Seq<char>> {
    let (done, open) = piece_scan(s, sep);
    if open.len() > 0 {
        done.push(open)
    } else {
        done
    }
}

proof fn lemma_piece_scan_shape(s: Seq<char>, sep: Separator)
    ensures
        forall|i: int|
            0 <= i < piece_scan(s, sep).0.len() ==> #[trigger] piece_scan(s, sep).0[i].len() > 0
                && forall|j: int|
                0 <= j < piece_scan(s, sep).0[i].len() ==> !separates(sep, #[trigger] piece_scan(s, sep).0[i][j]),
        forall|j: int|
            0 <= j < piece_scan(s, sep).1.len() ==> !separates(sep, #[trigger] piece_scan(s, sep).1[j]),
    decreases s.len(),
{
    if s.len() > 0 {
        lemma_piece_scan_shape(s.drop_last(), sep);
        let (done, open) = piece_scan(s.drop_last(), sep);
        let c = s.last();
        if separates(sep, c) {
            if open.len() > 0 {
                let d2 = done.push(open);
                assert forall|i: int| 0 <= i < d2.len() implies #[trigger] d2[i].len() > 0 && forall|j: int|
                    0 <= j < d2[i].len() ==> !separates(sep, #[trigger] d2[i][j]) by {
                    if i < done.len() {
                        assert(d2[i] == done[i]);
                    }
                }
            }
        } else {
            let o2 = open.push(c);
            assert forall|j: int| 0 <= j < o2.len() implies !separates(sep, #[trigger] o2[j]) by {
                if j < open.len() {
                    assert(o2[j] == open[j]);
                }
            }
        }
    }
}

/// Every piece is non-empty and holds no separator.
pub proof fn lemma_pieces_shape(s: Seq<char>, sep: Separator)
    ensures
        forall|i: int|
            0 <= i < pieces(s, sep).len() ==> #[trigger] pieces(s, sep)[i].len() > 0 && forall|j: int|
                0 <= j < pieces(s, sep)[i].len() ==> !separates(sep, #[trigger] pieces(s, sep)[i][j]),
{
    lemma_piece_scan_shape(s, sep);
}

/// The non-empty pieces of `v[from..to]`.
pub fn split_pieces(v: &[char], from: usize, to: usize, sep: Separator) -> (r: Vec<String>)
    requires
        from <= to <= v@.len(),
    ensures
        r.deep_view() == pieces(v@.subrange(from as int, to as int), sep),
{
    let mut r: Vec<String> = Vec::new();
    let mut start = from;
    let mut i = from;
    assert(r.deep_view() =~= Seq::<Seq<char>>::empty());
    assert(v@.subrange(from as int, from as int) =~= Seq::<char>::empty());
    while i < to
        invariant
            from <= start <= i <= to <= v@.len(),
            piece_scan(v@.subrange(from as int, i as int), sep) == (
                r.deep_view(),
                v@.subrange(start as int, i as int),
            ),
        decreases to - i,
    {
        let ghost before = r.deep_view();
        assert(v@.subrange(from as int, i + 1).drop_last() =~= v@.subrange(from as int, i as int));
        assert(v@.subrange(from as int, i + 1).last() == v@[i as int]);
        let c = v[i];
        let hit = match sep {
            Separator::Char(d) => c == d,
            Separator::WhiteSpace => white_space(c),
        };
        if hit {
            if start < i {
                let piece = string_of(v, start, i);
                r.push(piece);
                assert(r.deep_view() =~= before.push(v@.subrange(start as int, i as int)));
            }
            start = i + 1;
            assert(v@.subrange(start as int, i + 1) =~= Seq::<char>::empty());
        } else {
            assert(v@.subrange(start as int, i + 1) =~= v@.subrange(start as int, i as int).push(c));
        }
        i += 1;
    }
    if start < to {
        let ghost before = r.deep_view();
        let piece = string_of(v, start, to);
        r.push(piece);
        assert(r.deep_view() =~= before.push(v@.subrange(start as int, to as int)));
    }
    r
}

// ---------------------------------------------------------------------------
// Decimal numbers
// ---------------------------------------------------------------------------

/// The decimal digit for `d < 10`.
pub open spec fn digit_char(d: int) -> char {
    if d == 0 {
        '0'
    } else if d == 1 {
        '1'
    } else if d == 2 {
        '2'
    } else if d == 3 {
        '3'
    } else if d == 4 {
        '4'
    } else if d == 5 {
        '5'
    } else if d == 6 {
        '6'
    } else if d == 7 {
        '7'
    } else if d == 8 {
        '8'
    } else {
        '9'
    }
}

/// The decimal writing of `n`, without sign or leading zeros (what `{}`
/// formats an unsigned integer as).
pub open spec fn decimal(n: nat) -> Seq<char>
    decreases n,
{
    if n < 10 {
        seq![digit_char(n as int)]
    } else {
        decimal(n / 10).push(digit_char((n % 10) as int))
    }
}

fn digit_of(d: u64) -> (c: char)
    requires
        d < 10,
    ensures
        c == digit_char(d as int),
{
    if d == 0 {
        '0'
    } else if d == 1 {
        '1'
    } else if d == 2 {
        '2'
    } else if d == 3 {
        '3'
    } else if d == 4 {
        '4'
    } else if d == 5 {
        '5'
    } else if d == 6 {
        '6'
    } else if d == 7 {
        '7'
    } else if d == 8 {
        '8'
    } else {
        '9'
    }
}

/// Appends the decimal writing of `n` to `s`.
pub fn push_decimal(s: &mut String, n: u64)
    ensures
        final(s)@ == old(s)@ + decimal(n as nat),
    decreases n,
{
    if n < 10 {
        push_char(s, digit_of(n));
        assert(old(s)@.push(digit_char(n as int)) =~= old(s)@ + seq![digit_char(n as int)]);
    } else {
        push_decimal(s, n / 10);
        push_char(s, digit_of(n % 10));
        assert(old(s)@ + decimal((n / 10) as nat) + seq![digit_char((n % 10) as int)] =~= old(s)@
            + decimal(n as nat));
        assert((old(s)@ + decimal((n / 10) as nat)).push(digit_char((n % 10) as int)) =~= old(s)@
            + decimal((n / 10) as nat) + seq![digit_char((n % 10) as int)]);
    }
}

// ---------------------------------------------------------------------------
// Unsigned integers in text
// ---------------------------------------------------------------------------

pub open spec fn is_digit(c: char) -> bool {
    '0' <= c && c <= '9'
}

pub open spec fn digit_value(c: char) -> nat {
    ((c as int) - ('0' as int)) as nat
}

/// The number that the decimal digits `d` stand for.
pub open spec fn digits_value(d: Seq<char>) -> nat
    decreases d.len(),
{
    if d.len() == 0 {
        0
    } else {
        digits_value(d.drop_last()) * 10 + digit_value(d.last())
    }
}

/// The digits of an unsigned number in text: after one optional `+`.
pub open spec fn unsigned_digits(s: Seq<char>) -> Seq<char> {
    if s.len() > 0 && s[0] == '+' {
        s.drop_first()
    } else {
        s
    }
}

/// `str::parse::<u64>`: one optional `+`, then at least one decimal digit and
/// nothing else, for a value that fits in 64 bits.
pub open spec fn parse_u64(s: Seq<char>) -> Option<u64> {
    let d = unsigned_digits(s);
    if d.len() > 0 && (forall|i: int| 0 <= i < d.len() ==> is_digit(#[trigger] d[i]))
        && digits_value(d) <= u64::MAX {
        Some(digits_value(d) as u64)
    } else {
        None
    }
}

/// `parse_u64` on `v[from..to]`.
pub fn parse_u64_in(v: &[char], from: usize, to: usize) -> (r: Option<u64>)
    requires
        from <= to <= v@.len(),
    ensures
        r == parse_u64(v@.subrange(from as int, to as int)),
{
    let ghost s = v@.subrange(from as int, to as int);
    let mut i = from;
    if from < to && v[from] == '+' {
        i = from + 1;
    }
    let ghost d = unsigned_digits(s);
    assert(s.len() > 0 ==> s[0] == v@[from as int]);
    assert(d =~= v@.subrange(i as int, to as int));
    if i == to {
        assert(d.len() == 0);
        return None;
    }
    let mut value: u64 = 0;
    let mut overflow = false;
    let mut k = i;
    while k < to
        invariant
            from <= i <= k <= to <= v@.len(),
            d == v@.subrange(i as int, to as int),
            d == unsigned_digits(v@.subrange(from as int, to as int)),
            forall|m: int| i <= m < k ==> is_digit(#[trigger] v@[m]),
            !overflow ==> value == digits_value(v@.subrange(i as int, k as int)),
            overflow ==> digits_value(v@.subrange(i as int, k as int)) > u64::MAX,
        decreases to - k,
    {
        let c = v[k];
        if !('0' <= c && c <= '9') {
            assert(d[k - i] == c);
            return None;
        }
        let ghost prefix = v@.subrange(i as int, k as int);
        assert(v@.subrange(i as int, k + 1).drop_last() =~= prefix);
        assert(v@.subrange(i as int, k + 1).last() == c);
        let dv = (c as u32 - 48) as u64;
        assert(dv == digit_value(c));
        if !overflow {
            if value > (u64::MAX - dv) / 10 {
                overflow = true;
                assert(digits_value(prefix) * 10 + dv > u64::MAX) by (nonlinear_arith)
                    requires
                        digits_value(prefix) > (u64::MAX - dv) / 10,
                        dv <= 9,
                ;
            } else {
                assert(value * 10 + dv <= u64::MAX) by (nonlinear_arith)
                    requires
                        value <= (u64::MAX - dv) / 10,
                        dv <= 9,
                ;
                value = value * 10 + dv;
            }
        }
        k += 1;
    }
    assert(v@.subrange(i as int, to as int) == d);
    if overflow {
        None
    } else {
        Some(value)
    }
}

} // verus!
