//! Verified character-level scanning helpers shared by the parsers and the
//! name-derivation code: conversion of a string to its character vector,
//! substring search, line splitting, trimming and decimal parsing.

use vstd::prelude::*;

verus! {

/// `p` occurs in `s` at position `i`.
pub open spec fn matches_at(s: Seq<char>, p: Seq<char>, i: int) -> bool {
    0 <= i && i + p.len() <= s.len() && s.subrange(i, i + p.len() as int) == p
}

/// `s` begins with `p`.
pub open spec fn seq_starts_with(s: Seq<char>, p: Seq<char>) -> bool {
    matches_at(s, p, 0)
}

/// `s` ends with `p`.
pub open spec fn seq_ends_with(s: Seq<char>, p: Seq<char>) -> bool {
    p.len() <= s.len() && matches_at(s, p, s.len() - p.len())
}

/// `p` occurs somewhere in `s`.
pub open spec fn seq_contains(s: Seq<char>, p: Seq<char>) -> bool {
    exists|i: int| matches_at(s, p, i)
}

/// The characters of `s`, one per index, so that scans can address the string
/// by position.
pub fn chars_of(s: &str) -> (v: Vec<char>)
    ensures
        v@ == s@,
{
    let mut v: Vec<char> = Vec::new();
    let n = s.unicode_len();
    while v.len() < n
        invariant
            v.len() <= n,
            v@ == s@.take(v.len() as int),
            n == s@.len(),
        decreases n - v.len(),
    {
        let c = s.get_char(v.len());
        v.push(c);
        proof {
            assert(v@ =~= s@.take(v.len() as int));
        }
    }
    proof {
        assert(v@ =~= s@);
    }
    v
}

/// Whether `p` occurs in `v` at position `at`.
pub fn match_at(v: &Vec<char>, p: &Vec<char>, at: usize) -> (b: bool)
    ensures
        b == matches_at(v@, p@, at as int),
{
    if at > v.len() || v.len() - at < p.len() {
        return false;
    }
    let mut j: usize = 0;
    while j < p.len()
        invariant
            j <= p.len(),
            at + p.len() <= v.len(),
            v@.subrange(at as int, at + j) == p@.take(j as int),
        decreases p.len() - j,
    {
        if v[at + j] != p[j] {
            proof {
                assert(!matches_at(v@, p@, at as int)) by {
                    if v@.subrange(at as int, at + p@.len()) == p@ {
                        assert(v@.subrange(at as int, at + p@.len())[j as int] == v@[at + j]);
                    }
                }
            }
            return false;
        }
        j += 1;
        proof {
            assert(v@.subrange(at as int, at + j) =~= p@.take(j as int));
        }
    }
    proof {
        assert(v@.subrange(at as int, at + p@.len()) =~= p@);
    }
    true
}

/// The first position `i >= from` where `p` occurs in `v`, if any.
pub fn find_seq(v: &Vec<char>, p: &Vec<char>, from: usize) -> (r: Option<usize>)
    ensures
        match r {
            Some(i) => from <= i && matches_at(v@, p@, i as int) && (forall|k: int|
                from <= k < i ==> !matches_at(v@, p@, k)),
            None => forall|k: int| from <= k ==> !matches_at(v@, p@, k),
        },
{
    let mut i: usize = from;
    while i < v.len()
        invariant
            from <= i,
            forall|k: int| from <= k < i ==> !matches_at(v@, p@, k),
        decreases v.len() - i,
    {
        if match_at(v, p, i) {
            return Some(i);
        }
        i += 1;
    }
    if from <= v.len() && match_at(v, p, v.len()) {
        return Some(v.len());
    }
    proof {
        assert(forall|k: int| from <= k ==> !matches_at(v@, p@, k)) by {
            assert(forall|k: int| k > v@.len() ==> !matches_at(v@, p@, k));
        }
    }
    None
}

/// Whether `a` and `b` hold the same characters.
pub fn str_eq(a: &str, b: &str) -> (r: bool)
    ensures
        r == (a@ == b@),
{
    let av = chars_of(a);
    let bv = chars_of(b);
    if av.len() != bv.len() {
        return false;
    }
    let eq = match_at(&av, &bv, 0);
    proof {
        if eq {
            assert(av@.subrange(0, bv@.len() as int) =~= av@);
        } else {
            assert(av@.subrange(0, bv@.len() as int) =~= av@);
        }
    }
    eq
}

/// Whether `s` begins with `p`.
pub fn str_starts_with(s: &str, p: &str) -> (b: bool)
    ensures
        b == seq_starts_with(s@, p@),
{
    let v = chars_of(s);
    let pv = chars_of(p);
    match_at(&v, &pv, 0)
}

/// Whether `s` ends with `p`.
pub fn str_ends_with(s: &str, p: &str) -> (b: bool)
    ensures
        b == seq_ends_with(s@, p@),
{
    let v = chars_of(s);
    let pv = chars_of(p);
    if pv.len() <= v.len() {
        match_at(&v, &pv, v.len() - pv.len())
    } else {
        false
    }
}

/// Whether `p` occurs somewhere in `s`.
pub fn str_contains(s: &str, p: &str) -> (b: bool)
    ensures
        b == seq_contains(s@, p@),
{
    let v = chars_of(s);
    let pv = chars_of(p);
    match find_seq(&v, &pv, 0) {
        Some(_) => true,
        None => false,
    }
}

/// A space, tab, carriage return or newline.
pub open spec fn is_ws(c: char) -> bool {
    c == ' ' || c == '\t' || c == '\r' || c == '\n'
}

/// Executable counterpart of [`is_ws`].
pub fn is_ws_char(c: char) -> (b: bool)
    ensures
        b == is_ws(c),
{
    c == ' ' || c == '\t' || c == '\r' || c == '\n'
}

/// `s` without one trailing carriage return, if it has one.
pub open spec fn strip_cr(s: Seq<char>) -> Seq<char> {
    if s.len() > 0 && s.last() == '\r' {
        s.drop_last()
    } else {
        s
    }
}

/// Left-to-right line scan: the lines closed by a newline so far, and the
/// still-open segment after the last newline. A carriage return immediately
/// before a closing newline is dropped.
pub open spec fn lines_scan(s: Seq<char>) -> (Seq<Seq<char>>, Seq<char>)
    decreases s.len(),
{
    if s.len() == 0 {
        (Seq::empty(), Seq::empty())
    } else {
        let (done, cur) = lines_scan(s.drop_last());
        if s.last() == '\n' {
            (done.push(strip_cr(cur)), Seq::empty())
        } else {
            (done, cur.push(s.last()))
        }
    }
}

/// The lines of `s`: segments separated by newlines, each without a trailing
/// carriage return; text after the last newline forms a final line when it is
/// not empty.
pub open spec fn spec_lines(s: Seq<char>) -> Seq<Seq<char>> {
    let (done, cur) = lines_scan(s);
    if cur.len() == 0 {
        done
    } else {
        done.push(cur)
    }
}

/// Splits `s` into its lines.
pub fn split_lines(s: &str) -> (r: Vec<String>)
    ensures
        r.deep_view() == spec_lines(s@),
{
    let v = chars_of(s);
    let mut r: Vec<String> = Vec::new();
    let mut start: usize = 0;
    let mut i: usize = 0;
    while i < v.len()
        invariant
            start <= i <= v.len(),
            v@ == s@,
            r.deep_view() == lines_scan(s@.take(i as int)).0,
            s@.subrange(start as int, i as int) == lines_scan(s@.take(i as int)).1,
        decreases v.len() - i,
    {
        proof {
            assert(s@.take(i + 1).drop_last() =~= s@.take(i as int));
        }
        if v[i] == '\n' {
            let end = if i > start && v[i - 1] == '\r' {
                i - 1
            } else {
                i
            };
            proof {
                assert(s@.subrange(start as int, end as int) =~= strip_cr(
                    s@.subrange(start as int, i as int),
                ));
            }
            let line = s.substring_char(start, end).to_owned();
            r.push(line);
            start = i + 1;
            proof {
                assert(s@.subrange(start as int, start as int) =~= Seq::<char>::empty());
            }
        } else {
            proof {
                assert(s@.subrange(start as int, i + 1) =~= s@.subrange(start as int, i as int).push(
                    s@[i as int],
                ));
            }
        }
        i += 1;
        proof {
            assert(r.deep_view() =~= lines_scan(s@.take(i as int)).0);
        }
    }
    proof {
        assert(s@.take(i as int) =~= s@);
    }
    if start < v.len() {
        let line = s.substring_char(start, v.len()).to_owned();
        r.push(line);
        proof {
            assert(r.deep_view() =~= spec_lines(s@));
        }
    } else {
        proof {
            assert(lines_scan(s@).1 =~= Seq::<char>::empty());
            assert(r.deep_view() =~= spec_lines(s@));
        }
    }
    r
}

/// Left-to-right separator scan: the segments closed by `sep` so far, and the
/// still-open segment after the last separator.
pub open spec fn split_scan(s: Seq<char>, sep: char) -> (Seq<Seq<char>>, Seq<char>)
    decreases s.len(),
{
    if s.len() == 0 {
        (Seq::empty(), Seq::empty())
    } else {
        let (done, cur) = split_scan(s.drop_last(), sep);
        if s.last() == sep {
            (done.push(cur), Seq::empty())
        } else {
            (done, cur.push(s.last()))
        }
    }
}

/// The segments of `s` separated by `sep`; separators at the edges and
/// adjacent separators yield empty segments, and the whole of `s` is one
/// segment when it holds no separator.
pub open spec fn spec_split(s: Seq<char>, sep: char) -> Seq<Seq<char>> {
    split_scan(s, sep).0.push(split_scan(s, sep).1)
}

/// Splits `s` at each occurrence of `sep`.
pub fn split_char(s: &str, sep: char) -> (r: Vec<String>)
    ensures
        r.deep_view() == spec_split(s@, sep),
{
    let v = chars_of(s);
    let mut r: Vec<String> = Vec::new();
    let mut start: usize = 0;
    let mut i: usize = 0;
    while i < v.len()
        invariant
            start <= i <= v.len(),
            v@ == s@,
            r.deep_view() == split_scan(s@.take(i as int), sep).0,
            s@.subrange(start as int, i as int) == split_scan(s@.take(i as int), sep).1,
        decreases v.len() - i,
    {
        proof {
            assert(s@.take(i + 1).drop_last() =~= s@.take(i as int));
        }
        if v[i] == sep {
            let seg = s.substring_char(start, i).to_owned();
            r.push(seg);
            start = i + 1;
            proof {
                assert(s@.subrange(start as int, start as int) =~= Seq::<char>::empty());
            }
        } else {
            proof {
                assert(s@.subrange(start as int, i + 1) =~= s@.subrange(start as int, i as int).push(
                    s@[i as int],
                ));
            }
        }
        i += 1;
        proof {
            assert(r.deep_view() =~= split_scan(s@.take(i as int), sep).0);
        }
    }
    proof {
        assert(s@.take(i as int) =~= s@);
    }
    let seg = s.substring_char(start, v.len()).to_owned();
    r.push(seg);
    proof {
        assert(r.deep_view() =~= spec_split(s@, sep));
    }
    r
}

/// Whether `v[a..b]` holds exactly the characters of `p`.
pub fn range_eq(v: &Vec<char>, a: usize, b: usize, p: &str) -> (r: bool)
    requires
        a <= b <= v@.len(),
    ensures
        r == (v@.subrange(a as int, b as int) == p@),
{
    let pv = chars_of(p);
    if b - a != pv.len() {
        proof {
            assert(v@.subrange(a as int, b as int).len() == b - a);
        }
        return false;
    }
    let m = match_at(v, &pv, a);
    proof {
        assert(v@.subrange(a as int, a + pv@.len()) =~= v@.subrange(a as int, b as int));
    }
    m
}

/// `s` without leading whitespace.
pub open spec fn drop_leading_ws(s: Seq<char>) -> Seq<char>
    decreases s.len(),
{
    if s.len() > 0 && is_ws(s[0]) {
        drop_leading_ws(s.drop_first())
    } else {
        s
    }
}

/// `s` without trailing whitespace.
pub open spec fn drop_trailing_ws(s: Seq<char>) -> Seq<char>
    decreases s.len(),
{
    if s.len() > 0 && is_ws(s.last()) {
        drop_trailing_ws(s.drop_last())
    } else {
        s
    }
}

/// `s` without leading or trailing whitespace.
pub open spec fn trim_spec(s: Seq<char>) -> Seq<char> {
    drop_leading_ws(drop_trailing_ws(s))
}

pub proof fn lemma_drop_trailing_ws(s: Seq<char>, j: int)
    requires
        0 <= j <= s.len(),
        forall|k: int| j <= k < s.len() ==> is_ws(s[k]),
        j > 0 ==> !is_ws(s[j - 1]),
    ensures
        drop_trailing_ws(s) == s.subrange(0, j),
    decreases s.len(),
{
    if s.len() == 0 {
        assert(s.subrange(0, 0) =~= s);
    } else if j == s.len() {
        assert(s.subrange(0, s.len() as int) =~= s);
    } else {
        lemma_drop_trailing_ws(s.drop_last(), j);
        assert(s.drop_last().subrange(0, j) =~= s.subrange(0, j));
    }
}

proof fn lemma_drop_leading_ws(s: Seq<char>, j: int)
    requires
        0 <= j <= s.len(),
        forall|k: int| 0 <= k < j ==> is_ws(s[k]),
        j < s.len() ==> !is_ws(s[j]),
    ensures
        drop_leading_ws(s) == s.subrange(j, s.len() as int),
    decreases s.len(),
{
    if s.len() == 0 {
        assert(s.subrange(0, 0) =~= s);
    } else if j == 0 {
        assert(s.subrange(0, s.len() as int) =~= s);
    } else {
        assert(is_ws(s[0]));
        lemma_drop_leading_ws(s.drop_first(), j - 1);
        assert(s.drop_first().subrange(j - 1, s.drop_first().len() as int) =~= s.subrange(
            j,
            s.len() as int,
        ));
    }
}

/// The bounds of `v[from..to]` once whitespace is trimmed from both ends.
pub fn trim_bounds(v: &Vec<char>, from: usize, to: usize) -> (r: (usize, usize))
    requires
        from <= to <= v@.len(),
    ensures
        from <= r.0 <= r.1 <= to,
        v@.subrange(r.0 as int, r.1 as int) == trim_spec(v@.subrange(from as int, to as int)),
{
    let ghost s = v@.subrange(from as int, to as int);
    let mut b: usize = to;
    while b > from && is_ws_char(v[b - 1])
        invariant
            from <= b <= to <= v@.len(),
            forall|k: int| b <= k < to ==> is_ws(v@[k]),
        decreases b,
    {
        b -= 1;
    }
    proof {
        lemma_drop_trailing_ws(s, b - from);
        assert(drop_trailing_ws(s) =~= v@.subrange(from as int, b as int));
    }
    let mut a: usize = from;
    while a < b && is_ws_char(v[a])
        invariant
            from <= a <= b <= v@.len(),
            forall|k: int| from <= k < a ==> is_ws(v@[k]),
        decreases b - a,
    {
        a += 1;
    }
    proof {
        let t = v@.subrange(from as int, b as int);
        lemma_drop_leading_ws(t, a - from);
        assert(drop_leading_ws(t) =~= v@.subrange(a as int, b as int));
    }
    (a, b)
}

/// `s` without its leading copies of `c`.
pub open spec fn drop_leading_char(s: Seq<char>, c: char) -> Seq<char>
    decreases s.len(),
{
    if s.len() > 0 && s[0] == c {
        drop_leading_char(s.drop_first(), c)
    } else {
        s
    }
}

proof fn lemma_drop_leading_char(s: Seq<char>, c: char, j: int)
    requires
        0 <= j <= s.len(),
        forall|k: int| 0 <= k < j ==> s[k] == c,
        j < s.len() ==> s[j] != c,
    ensures
        drop_leading_char(s, c) == s.subrange(j, s.len() as int),
    decreases s.len(),
{
    if s.len() == 0 {
        assert(s.subrange(0, 0) =~= s);
    } else if j == 0 {
        assert(s.subrange(0, s.len() as int) =~= s);
    } else {
        lemma_drop_leading_char(s.drop_first(), c, j - 1);
        assert(s.drop_first().subrange(j - 1, s.drop_first().len() as int) =~= s.subrange(
            j,
            s.len() as int,
        ));
    }
}

/// The lower bound of `v[from..to]` once leading copies of `c` are dropped.
pub fn drop_leading_bound(v: &Vec<char>, from: usize, to: usize, c: char) -> (a: usize)
    requires
        from <= to <= v@.len(),
    ensures
        from <= a <= to,
        v@.subrange(a as int, to as int) == drop_leading_char(
            v@.subrange(from as int, to as int),
            c,
        ),
{
    let mut a: usize = from;
    while a < to && v[a] == c
        invariant
            from <= a <= to <= v@.len(),
            forall|k: int| from <= k < a ==> v@[k] == c,
        decreases to - a,
    {
        a += 1;
    }
    proof {
        lemma_drop_leading_char(v@.subrange(from as int, to as int), c, a - from);
        assert(v@.subrange(from as int, to as int).subrange(
            a - from,
            to - from,
        ) =~= v@.subrange(a as int, to as int));
    }
    a
}

/// The first index of `s` satisfying `pred`, if any.
pub open spec fn first_where<T>(s: Seq<T>, pred: spec_fn(T) -> bool) -> Option<int>
    decreases s.len(),
{
    if s.len() == 0 {
        None
    } else if pred(s[0]) {
        Some(0)
    } else {
        match first_where(s.drop_first(), pred) {
            Some(i) => Some(i + 1),
            None => None,
        }
    }
}

/// `first_where` returns exactly the least matching index.
pub proof fn lemma_first_where_is<T>(s: Seq<T>, pred: spec_fn(T) -> bool, i: int)
    requires
        0 <= i < s.len(),
        pred(s[i]),
        forall|j: int| 0 <= j < i ==> !pred(#[trigger] s[j]),
    ensures
        first_where(s, pred) == Some(i),
    decreases s.len(),
{
    if i > 0 {
        lemma_first_where_is(s.drop_first(), pred, i - 1);
    }
}

/// When nothing matches, `first_where` returns `None`.
pub proof fn lemma_first_where_none<T>(s: Seq<T>, pred: spec_fn(T) -> bool)
    requires
        forall|j: int| 0 <= j < s.len() ==> !pred(#[trigger] s[j]),
    ensures
        first_where(s, pred) == None::<int>,
    decreases s.len(),
{
    if s.len() > 0 {
        lemma_first_where_none(s.drop_first(), pred);
    }
}

/// What `first_where` promises of its result.
pub proof fn lemma_first_where_some<T>(s: Seq<T>, pred: spec_fn(T) -> bool)
    ensures
        match first_where(s, pred) {
            Some(i) => 0 <= i < s.len() && pred(s[i]) && (forall|j: int|
                0 <= j < i ==> !pred(#[trigger] s[j])),
            None => forall|j: int| 0 <= j < s.len() ==> !pred(#[trigger] s[j]),
        },
    decreases s.len(),
{
    if s.len() > 0 && !pred(s[0]) {
        lemma_first_where_some(s.drop_first(), pred);
        match first_where(s.drop_first(), pred) {
            Some(i) => {
                assert(s[i + 1] == s.drop_first()[i]);
                assert forall|j: int| 0 <= j < i + 1 implies !pred(#[trigger] s[j]) by {
                    if j > 0 {
                        assert(s[j] == s.drop_first()[j - 1]);
                    }
                }
            },
            None => {
                assert forall|j: int| 0 <= j < s.len() implies !pred(#[trigger] s[j]) by {
                    if j > 0 {
                        assert(s[j] == s.drop_first()[j - 1]);
                    }
                }
            },
        }
    }
}

/// A decimal digit.
pub open spec fn is_digit(c: char) -> bool {
    48 <= c as u32 <= 57
}

/// Every character of `s` is a decimal digit.
pub open spec fn all_digits(s: Seq<char>) -> bool {
    forall|i: int| 0 <= i < s.len() ==> is_digit(s[i])
}

/// The value of `s` read as a decimal numeral.
pub open spec fn dec_val(s: Seq<char>) -> int
    decreases s.len(),
{
    if s.len() == 0 {
        0
    } else {
        dec_val(s.drop_last()) * 10 + (s.last() as u32 - 48)
    }
}

proof fn lemma_dec_val_nonneg(s: Seq<char>)
    requires
        all_digits(s),
    ensures
        dec_val(s) >= 0,
    decreases s.len(),
{
    if s.len() > 0 {
        lemma_dec_val_nonneg(s.drop_last());
    }
}

proof fn lemma_dec_val_grows(s: Seq<char>, t: Seq<char>)
    requires
        all_digits(s),
        all_digits(t),
        s.len() <= t.len(),
        t.subrange(0, s.len() as int) == s,
    ensures
        dec_val(t) >= dec_val(s),
    decreases t.len(),
{
    if t.len() > s.len() {
        lemma_dec_val_nonneg(s);
        assert(t.drop_last().subrange(0, s.len() as int) =~= s);
        lemma_dec_val_grows(s, t.drop_last());
        lemma_dec_val_nonneg(t.drop_last());
        assert(is_digit(t.last()));
        assert(dec_val(t) == dec_val(t.drop_last()) * 10 + (t.last() as u32 - 48));
        assert(dec_val(t.drop_last()) * 10 >= dec_val(t.drop_last())) by (nonlinear_arith)
            requires
                dec_val(t.drop_last()) >= 0,
        ;
    } else {
        assert(t =~= s);
    }
}

/// The decimal digits, lowest first.
pub open spec fn digit_chars() -> Seq<char> {
    "0123456789"@
}

/// The decimal numeral of `n`, most significant digit first.
pub open spec fn dec_str(n: int) -> Seq<char>
    recommends
        n >= 0,
    decreases n,
{
    if n < 10 {
        seq![digit_chars()[if 0 <= n { n } else { 0 }]]
    } else {
        dec_str(n / 10).push(digit_chars()[n % 10])
    }
}

/// Renders `n` as a decimal numeral.
pub fn u64_to_dec(n: u64) -> (r: String)
    ensures
        r@ == dec_str(n as int),
    decreases n,
{
    let digits: &str = "0123456789";
    proof {
        reveal_strlit("0123456789");
        assert(digits.is_ascii());
        assert(digits@.len() == 10);
    }
    if n < 10 {
        let d = n as usize;
        let r = digits.substring_ascii(d, d + 1).to_owned();
        proof {
            assert(r@ =~= dec_str(n as int));
        }
        r
    } else {
        let mut r = u64_to_dec(n / 10);
        let d = (n % 10) as usize;
        r.append(digits.substring_ascii(d, d + 1));
        proof {
            assert(r@ =~= dec_str(n as int));
        }
        r
    }
}

/// Reads `v[from..to]` as a decimal numeral: the value when the range is
/// non-empty, all digits, and fits in a `u64`.
pub fn parse_u64_range(v: &Vec<char>, from: usize, to: usize) -> (r: Option<u64>)
    requires
        from <= to <= v@.len(),
    ensures
        match r {
            Some(n) => {
                let s = v@.subrange(from as int, to as int);
                from < to && all_digits(s) && n == dec_val(s)
            },
            None => {
                let s = v@.subrange(from as int, to as int);
                from == to || !all_digits(s) || dec_val(s) > u64::MAX
            },
        },
{
    if from == to {
        return None;
    }
    let mut acc: u64 = 0;
    let mut i: usize = from;
    while i < to
        invariant
            from <= i <= to <= v@.len(),
            all_digits(v@.subrange(from as int, i as int)),
            acc == dec_val(v@.subrange(from as int, i as int)),
        decreases to - i,
    {
        let ghost pre = v@.subrange(from as int, i as int);
        let c = v[i];
        let cu = c as u32;
        if cu < 48 || cu > 57 {
            proof {
                assert(!all_digits(v@.subrange(from as int, to as int))) by {
                    assert(v@.subrange(from as int, to as int)[i - from] == v@[i as int]);
                }
            }
            return None;
        }
        let d = (cu - 48) as u64;
        proof {
            assert(v@.subrange(from as int, i + 1).drop_last() =~= pre);
        }
        if acc > (u64::MAX - d) / 10 {
            proof {
                let s = v@.subrange(from as int, to as int);
                let cur = v@.subrange(from as int, i + 1);
                assert(acc * 10 + d > u64::MAX) by (nonlinear_arith)
                    requires
                        acc > (u64::MAX - d) / 10,
                        d <= 9,
                ;
                assert(dec_val(cur) > u64::MAX);
                if all_digits(s) {
                    assert(all_digits(cur)) by {
                        assert(forall|k: int|
                            0 <= k < cur.len() ==> cur[k] == s[k] && (all_digits(s) ==> is_digit(
                                s[k],
                            )));
                    }
                    assert(s.subrange(0, cur.len() as int) =~= cur);
                    lemma_dec_val_grows(cur, s);
                }
            }
            return None;
        }
        acc = acc * 10 + d;
        i += 1;
        proof {
            assert(all_digits(v@.subrange(from as int, i as int))) by {
                let cur = v@.subrange(from as int, i as int);
                assert(forall|k: int| 0 <= k < cur.len() - 1 ==> cur[k] == pre[k]);
                assert(cur.last() == v@[i - 1]);
            }
        }
    }
    Some(acc)
}


/// The first position at or after `from` where `p` occurs in `s`, if any.
pub open spec fn spec_find(s: Seq<char>, p: Seq<char>, from: int) -> Option<int>
    recommends
        0 <= from,
    decreases s.len() - from + 1,
{
    if !(0 <= from && from + p.len() <= s.len()) {
        None
    } else if s.subrange(from, from + p.len() as int) == p {
        Some(from)
    } else {
        spec_find(s, p, from + 1)
    }
}

/// `spec_find` returns exactly the least match position.
pub proof fn lemma_spec_find_is(s: Seq<char>, p: Seq<char>, from: int, i: int)
    requires
        0 <= from <= i,
        matches_at(s, p, i),
        forall|k: int| from <= k < i ==> !matches_at(s, p, k),
    ensures
        spec_find(s, p, from) == Some(i),
    decreases i - from,
{
    assert(from + p.len() <= s.len());
    if from < i {
        assert(!matches_at(s, p, from));
        assert(s.subrange(from, from + p.len() as int) != p);
        lemma_spec_find_is(s, p, from + 1, i);
    } else {
        assert(s.subrange(from, from + p.len() as int) == p);
    }
}

/// When nothing matches at or after `from`, `spec_find` returns `None`.
pub proof fn lemma_spec_find_none(s: Seq<char>, p: Seq<char>, from: int)
    requires
        0 <= from,
        forall|k: int| from <= k ==> !matches_at(s, p, k),
    ensures
        spec_find(s, p, from) == None::<int>,
    decreases s.len() - from + 1,
{
    if from + p.len() <= s.len() {
        assert(!matches_at(s, p, from));
        assert(s.subrange(from, from + p.len() as int) != p);
        lemma_spec_find_none(s, p, from + 1);
    }
}

/// The first position at or after `from` where `p` occurs in `v`, as
/// [`spec_find`] names it.
pub fn find_at(v: &Vec<char>, p: &Vec<char>, from: usize) -> (r: Option<usize>)
    ensures
        match r {
            Some(i) => spec_find(v@, p@, from as int) == Some(i as int) && from <= i && matches_at(
                v@,
                p@,
                i as int,
            ),
            None => spec_find(v@, p@, from as int) == None::<int>,
        },
{
    let r = find_seq(v, p, from);
    proof {
        match r {
            Some(i) => lemma_spec_find_is(v@, p@, from as int, i as int),
            None => lemma_spec_find_none(v@, p@, from as int),
        }
    }
    r
}

/// The trailing run of non-whitespace characters of `s`: what a whitespace
/// split yields last, when `s` does not end in whitespace.
pub open spec fn last_token(s: Seq<char>) -> Seq<char>
    decreases s.len(),
{
    if s.len() == 0 {
        s
    } else if is_ws(s.last()) {
        Seq::empty()
    } else {
        last_token(s.drop_last()).push(s.last())
    }
}

/// `last_token` is the suffix after the last whitespace character.
pub proof fn lemma_last_token_range(s: Seq<char>, a: int)
    requires
        0 <= a <= s.len(),
        forall|k: int| a <= k < s.len() ==> !is_ws(s[k]),
        a > 0 ==> is_ws(s[a - 1]),
    ensures
        last_token(s) == s.subrange(a, s.len() as int),
    decreases s.len(),
{
    if s.len() == a {
        if a == 0 {
            assert(s.subrange(0, 0) =~= s);
        } else {
            assert(s.subrange(a, a as int) =~= Seq::<char>::empty());
        }
    } else {
        lemma_last_token_range(s.drop_last(), a);
        assert(s.drop_last().subrange(a, s.drop_last().len() as int) =~= s.subrange(
            a,
            s.len() - 1,
        ));
        assert(s.subrange(a, s.len() as int) =~= s.subrange(a, s.len() - 1).push(s.last()));
    }
}

/// Whether every character of `v[from..to]` is a decimal digit.
pub fn all_digits_range(v: &Vec<char>, from: usize, to: usize) -> (r: bool)
    requires
        from <= to <= v@.len(),
    ensures
        r == all_digits(v@.subrange(from as int, to as int)),
{
    let mut i: usize = from;
    while i < to
        invariant
            from <= i <= to <= v@.len(),
            forall|k: int| from <= k < i ==> is_digit(v@[k]),
        decreases to - i,
    {
        let cu = v[i] as u32;
        if cu < 48 || cu > 57 {
            proof {
                assert(v@.subrange(from as int, to as int)[i - from] == v@[i as int]);
            }
            return false;
        }
        i += 1;
    }
    proof {
        assert forall|k: int|
            0 <= k < v@.subrange(from as int, to as int).len() implies is_digit(
            #[trigger] v@.subrange(from as int, to as int)[k],
        ) by {
            assert(v@.subrange(from as int, to as int)[k] == v@[from + k]);
        }
    }
    true
}

/// The characters `v[from..to]`, as their own vector.
pub fn subvec(v: &Vec<char>, from: usize, to: usize) -> (r: Vec<char>)
    requires
        from <= to <= v@.len(),
    ensures
        r@ == v@.subrange(from as int, to as int),
{
    let mut r: Vec<char> = Vec::new();
    let mut i: usize = from;
    while i < to
        invariant
            from <= i <= to <= v@.len(),
            r@ == v@.subrange(from as int, i as int),
        decreases to - i,
    {
        r.push(v[i]);
        i += 1;
        proof {
            assert(r@ =~= v@.subrange(from as int, i as int));
        }
    }
    r
}

/// Lexicographic order on character sequences, by unicode scalar value: the
/// order Rust gives strings.
pub open spec fn lex_leq(a: Seq<char>, b: Seq<char>) -> bool
    decreases a.len(),
{
    if a.len() == 0 {
        true
    } else if b.len() == 0 {
        false
    } else if a[0] != b[0] {
        (a[0] as u32) < (b[0] as u32)
    } else {
        lex_leq(a.drop_first(), b.drop_first())
    }
}

proof fn lemma_lex_leq_skip(a: Seq<char>, b: Seq<char>, i: int)
    requires
        0 <= i <= a.len(),
        i <= b.len(),
        forall|k: int| 0 <= k < i ==> a[k] == b[k],
    ensures
        lex_leq(a, b) == lex_leq(a.skip(i), b.skip(i)),
    decreases i,
{
    if i > 0 {
        if a.len() > 0 && b.len() > 0 {
            lemma_lex_leq_skip(a.drop_first(), b.drop_first(), i - 1);
            assert(a.drop_first().skip(i - 1) =~= a.skip(i));
            assert(b.drop_first().skip(i - 1) =~= b.skip(i));
        }
    } else {
        assert(a.skip(0) =~= a);
        assert(b.skip(0) =~= b);
    }
}

/// Whether `a` sorts at or before `b` in lexicographic order.
pub fn str_lex_leq(a: &str, b: &str) -> (r: bool)
    ensures
        r == lex_leq(a@, b@),
{
    let av = chars_of(a);
    let bv = chars_of(b);
    let mut i: usize = 0;
    while i < av.len() && i < bv.len()
        invariant
            i <= av@.len(),
            i <= bv@.len(),
            av@ == a@,
            bv@ == b@,
            forall|k: int| 0 <= k < i ==> a@[k] == b@[k],
        decreases av@.len() - i,
    {
        if av[i] != bv[i] {
            proof {
                lemma_lex_leq_skip(a@, b@, i as int);
                assert(a@.skip(i as int)[0] == a@[i as int]);
                assert(b@.skip(i as int)[0] == b@[i as int]);
            }
            return (av[i] as u32) < (bv[i] as u32);
        }
        i += 1;
    }
    proof {
        lemma_lex_leq_skip(a@, b@, i as int);
        if i == av.len() {
            assert(a@.skip(i as int).len() == 0);
        } else {
            assert(b@.skip(i as int).len() == 0);
            assert(a@.skip(i as int).len() > 0);
        }
    }
    i == av.len()
}

} // verus!
