//! Character-level utilities shared by the formatting code: conversion
//! between `&str` / `String` and `Vec<char>`, and small sequence helpers.

use vstd::prelude::*;

verus! {

/// Relies on std's `String::push`: appends the given character to the string.
#[verifier::external_body]
pub fn push_char(s: &mut String, c: char)
    ensures
        final(s)@ == old(s)@.push(c),
{
    s.push(c);
}

/// The characters of `s`, in order, as a vector.
pub fn chars_of(s: &str) -> (r: Vec<char>)
    ensures
        r@ == s@,
{
    let mut r: Vec<char> = Vec::new();
    for c in it: s.chars()
        invariant
            r@ == it.seq().subrange(0, it.index() as int),
            it.seq() == s@,
    {
        r.push(c);
    }
    proof {
        assert(r@ =~= s@);
    }
    r
}

/// ASCII lowercase of one character; other characters are unchanged.
pub open spec fn lower_char(c: char) -> char {
    if 'A' <= c && c <= 'Z' {
        (((c as u8) + 32) as char)
    } else {
        c
    }
}

/// ASCII lowercase of a character sequence.
pub open spec fn lower_seq(s: Seq<char>) -> Seq<char> {
    Seq::new(s.len(), |i: int| lower_char(s[i]))
}

/// ASCII lowercase of one character.
pub fn to_lower_char(c: char) -> (r: char)
    ensures
        r == lower_char(c),
{
    if 'A' <= c && c <= 'Z' {
        (((c as u8) + 32) as char)
    } else {
        c
    }
}

/// ASCII lowercase of a character vector.
pub fn to_lower_chars(cs: &Vec<char>) -> (r: Vec<char>)
    ensures
        r@ == lower_seq(cs@),
{
    let mut r: Vec<char> = Vec::new();
    let mut i: usize = 0;
    while i < cs.len()
        invariant
            i <= cs.len(),
            r@ == lower_seq(cs@).subrange(0, i as int),
        decreases cs.len() - i,
    {
        r.push(to_lower_char(cs[i]));
        proof {
            assert(r@ =~= lower_seq(cs@).subrange(0, i + 1));
        }
        i += 1;
    }
    proof {
        assert(r@ =~= lower_seq(cs@));
    }
    r
}

/// ASCII lowercase of a string.
pub fn to_lower_str(s: &str) -> (r: String)
    ensures
        r@ == lower_seq(s@),
{
    let cs = chars_of(s);
    let low = to_lower_chars(&cs);
    string_of(&low)
}

/// Whether two character vectors hold the same characters.
pub fn eq_chars(a: &Vec<char>, b: &Vec<char>) -> (r: bool)
    ensures
        r == (a@ == b@),
{
    if a.len() != b.len() {
        return false;
    }
    let mut i: usize = 0;
    while i < a.len()
        invariant
            i <= a.len(),
            a.len() == b.len(),
            forall|j: int| 0 <= j < i ==> a@[j] == b@[j],
        decreases a.len() - i,
    {
        if a[i] != b[i] {
            return false;
        }
        i += 1;
    }
    proof {
        assert(a@ =~= b@);
    }
    true
}

/// Whether two strings hold the same characters.
pub fn eq_str(a: &str, b: &str) -> (r: bool)
    ensures
        r == (a@ == b@),
{
    let ca = chars_of(a);
    let cb = chars_of(b);
    eq_chars(&ca, &cb)
}

/// `n` copies of the character `c`.
pub open spec fn repeat_seq(c: char, n: nat) -> Seq<char> {
    Seq::new(n, |i: int| c)
}

/// A string of `n` copies of `c`.
pub fn repeat_char(c: char, n: usize) -> (r: String)
    ensures
        r@ == repeat_seq(c, n as nat),
{
    let mut r = String::new();
    let mut i: usize = 0;
    while i < n
        invariant
            i <= n,
            r@ == repeat_seq(c, i as nat),
        decreases n - i,
    {
        push_char(&mut r, c);
        proof {
            assert(r@ =~= repeat_seq(c, (i + 1) as nat));
        }
        i += 1;
    }
    r
}

/// Whether the needle occurs in the haystack starting at position `i`.
pub open spec fn occurs_at(h: Seq<char>, n: Seq<char>, i: int) -> bool {
    0 <= i && i + n.len() <= h.len() && h.subrange(i, i + n.len() as int) == n
}

/// Whether the needle occurs anywhere in the haystack.
pub open spec fn seq_contains(h: Seq<char>, n: Seq<char>) -> bool {
    exists|i: int| occurs_at(h, n, i)
}

/// Whether `h` starts with `n`.
pub open spec fn seq_starts_with(h: Seq<char>, n: Seq<char>) -> bool {
    occurs_at(h, n, 0)
}

/// Whether the needle occurs in the haystack starting at position `i` (executable).
pub fn occurs_at_exec(h: &Vec<char>, n: &Vec<char>, i: usize) -> (r: bool)
    requires
        i + n@.len() <= h@.len(),
    ensures
        r == occurs_at(h@, n@, i as int),
{
    let hl = h.len();
    let mut j: usize = 0;
    while j < n.len()
        invariant
            j <= n.len(),
            i + n@.len() <= h@.len(),
            h@.len() == hl,
            forall|k: int| 0 <= k < j ==> h@[i + k] == n@[k],
        decreases n.len() - j,
    {
        if h[i + j] != n[j] {
            proof {
                assert(h@.subrange(i as int, i + n@.len() as int)[j as int] != n@[j as int]);
            }
            return false;
        }
        j += 1;
    }
    proof {
        assert(h@.subrange(i as int, i + n@.len() as int) =~= n@);
    }
    true
}

/// Whether the needle occurs anywhere in the haystack (executable).
pub fn contains_chars(h: &Vec<char>, n: &Vec<char>) -> (r: bool)
    ensures
        r == seq_contains(h@, n@),
{
    if n.len() > h.len() {
        proof {
            assert(forall|i: int| !occurs_at(h@, n@, i));
        }
        return false;
    }
    if n.len() == 0 {
        proof {
            assert(h@.subrange(0, 0) =~= n@);
            assert(occurs_at(h@, n@, 0));
        }
        return true;
    }
    let last = h.len() - n.len();
    let mut i: usize = 0;
    while i <= last
        invariant
            1 <= n@.len() <= h@.len(),
            last == h@.len() - n@.len(),
            i <= last + 1,
            last < usize::MAX,
            forall|k: int| 0 <= k < i ==> !occurs_at(h@, n@, k),
        decreases last + 1 - i,
    {
        if occurs_at_exec(h, n, i) {
            return true;
        }
        i += 1;
    }
    proof {
        assert(forall|k: int| occurs_at(h@, n@, k) ==> 0 <= k <= h@.len() - n@.len());
    }
    false
}

/// Whether `h` starts with `n` (executable).
pub fn starts_with_chars(h: &Vec<char>, n: &Vec<char>) -> (r: bool)
    ensures
        r == seq_starts_with(h@, n@),
{
    if n.len() > h.len() {
        return false;
    }
    occurs_at_exec(h, n, 0)
}

/// Whether `c` is ASCII whitespace.
pub open spec fn is_space(c: char) -> bool {
    c == ' ' || c == '\t' || c == '\n' || c == '\r'
}

/// Whether `c` is ASCII whitespace (executable).
pub fn is_space_exec(c: char) -> (r: bool)
    ensures
        r == is_space(c),
{
    c == ' ' || c == '\t' || c == '\n' || c == '\r'
}

/// `s` without leading whitespace.
pub open spec fn trim_start(s: Seq<char>) -> Seq<char>
    decreases s.len(),
{
    if s.len() > 0 && is_space(s[0]) {
        trim_start(s.drop_first())
    } else {
        s
    }
}

/// `s` without trailing whitespace.
pub open spec fn trim_end(s: Seq<char>) -> Seq<char>
    decreases s.len(),
{
    if s.len() > 0 && is_space(s[s.len() - 1]) {
        trim_end(s.drop_last())
    } else {
        s
    }
}

/// `s` without leading or trailing whitespace.
pub open spec fn spec_trim(s: Seq<char>) -> Seq<char> {
    trim_end(trim_start(s))
}

proof fn lemma_trim_start_step(s: Seq<char>, i: int)
    requires
        0 <= i <= s.len(),
        forall|j: int| 0 <= j < i ==> is_space(s[j]),
    ensures
        trim_start(s) == trim_start(s.subrange(i, s.len() as int)),
    decreases i,
{
    if i > 0 {
        lemma_trim_start_step(s, i - 1);
        let si = s.subrange(i - 1, s.len() as int);
        assert(si.len() > 0 && is_space(si[0]));
        assert(si.drop_first() =~= s.subrange(i, s.len() as int));
    } else {
        assert(s.subrange(0, s.len() as int) =~= s);
    }
}

proof fn lemma_trim_end_step(s: Seq<char>, j: int)
    requires
        0 <= j <= s.len(),
        forall|k: int| j <= k < s.len() ==> is_space(s[k]),
    ensures
        trim_end(s) == trim_end(s.subrange(0, j)),
    decreases s.len() - j,
{
    if j < s.len() {
        let sj = s.subrange(0, j + 1);
        lemma_trim_end_step(s, j + 1);
        assert(sj.len() > 0 && is_space(sj[sj.len() - 1]));
        assert(sj.drop_last() =~= s.subrange(0, j));
        assert(trim_end(s.subrange(0, j + 1)) == trim_end(s.subrange(0, j)));
    } else {
        assert(s.subrange(0, j) =~= s);
    }
}

/// A copy of `v[from..to]`.
pub fn subvec(v: &Vec<char>, from: usize, to: usize) -> (r: Vec<char>)
    requires
        from <= to <= v@.len(),
    ensures
        r@ == v@.subrange(from as int, to as int),
{
    let mut r: Vec<char> = Vec::new();
    let mut i: usize = from;
    while i < to
        invariant
            from <= i <= to <= v@.len(),
            r@ == v@.subrange(from as int, i as int),
        decreases to - i,
    {
        r.push(v[i]);
        proof {
            assert(r@ =~= v@.subrange(from as int, i + 1));
        }
        i += 1;
    }
    r
}

/// Appends all of `add` to `out`.
pub fn extend_chars(out: &mut Vec<char>, add: &Vec<char>)
    ensures
        final(out)@ == old(out)@ + add@,
{
    let mut i: usize = 0;
    while i < add.len()
        invariant
            i <= add@.len(),
            out@ == old(out)@ + add@.subrange(0, i as int),
        decreases add.len() - i,
    {
        out.push(add[i]);
        proof {
            assert(out@ =~= old(out)@ + add@.subrange(0, i + 1));
        }
        i += 1;
    }
    proof {
        assert(out@ =~= old(out)@ + add@);
    }
}

/// `v` without leading or trailing whitespace.
pub fn trim_chars(v: &Vec<char>) -> (r: Vec<char>)
    ensures
        r@ == spec_trim(v@),
{
    let n = v.len();
    let mut i: usize = 0;
    while i < n && is_space_exec(v[i])
        invariant
            i <= n,
            n == v@.len(),
            forall|j: int| 0 <= j < i ==> is_space(v@[j]),
        decreases n - i,
    {
        i += 1;
    }
    proof {
        lemma_trim_start_step(v@, i as int);
        if i < n {
            assert(!is_space(v@.subrange(i as int, n as int)[0]));
        }
        assert(trim_start(v@) == v@.subrange(i as int, n as int));
    }
    let mut j: usize = n;
    while j > i && is_space_exec(v[j - 1])
        invariant
            i <= j <= n,
            n == v@.len(),
            forall|k: int| j <= k < n ==> is_space(v@[k]),
        decreases j,
    {
        j -= 1;
    }
    let ghost ts = v@.subrange(i as int, n as int);
    proof {
        assert(forall|k: int| j - i <= k < ts.len() ==> is_space(ts[k]));
        lemma_trim_end_step(ts, j - i);
        assert(ts.subrange(0, j - i) =~= v@.subrange(i as int, j as int));
        if j > i {
            assert(!is_space(ts[j - i - 1]));
            assert(trim_end(ts.subrange(0, j - i)) == ts.subrange(0, j - i));
        } else {
            assert(ts.subrange(0, 0) =~= Seq::<char>::empty());
        }
        assert(spec_trim(v@) == v@.subrange(i as int, j as int));
    }
    subvec(v, i, j)
}

/// The least index of `c` in `s` at or after `i`, or -1 when there is none.
pub open spec fn find_char_from(s: Seq<char>, c: char, i: int) -> int
    decreases s.len() - i,
{
    if i < 0 || i >= s.len() {
        -1
    } else if s[i] == c {
        i
    } else {
        find_char_from(s, c, i + 1)
    }
}

/// The least index of `c` in `v` at or after `from`, executable.
pub fn find_char(v: &Vec<char>, c: char, from: usize) -> (r: Option<usize>)
    ensures
        match r {
            Some(i) => from <= i < v@.len() && find_char_from(v@, c, from as int) == i,
            None => find_char_from(v@, c, from as int) == -1,
        },
{
    let n = v.len();
    let mut i: usize = from;
    if i >= n {
        return None;
    }
    while i < n
        invariant
            from <= i <= n,
            n == v@.len(),
            find_char_from(v@, c, from as int) == find_char_from(v@, c, i as int),
        decreases n - i,
    {
        if v[i] == c {
            return Some(i);
        }
        i += 1;
    }
    None
}

/// The greatest index at which `n` occurs in `h` at or before `i`, or -1.
pub open spec fn rfind_from(h: Seq<char>, n: Seq<char>, i: int) -> int
    decreases i + 1,
{
    if i < 0 {
        -1
    } else if occurs_at(h, n, i) {
        i
    } else {
        rfind_from(h, n, i - 1)
    }
}

/// The greatest index at which `n` occurs in `h`, or -1.
pub open spec fn spec_rfind(h: Seq<char>, n: Seq<char>) -> int {
    rfind_from(h, n, h.len() - n.len())
}

/// The greatest occurrence of `n` in `h`, executable.
pub fn rfind_chars(h: &Vec<char>, n: &Vec<char>) -> (r: Option<usize>)
    ensures
        match r {
            Some(i) => spec_rfind(h@, n@) == i && occurs_at(h@, n@, i as int),
            None => spec_rfind(h@, n@) == -1,
        },
{
    if n.len() > h.len() {
        proof {
            assert(h@.len() - n@.len() < 0);
        }
        return None;
    }
    let start = h.len() - n.len();
    let mut i: usize = start;
    loop
        invariant
            n@.len() <= h@.len(),
            0 <= i <= start,
            start == h@.len() - n@.len(),
            spec_rfind(h@, n@) == rfind_from(h@, n@, i as int),
        decreases i,
    {
        if occurs_at_exec(h, n, i) {
            return Some(i);
        }
        if i == 0 {
            proof {
                assert(rfind_from(h@, n@, -1) == -1);
                assert(rfind_from(h@, n@, 0) == -1);
            }
            return None;
        }
        i -= 1;
    }
}

/// `h` with every (left-to-right, non-overlapping) occurrence of `n`
/// replaced by `rep`; unchanged when `n` is empty.
pub open spec fn spec_replace(h: Seq<char>, n: Seq<char>, rep: Seq<char>) -> Seq<char>
    decreases h.len(),
{
    if n.len() == 0 || h.len() < n.len() {
        h
    } else if occurs_at(h, n, 0) {
        rep + spec_replace(h.skip(n.len() as int), n, rep)
    } else {
        seq![h[0]] + spec_replace(h.skip(1), n, rep)
    }
}

proof fn lemma_occurs_skip(h: Seq<char>, n: Seq<char>, i: int)
    requires
        0 <= i,
        i + n.len() <= h.len(),
    ensures
        occurs_at(h, n, i) == occurs_at(h.skip(i), n, 0),
{
    assert(h.skip(i).subrange(0, n.len() as int) =~= h.subrange(i, i + n.len() as int));
}

/// Replaces every occurrence of `n` in `h` by `rep`, executable.
pub fn replace_chars(h: &Vec<char>, n: &Vec<char>, rep: &Vec<char>) -> (r: Vec<char>)
    ensures
        r@ == spec_replace(h@, n@, rep@),
{
    if n.len() == 0 {
        return subvec(h, 0, h.len());
    }
    let mut out: Vec<char> = Vec::new();
    let mut i: usize = 0;
    proof {
        assert(h@.subrange(0, h@.len() as int) =~= h@);
        assert(Seq::<char>::empty() + spec_replace(h@, n@, rep@) =~= spec_replace(h@, n@, rep@));
    }
    while i < h.len()
        invariant
            i <= h@.len(),
            n@.len() >= 1,
            spec_replace(h@, n@, rep@) == out@ + spec_replace(
                h@.subrange(i as int, h@.len() as int),
                n@,
                rep@,
            ),
        decreases h.len() - i,
    {
        let ghost rest = h@.subrange(i as int, h@.len() as int);
        if h.len() - i >= n.len() && occurs_at_exec(h, n, i) {
            proof {
                lemma_occurs_skip(h@, n@, i as int);
                assert(h@.skip(i as int) == rest);
                assert(occurs_at(rest, n@, 0));
                assert(rest.skip(n@.len() as int) =~= h@.subrange(
                    i + n@.len(),
                    h@.len() as int,
                ));
            }
            extend_chars(&mut out, rep);
            i += n.len();
        } else {
            proof {
                if i + n@.len() <= h@.len() {
                    lemma_occurs_skip(h@, n@, i as int);
                    assert(h@.skip(i as int) == rest);
                }
                assert(!occurs_at(rest, n@, 0));
                assert(rest.skip(1) =~= h@.subrange(i + 1, h@.len() as int));
                assert(spec_replace(rest, n@, rep@) == seq![h@[i as int]] + spec_replace(
                    h@.subrange(i + 1, h@.len() as int),
                    n@,
                    rep@,
                ));
            }
            out.push(h[i]);
            i += 1;
        }
    }
    proof {
        assert(h@.subrange(i as int, h@.len() as int) =~= Seq::<char>::empty());
        assert(spec_replace(Seq::<char>::empty(), n@, rep@) == Seq::<char>::empty());
        assert(out@ + Seq::<char>::empty() =~= out@);
    }
    out
}

/// One pass of whitespace collapsing from position `i`: state 0 before the
/// first token, 1 inside a token, 2 in a gap after a token.
pub open spec fn collapse_from(s: Seq<char>, i: int, st: int) -> Seq<char>
    decreases s.len() - i,
{
    if i < 0 || i >= s.len() {
        Seq::empty()
    } else if is_space(s[i]) {
        collapse_from(s, i + 1, if st == 0 {
            0
        } else {
            2
        })
    } else {
        (if st == 2 {
            seq![' ']
        } else {
            Seq::<char>::empty()
        }) + seq![s[i]] + collapse_from(s, i + 1, 1)
    }
}

/// `s` with leading and trailing whitespace removed and every inner run of
/// whitespace replaced by a single space.
pub open spec fn spec_collapse(s: Seq<char>) -> Seq<char> {
    collapse_from(s, 0, 0)
}

/// Collapses whitespace runs, executable.
pub fn collapse_chars(v: &Vec<char>) -> (r: Vec<char>)
    ensures
        r@ == spec_collapse(v@),
{
    let mut out: Vec<char> = Vec::new();
    let mut st: u8 = 0;
    let mut i: usize = 0;
    while i < v.len()
        invariant
            i <= v@.len(),
            st == 0 || st == 1 || st == 2,
            spec_collapse(v@) == out@ + collapse_from(v@, i as int, st as int),
        decreases v.len() - i,
    {
        let ghost before = out@;
        let ghost st0 = st as int;
        let c = v[i];
        if is_space_exec(c) {
            if st != 0 {
                st = 2;
            }
        } else {
            if st == 2 {
                out.push(' ');
            }
            out.push(c);
            st = 1;
        }
        proof {
            assert(before + collapse_from(v@, i as int, st0) =~= out@ + collapse_from(
                v@,
                i + 1,
                st as int,
            ));
        }
        i += 1;
    }
    proof {
        assert(collapse_from(v@, i as int, st as int) == Seq::<char>::empty());
        assert(out@ =~= spec_collapse(v@));
    }
    out
}

/// The segments of `s` between occurrences of the separator `c`; always at
/// least one segment, and empty segments are kept.
pub open spec fn spec_split(s: Seq<char>, c: char) -> Seq<Seq<char>>
    decreases s.len(),
{
    if s.len() == 0 {
        seq![Seq::<char>::empty()]
    } else if s[0] == c {
        seq![Seq::<char>::empty()] + spec_split(s.drop_first(), c)
    } else {
        let rest = spec_split(s.drop_first(), c);
        seq![seq![s[0]] + rest[0]] + rest.drop_first()
    }
}

/// Splitting yields at least one segment.
pub proof fn lemma_split_len(s: Seq<char>, c: char)
    ensures
        spec_split(s, c).len() >= 1,
    decreases s.len(),
{
    if s.len() > 0 {
        lemma_split_len(s.drop_first(), c);
    }
}

/// Splits `v` at every occurrence of `c`, executable.
pub fn split_chars(v: &Vec<char>, c: char) -> (r: Vec<Vec<char>>)
    ensures
        r.deep_view() == spec_split(v@, c),
{
    let mut parts: Vec<Vec<char>> = Vec::new();
    parts.push(Vec::new());
    let n = v.len();
    proof {
        assert(v@.skip(n as int) =~= Seq::<char>::empty());
        assert(parts.deep_view() =~~= spec_split(v@.skip(n as int), c));
    }
    let mut i: usize = n;
    while i > 0
        invariant
            i <= n,
            n == v@.len(),
            parts.deep_view() == spec_split(v@.skip(i as int), c),
            parts.len() >= 1,
        decreases i,
    {
        let ghost before = parts.deep_view();
        let ch = v[i - 1];
        if ch == c {
            parts.insert(0, Vec::new());
            proof {
                assert(v@.skip(i - 1).drop_first() =~= v@.skip(i as int));
                assert(parts.deep_view() =~~= spec_split(v@.skip(i - 1), c));
            }
        } else {
            let mut p0 = parts.remove(0);
            p0.insert(0, ch);
            parts.insert(0, p0);
            proof {
                let su = v@.skip(i - 1);
                assert(su.drop_first() =~= v@.skip(i as int));
                assert(su.len() > 0 && su[0] == ch);
                let rest = spec_split(su.drop_first(), c);
                lemma_split_len(su.drop_first(), c);
                assert(p0@ =~= seq![ch] + rest[0]);
                assert(parts.deep_view() =~~= seq![seq![ch] + rest[0]] + rest.drop_first());
                assert(parts.deep_view() =~~= spec_split(su, c));
            }
        }
        i -= 1;
    }
    proof {
        assert(v@.skip(0) =~= v@);
    }
    parts
}

/// The parts joined with `sep` between consecutive parts.
pub open spec fn spec_join(parts: Seq<Seq<char>>, sep: Seq<char>) -> Seq<char>
    decreases parts.len(),
{
    if parts.len() == 0 {
        Seq::empty()
    } else if parts.len() == 1 {
        parts[0]
    } else {
        parts[0] + sep + spec_join(parts.drop_first(), sep)
    }
}

/// Joining after appending one more part.
pub proof fn lemma_join_push(parts: Seq<Seq<char>>, sep: Seq<char>, x: Seq<char>)
    ensures
        spec_join(parts.push(x), sep) == if parts.len() == 0 {
            x
        } else {
            spec_join(parts, sep) + sep + x
        },
    decreases parts.len(),
{
    if parts.len() == 0 {
        assert(parts.push(x) =~= seq![x]);
        assert(spec_join(seq![x], sep) == x);
    } else {
        let p = parts.push(x);
        assert(p.drop_first() =~= parts.drop_first().push(x));
        lemma_join_push(parts.drop_first(), sep, x);
        if parts.len() == 1 {
            assert(spec_join(p, sep) == p[0] + sep + spec_join(p.drop_first(), sep));
            assert(p.drop_first() =~= seq![x]);
            assert(spec_join(p, sep) == parts[0] + sep + x);
        } else {
            assert(spec_join(p, sep) == p[0] + sep + spec_join(parts.drop_first().push(x), sep));
            assert(spec_join(parts.drop_first().push(x), sep) == spec_join(
                parts.drop_first(),
                sep,
            ) + sep + x);
            assert(spec_join(p, sep) =~= spec_join(parts, sep) + sep + x);
        }
    }
}

/// Joins the parts with `sep`, executable.
pub fn join_parts(parts: &Vec<Vec<char>>, sep: &Vec<char>) -> (r: Vec<char>)
    ensures
        r@ == spec_join(parts.deep_view(), sep@),
{
    let mut out: Vec<char> = Vec::new();
    let mut i: usize = 0;
    proof {
        assert(parts.deep_view().subrange(0, 0) =~= Seq::<Seq<char>>::empty());
    }
    while i < parts.len()
        invariant
            i <= parts@.len(),
            parts.deep_view().len() == parts@.len(),
            out@ == spec_join(parts.deep_view().subrange(0, i as int), sep@),
        decreases parts.len() - i,
    {
        let ghost done = parts.deep_view().subrange(0, i as int);
        if i > 0 {
            extend_chars(&mut out, sep);
        }
        extend_chars(&mut out, &parts[i]);
        proof {
            assert(parts.deep_view().subrange(0, i + 1) =~= done.push(parts.deep_view()[i as int]));
            lemma_join_push(done, sep@, parts.deep_view()[i as int]);
            assert(parts[i as int]@ == parts.deep_view()[i as int]);
            assert(out@ =~= spec_join(parts.deep_view().subrange(0, i + 1), sep@));
        }
        i += 1;
    }
    proof {
        assert(parts.deep_view().subrange(0, parts.deep_view().len() as int) =~= parts.deep_view());
    }
    out
}

/// Appends one line to a line vector; the views gain exactly that line.
pub fn push_line(out: &mut Vec<String>, s: String)
    ensures
        final(out).deep_view() == old(out).deep_view().push(s@),
{
    let ghost prev = out.deep_view();
    let ghost sv = s@;
    out.push(s);
    proof {
        assert(out.deep_view().len() == prev.len() + 1);
        assert(out.deep_view()[prev.len() as int] == sv);
        assert forall|j: int| 0 <= j < prev.len() implies #[trigger] out.deep_view()[j]
            == prev[j] by {
            assert(out.deep_view()[j] == out@[j]@);
            assert(prev[j] == out@[j]@);
        }
        assert(out.deep_view() =~= prev.push(sv));
    }
}

/// A text without the separator splits into itself alone.
pub proof fn lemma_split_no_sep(s: Seq<char>, c: char)
    requires
        forall|j: int| 0 <= j < s.len() ==> s[j] != c,
    ensures
        spec_split(s, c) == seq![s],
    decreases s.len(),
{
    if s.len() > 0 {
        assert(s[0] != c);
        lemma_split_no_sep(s.drop_first(), c);
        let rest = spec_split(s.drop_first(), c);
        assert(rest == seq![s.drop_first()]);
        assert(rest[0] == s.drop_first());
        assert(seq![s[0]] + rest[0] =~= s);
        assert(rest.drop_first() =~= Seq::<Seq<char>>::empty());
        assert(spec_split(s, c) =~= seq![s]);
    } else {
        assert(s =~= Seq::<char>::empty());
        assert(spec_split(s, c) =~= seq![s]);
    }
}

/// Splitting starts over after the first separator when the part before it
/// is separator-free.
pub proof fn lemma_split_sep_prefix(a: Seq<char>, b: Seq<char>, c: char)
    requires
        forall|j: int| 0 <= j < a.len() ==> a[j] != c,
    ensures
        spec_split(a + seq![c] + b, c) == seq![a] + spec_split(b, c),
    decreases a.len(),
{
    let s = a + seq![c] + b;
    if a.len() == 0 {
        assert(s =~= seq![c] + b);
        assert(s[0] == c);
        assert(s.drop_first() =~= b);
        assert(spec_split(s, c) =~= seq![a] + spec_split(b, c)) by {
            assert(spec_split(s, c) == seq![Seq::<char>::empty()] + spec_split(b, c));
            assert(a =~= Seq::<char>::empty());
        }
    } else {
        assert(s[0] == a[0]);
        assert(s[0] != c);
        assert(s.drop_first() =~= a.drop_first() + seq![c] + b);
        lemma_split_sep_prefix(a.drop_first(), b, c);
        let rest = spec_split(s.drop_first(), c);
        assert(rest == seq![a.drop_first()] + spec_split(b, c));
        crate::text::lemma_split_len(b, c);
        assert(rest[0] == a.drop_first());
        assert(seq![s[0]] + rest[0] =~= a);
        assert(rest.drop_first() =~= spec_split(b, c));
        assert(spec_split(s, c) =~= seq![a] + spec_split(b, c));
    }
}

/// Splitting a joined text on its separator recovers the lines, provided
/// no line holds the separator itself.
pub proof fn lemma_split_of_join(lines: Seq<Seq<char>>, c: char)
    requires
        lines.len() >= 1,
        forall|i: int, j: int|
            0 <= i < lines.len() && 0 <= j < lines[i].len() ==> #[trigger] lines[i][j] != c,
    ensures
        spec_split(spec_join(lines, seq![c]), c) == lines,
    decreases lines.len(),
{
    if lines.len() == 1 {
        assert(spec_join(lines, seq![c]) == lines[0]);
        lemma_split_no_sep(lines[0], c);
        assert(seq![lines[0]] =~= lines);
    } else {
        let tail = lines.drop_first();
        lemma_split_of_join(tail, c);
        assert(spec_join(lines, seq![c]) == lines[0] + seq![c] + spec_join(tail, seq![c]));
        lemma_split_sep_prefix(lines[0], spec_join(tail, seq![c]), c);
        assert(seq![lines[0]] + tail =~= lines);
    }
}

/// Trimming changes nothing when neither end is whitespace.
pub proof fn lemma_trim_id(s: Seq<char>)
    requires
        s.len() > 0,
        !is_space(s[0]),
        !is_space(s[s.len() - 1]),
    ensures
        spec_trim(s) == s,
{
    assert(trim_start(s) == s);
    assert(trim_end(s) == s);
}

/// Trimming drops a single leading space before a space-free-ended text.
pub proof fn lemma_trim_one_space(s: Seq<char>)
    requires
        s.len() > 0,
        !is_space(s[0]),
        !is_space(s[s.len() - 1]),
    ensures
        spec_trim(seq![' '] + s) == s,
{
    let t = seq![' '] + s;
    assert(t[0] == ' ');
    assert(t.drop_first() =~= s);
    assert(trim_start(t) == trim_start(s));
    assert(trim_start(s) == s);
    assert(trim_end(s) == s);
}

/// Trimming drops a single trailing space after a space-free-ended text.
pub proof fn lemma_trim_one_space_end(s: Seq<char>)
    requires
        s.len() > 0,
        !is_space(s[0]),
        !is_space(s[s.len() - 1]),
    ensures
        spec_trim(s + seq![' ']) == s,
{
    let t = s + seq![' '];
    assert(t[0] == s[0]);
    assert(trim_start(t) == t);
    assert(t[t.len() - 1] == ' ');
    assert(t.drop_last() =~= s);
    assert(trim_end(t) == trim_end(s));
    assert(trim_end(s) == s);
}

/// The first occurrence of `ch` in a text that opens with a `ch`-free
/// prefix is just after that prefix.
pub proof fn lemma_find_at(s: Seq<char>, ch: char, pos: int)
    requires
        0 <= pos < s.len(),
        s[pos] == ch,
        forall|j: int| 0 <= j < pos ==> s[j] != ch,
    ensures
        find_char_from(s, ch, 0) == pos,
{
    lemma_find_at_from(s, ch, pos, 0);
}

proof fn lemma_find_at_from(s: Seq<char>, ch: char, pos: int, i: int)
    requires
        0 <= i <= pos < s.len(),
        s[pos] == ch,
        forall|j: int| i <= j < pos ==> s[j] != ch,
    ensures
        find_char_from(s, ch, i) == pos,
    decreases pos - i,
{
    if i < pos {
        lemma_find_at_from(s, ch, pos, i + 1);
    }
}

/// Joins lines with `sep`, executable.
pub fn join_lines(parts: &Vec<String>, sep: &str) -> (r: String)
    ensures
        r@ == spec_join(parts.deep_view(), sep@),
{
    let mut out = String::new();
    let mut i: usize = 0;
    proof {
        assert(parts.deep_view().subrange(0, 0) =~= Seq::<Seq<char>>::empty());
    }
    while i < parts.len()
        invariant
            i <= parts@.len(),
            parts.deep_view().len() == parts@.len(),
            out@ == spec_join(parts.deep_view().subrange(0, i as int), sep@),
        decreases parts.len() - i,
    {
        let ghost done = parts.deep_view().subrange(0, i as int);
        if i > 0 {
            out.append(sep);
        }
        out.append(parts[i].as_str());
        proof {
            assert(parts.deep_view().subrange(0, i + 1) =~= done.push(parts.deep_view()[i as int]));
            lemma_join_push(done, sep@, parts.deep_view()[i as int]);
            assert(parts@[i as int]@ == parts.deep_view()[i as int]);
            assert(out@ =~= spec_join(parts.deep_view().subrange(0, i + 1), sep@));
        }
        i += 1;
    }
    proof {
        assert(parts.deep_view().subrange(0, parts.deep_view().len() as int) =~= parts.deep_view());
    }
    out
}

/// A string holding exactly the characters of `cs`.
pub fn string_of(cs: &Vec<char>) -> (r: String)
    ensures
        r@ == cs@,
{
    let mut r = String::new();
    let mut i: usize = 0;
    while i < cs.len()
        invariant
            i <= cs.len(),
            r@ == cs@.subrange(0, i as int),
        decreases cs.len() - i,
    {
        push_char(&mut r, cs[i]);
        proof {
            assert(r@ =~= cs@.subrange(0, i + 1));
        }
        i += 1;
    }
    proof {
        assert(r@ =~= cs@);
    }
    r
}

} // verus!
