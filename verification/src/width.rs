//! ANSI-aware width computation: the visible terminal column count of a
//! string, where `ESC [ ... m` color sequences take no columns and every
//! other character takes one.

use vstd::prelude::*;

use crate::text::chars_of;

verus! {

/// Columns contributed by `s` from position `i` on, starting inside an
/// escape sequence when `in_esc` is set.
pub open spec fn dw_state(s: Seq<char>, i: int, in_esc: bool) -> nat
    decreases s.len() - i,
{
    if i < 0 || i >= s.len() {
        0
    } else if in_esc {
        if s[i] == 'm' {
            dw_state(s, i + 1, false)
        } else {
            dw_state(s, i + 1, true)
        }
    } else if s[i] == '\u{1b}' && i + 1 < s.len() && s[i + 1] == '[' {
        dw_state(s, i + 2, true)
    } else {
        1 + dw_state(s, i + 1, false)
    }
}

/// The visible width of `s`: one column per character outside `ESC [ .. m`
/// sequences.
pub open spec fn spec_display_width(s: Seq<char>) -> nat {
    dw_state(s, 0, false)
}

/// Visible character width of a string, ignoring ANSI escape sequences.
pub fn display_width(s: &str) -> (w: usize)
    ensures
        w == spec_display_width(s@),
{
    let cs = chars_of(s);
    let n = cs.len();
    let mut w: usize = 0;
    let mut i: usize = 0;
    let mut in_esc = false;
    while i < n
        invariant
            cs@ == s@,
            n == cs@.len(),
            i <= n,
            w <= i,
            spec_display_width(s@) == w + dw_state(s@, i as int, in_esc),
        decreases n - i,
    {
        if in_esc {
            if cs[i] == 'm' {
                in_esc = false;
            }
            i += 1;
        } else if cs[i] == '\u{1b}' && i + 1 < n && cs[i + 1] == '[' {
            in_esc = true;
            i += 2;
        } else {
            w += 1;
            i += 1;
        }
    }
    w
}

/// A sequence without any escape character is as wide as it is long.
pub proof fn lemma_dw_no_esc(s: Seq<char>)
    requires
        forall|i: int| 0 <= i < s.len() ==> s[i] != '\u{1b}',
    ensures
        spec_display_width(s) == s.len(),
{
    lemma_dw_no_esc_from(s, 0);
}

proof fn lemma_dw_no_esc_from(s: Seq<char>, i: int)
    requires
        0 <= i <= s.len(),
        forall|j: int| 0 <= j < s.len() ==> s[j] != '\u{1b}',
    ensures
        dw_state(s, i, false) == s.len() - i,
    decreases s.len() - i,
{
    if i < s.len() {
        lemma_dw_no_esc_from(s, i + 1);
    }
}

/// Whether a scan of `s` starting outside an escape sequence also ends
/// outside one; concatenation of widths holds across such strings.
pub open spec fn esc_closed(s: Seq<char>) -> bool {
    end_state(s, 0, false) == false
}

/// The scanner state after processing `s` from position `i` in state `in_esc`.
pub open spec fn end_state(s: Seq<char>, i: int, in_esc: bool) -> bool
    decreases s.len() - i,
{
    if i < 0 || i >= s.len() {
        in_esc
    } else if in_esc {
        if s[i] == 'm' {
            end_state(s, i + 1, false)
        } else {
            end_state(s, i + 1, true)
        }
    } else if s[i] == '\u{1b}' && i + 1 < s.len() && s[i + 1] == '[' {
        end_state(s, i + 2, true)
    } else {
        end_state(s, i + 1, false)
    }
}

/// Helper: scanning a suffix that equals `b` shifted by `i`.
proof fn lemma_dw_shift(ab: Seq<char>, b: Seq<char>, i: int, in_esc: bool)
    requires
        0 <= i <= ab.len(),
        ab.subrange(i, ab.len() as int) == b,
    ensures
        dw_state(ab, i, in_esc) == dw_state(b, 0, in_esc),
        end_state(ab, i, in_esc) == end_state(b, 0, in_esc),
    decreases ab.len() - i,
{
    lemma_dw_shift_gen(ab, b, i, 0, in_esc);
}

proof fn lemma_dw_shift_gen(ab: Seq<char>, b: Seq<char>, i: int, j: int, in_esc: bool)
    requires
        0 <= j,
        i - j >= 0,
        i <= ab.len(),
        ab.len() - i == b.len() - j,
        forall|k: int| i <= k < ab.len() ==> ab[k] == b[k - i + j],
    ensures
        dw_state(ab, i, in_esc) == dw_state(b, j, in_esc),
        end_state(ab, i, in_esc) == end_state(b, j, in_esc),
    decreases ab.len() - i,
{
    if i < ab.len() {
        if in_esc {
            lemma_dw_shift_gen(ab, b, i + 1, j + 1, ab[i] != 'm');
        } else if ab[i] == '\u{1b}' && i + 1 < ab.len() && ab[i + 1] == '[' {
            lemma_dw_shift_gen(ab, b, i + 2, j + 2, true);
        } else {
            lemma_dw_shift_gen(ab, b, i + 1, j + 1, false);
        }
    }
}

/// A whole `ESC [ ... m` control sequence takes no columns and leaves the
/// scanner outside an escape.
pub proof fn lemma_dw_csi(s: Seq<char>)
    requires
        s.len() >= 3,
        s[0] == '\u{1b}',
        s[1] == '[',
        s[s.len() - 1] == 'm',
        forall|j: int| 2 <= j < s.len() - 1 ==> s[j] != 'm',
    ensures
        spec_display_width(s) == 0,
        esc_closed(s),
{
    lemma_dw_csi_skip(s, 2);
}

proof fn lemma_dw_csi_skip(s: Seq<char>, i: int)
    requires
        2 <= i <= s.len() - 1,
        s[s.len() - 1] == 'm',
        forall|j: int| i <= j < s.len() - 1 ==> s[j] != 'm',
    ensures
        dw_state(s, i, true) == 0,
        end_state(s, i, true) == false,
    decreases s.len() - i,
{
    if i < s.len() - 1 {
        lemma_dw_csi_skip(s, i + 1);
    } else {
        assert(s[i] == 'm');
        assert(dw_state(s, i + 1, false) == 0);
        assert(end_state(s, i + 1, false) == false);
    }
}

/// Width distributes over concatenation when `a` closes its escapes and does
/// not end in a bare escape character.
pub proof fn lemma_dw_append(a: Seq<char>, b: Seq<char>)
    requires
        esc_closed(a),
        a.len() > 0 ==> a[a.len() - 1] != '\u{1b}',
    ensures
        spec_display_width(a + b) == spec_display_width(a) + spec_display_width(b),
        end_state(a + b, 0, false) == end_state(b, 0, false),
{
    lemma_dw_append_strong(a, b, 0, false);
}

proof fn lemma_dw_append_strong(a: Seq<char>, b: Seq<char>, i: int, in_esc: bool)
    requires
        0 <= i <= a.len(),
        a.len() > 0 ==> a[a.len() - 1] != '\u{1b}',
    ensures
        dw_state(a + b, i, in_esc) == dw_state(a, i, in_esc) + dw_state(
            b,
            0,
            end_state(a, i, in_esc),
        ),
        end_state(a + b, i, in_esc) == end_state(b, 0, end_state(a, i, in_esc)),
    decreases a.len() - i,
{
    let ab = a + b;
    if i >= a.len() {
        assert(ab.subrange(i, ab.len() as int) =~= b);
        lemma_dw_shift(ab, b, i, in_esc);
    } else {
        assert(ab[i] == a[i]);
        if in_esc {
            lemma_dw_append_strong(a, b, i + 1, a[i] != 'm');
        } else if a[i] == '\u{1b}' && i + 1 < a.len() && a[i + 1] == '[' {
            assert(ab[i + 1] == a[i + 1]);
            lemma_dw_append_strong(a, b, i + 2, true);
        } else {
            if a[i] == '\u{1b}' {
                // The last character of `a` is not a bare escape, so there is
                // a following character in `a` and it is not `[`.
                assert(i + 1 < a.len());
                assert(ab[i + 1] == a[i + 1]);
            }
            lemma_dw_append_strong(a, b, i + 1, false);
        }
    }
}

} // verus!
