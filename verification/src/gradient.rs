//! RGB text gradients via ANSI truecolor: each character of a string is
//! colored by linear interpolation between a start and an end color.

use vstd::prelude::*;

use crate::numfmt::{dec_seq, u64_to_dec};
use crate::text::{chars_of, push_char};

verus! {

/// The ANSI truecolor foreground sequence for the color `(r, g, b)`.
pub open spec fn spec_ansi_fg(r: nat, g: nat, b: nat) -> Seq<char> {
    "\u{1b}[38;2;"@ + dec_seq(r) + ";"@ + dec_seq(g) + ";"@ + dec_seq(b) + "m"@
}

/// The ANSI reset sequence.
pub open spec fn spec_ansi_reset() -> Seq<char> {
    "\u{1b}[0m"@
}

/// Builds the ANSI truecolor foreground sequence for `(r, g, b)`.
pub fn ansi_fg(r: u8, g: u8, b: u8) -> (s: String)
    ensures
        s@ == spec_ansi_fg(r as nat, g as nat, b as nat),
{
    let mut s = String::from_str("\u{1b}[38;2;");
    s.append(u64_to_dec(r as u64).as_str());
    s.append(";");
    s.append(u64_to_dec(g as u64).as_str());
    s.append(";");
    s.append(u64_to_dec(b as u64).as_str());
    s.append("m");
    proof {
        assert(s@ =~= spec_ansi_fg(r as nat, g as nat, b as nat));
    }
    s
}

/// The interpolated channel value for the `i`-th of `n` characters:
/// `(1 - t) * a + t * b` with `t = i / (n - 1)`, rounded to the nearest
/// integer (half away from zero); `t = 1` when `n <= 1`.
pub open spec fn spec_grad_channel(a: nat, b: nat, i: nat, n: nat) -> nat
    recommends
        i < n,
{
    if n <= 1 {
        b
    } else {
        ((2 * (a * ((n - 1 - i) as int) + b * i) + (n - 1)) / (2 * ((n - 1) as int))) as nat
    }
}

/// The interpolated channel value, executable.
fn grad_channel(a: u8, b: u8, i: usize, n: usize) -> (v: u8)
    requires
        i < n,
    ensures
        v as nat == spec_grad_channel(a as nat, b as nat, i as nat, n as nat),
{
    if n <= 1 {
        return b;
    }
    let m: u128 = (n - 1) as u128;
    proof {
        assert((a as int) * ((m - i) as int) <= 255 * (m as int) && (b as int) * (i as int) <= 255
            * (m as int) && 255 * (m as int) < 0x1_0000_0000_0000_0000_0000u128)
            by (nonlinear_arith)
            requires
                a <= 255u8,
                b <= 255u8,
                i <= m,
                m < 0x1_0000_0000_0000_0000u128,
        ;
    }
    let w: u128 = (a as u128) * (m - (i as u128)) + (b as u128) * (i as u128);
    let num: u128 = 2 * w + m;
    let den: u128 = 2 * m;
    let q: u128 = num / den;
    proof {
        assert((num as int) < (den as int) * 256) by (nonlinear_arith)
            requires
                num == 2 * ((a as int) * ((n - 1 - i) as int) + (b as int) * (i as int)) + (n - 1),
                den == 2 * ((n - 1) as int),
                a <= 255u8,
                b <= 255u8,
                i < n,
                n >= 2,
        ;
        vstd::arithmetic::div_mod::lemma_multiply_divide_lt(num as int, den as int, 256);
        assert(q < 256);
    }
    q as u8
}

/// The colored body of a gradient from position `i` on: each character is
/// preceded by its truecolor sequence.
pub open spec fn spec_grad_body(
    s: Seq<char>,
    i: int,
    start: (nat, nat, nat),
    end: (nat, nat, nat),
) -> Seq<char>
    decreases s.len() - i,
{
    if i < 0 || i >= s.len() {
        Seq::empty()
    } else {
        spec_ansi_fg(
            spec_grad_channel(start.0, end.0, i as nat, s.len()),
            spec_grad_channel(start.1, end.1, i as nat, s.len()),
            spec_grad_channel(start.2, end.2, i as nat, s.len()),
        ) + seq![s[i]] + spec_grad_body(s, i + 1, start, end)
    }
}

/// What `create_gradient_text` returns: empty for empty input, else the
/// colored body followed by one reset sequence.
pub open spec fn spec_gradient(s: Seq<char>, start: (nat, nat, nat), end: (nat, nat, nat)) -> Seq<
    char,
> {
    if s.len() == 0 {
        Seq::empty()
    } else {
        spec_grad_body(s, 0, start, end) + spec_ansi_reset()
    }
}

/// The view of an `(r, g, b)` byte triple.
pub open spec fn rgb_view(c: (u8, u8, u8)) -> (nat, nat, nat) {
    (c.0 as nat, c.1 as nat, c.2 as nat)
}

/// Builds a string in which each character of `text` is colored by linear
/// interpolation from `start_rgb` to `end_rgb`, with a final reset.
pub fn create_gradient_text(text: &str, start_rgb: (u8, u8, u8), end_rgb: (u8, u8, u8)) -> (r:
    String)
    ensures
        r@ == spec_gradient(text@, rgb_view(start_rgb), rgb_view(end_rgb)),
{
    let cs = chars_of(text);
    let n = cs.len();
    if n == 0 {
        return String::new();
    }
    let ghost st = rgb_view(start_rgb);
    let ghost en = rgb_view(end_rgb);
    let mut out = String::new();
    let mut i: usize = 0;
    while i < n
        invariant
            cs@ == text@,
            n == cs@.len(),
            i <= n,
            st == rgb_view(start_rgb),
            en == rgb_view(end_rgb),
            out@ + spec_grad_body(text@, i as int, st, en) == spec_grad_body(text@, 0, st, en),
        decreases n - i,
    {
        let cr = grad_channel(start_rgb.0, end_rgb.0, i, n);
        let cg = grad_channel(start_rgb.1, end_rgb.1, i, n);
        let cb = grad_channel(start_rgb.2, end_rgb.2, i, n);
        let ghost before = out@;
        out.append(ansi_fg(cr, cg, cb).as_str());
        push_char(&mut out, cs[i]);
        proof {
            assert(out@ + spec_grad_body(text@, i + 1, st, en) =~= before + spec_grad_body(
                text@,
                i as int,
                st,
                en,
            ));
        }
        i += 1;
    }
    out.append("\u{1b}[0m");
    proof {
        assert(spec_grad_body(text@, n as int, st, en) == Seq::<char>::empty());
        assert(out@ =~= spec_gradient(text@, st, en));
    }
    out
}

/// A truecolor introducer takes no visible columns and closes its escape.
pub proof fn lemma_ansi_fg_width(r: nat, g: nat, b: nat)
    ensures
        crate::width::spec_display_width(spec_ansi_fg(r, g, b)) == 0,
        crate::width::esc_closed(spec_ansi_fg(r, g, b)),
        spec_ansi_fg(r, g, b).len() >= 3,
        spec_ansi_fg(r, g, b)[spec_ansi_fg(r, g, b).len() - 1] == 'm',
{
    reveal_strlit("\u{1b}[38;2;");
    reveal_strlit(";");
    reveal_strlit("m");
    crate::numfmt::lemma_dec_seq_digit_range(r);
    crate::numfmt::lemma_dec_seq_digit_range(g);
    crate::numfmt::lemma_dec_seq_digit_range(b);
    let s = spec_ansi_fg(r, g, b);
    let head = "\u{1b}[38;2;"@;
    let dr = dec_seq(r);
    let dg = dec_seq(g);
    let db = dec_seq(b);
    assert(head.len() == 7);
    assert(s.len() == 10 + dr.len() + dg.len() + db.len());
    assert(s[0] == '\u{1b}');
    assert(s[1] == '[');
    assert(s[s.len() - 1] == 'm');
    assert forall|j: int| 2 <= j < s.len() - 1 implies s[j] != 'm' by {
        if j < 7 {
            assert(s[j] == head[j]);
        } else if j < 7 + dr.len() {
            assert(s[j] == dr[j - 7]);
            assert('0' <= s[j] <= '9');
        } else if j == 7 + dr.len() {
            assert(s[j] == ';');
        } else if j < 8 + dr.len() + dg.len() {
            assert(s[j] == dg[j - 8 - dr.len()]);
            assert('0' <= s[j] <= '9');
        } else if j == 8 + dr.len() + dg.len() {
            assert(s[j] == ';');
        } else {
            assert(s[j] == db[j - 9 - dr.len() - dg.len()]);
            assert('0' <= s[j] <= '9');
        }
    }
    crate::width::lemma_dw_csi(s);
}

/// The reset sequence takes no visible columns and closes its escape.
pub proof fn lemma_ansi_reset_width()
    ensures
        crate::width::spec_display_width(spec_ansi_reset()) == 0,
        crate::width::esc_closed(spec_ansi_reset()),
        spec_ansi_reset().len() == 4,
        spec_ansi_reset()[3] == 'm',
{
    reveal_strlit("\u{1b}[0m");
    crate::width::lemma_dw_csi(spec_ansi_reset());
}

proof fn lemma_grad_body_width(s: Seq<char>, i: int, start: (nat, nat, nat), end: (nat, nat, nat))
    requires
        0 <= i <= s.len(),
        forall|j: int| 0 <= j < s.len() ==> s[j] != '\u{1b}',
    ensures
        crate::width::spec_display_width(spec_grad_body(s, i, start, end)) == s.len() - i,
        crate::width::esc_closed(spec_grad_body(s, i, start, end)),
        spec_grad_body(s, i, start, end).len() == 0 || spec_grad_body(s, i, start, end)[
            spec_grad_body(s, i, start, end).len() - 1] != '\u{1b}',
    decreases s.len() - i,
{
    if i >= s.len() {
        assert(crate::width::dw_state(Seq::<char>::empty(), 0, false) == 0);
    } else {
        lemma_grad_body_width(s, i + 1, start, end);
        let fg = spec_ansi_fg(
            spec_grad_channel(start.0, end.0, i as nat, s.len()),
            spec_grad_channel(start.1, end.1, i as nat, s.len()),
            spec_grad_channel(start.2, end.2, i as nat, s.len()),
        );
        let rest = spec_grad_body(s, i + 1, start, end);
        let body = spec_grad_body(s, i, start, end);
        lemma_ansi_fg_width(
            spec_grad_channel(start.0, end.0, i as nat, s.len()),
            spec_grad_channel(start.1, end.1, i as nat, s.len()),
            spec_grad_channel(start.2, end.2, i as nat, s.len()),
        );
        let tail = seq![s[i]] + rest;
        assert(body =~= fg + tail);
        crate::width::lemma_dw_append(fg, tail);
        assert(crate::width::esc_closed(seq![s[i]])) by {
            assert(s[i] != '\u{1b}');
            assert(crate::width::end_state(seq![s[i]], 1, false) == false);
        }
        crate::width::lemma_dw_append(seq![s[i]], rest);
        assert(crate::width::spec_display_width(seq![s[i]]) == 1) by {
            crate::width::lemma_dw_no_esc(seq![s[i]]);
        }
        assert(crate::width::spec_display_width(tail) == 1 + (s.len() - i - 1));
        assert(crate::width::spec_display_width(body) == s.len() - i);
        if rest.len() == 0 {
            assert(body[body.len() - 1] == s[i]);
        } else {
            assert(body[body.len() - 1] == rest[rest.len() - 1]);
        }
    }
}

/// The width round-trip law: coloring a text as a gradient changes its
/// visible width by nothing — the result is exactly as wide as the text has
/// characters (for text without its own escape characters).
pub proof fn lemma_gradient_width(s: Seq<char>, start: (nat, nat, nat), end: (nat, nat, nat))
    requires
        forall|j: int| 0 <= j < s.len() ==> s[j] != '\u{1b}',
    ensures
        crate::width::spec_display_width(spec_gradient(s, start, end)) == s.len(),
{
    if s.len() == 0 {
        assert(crate::width::dw_state(Seq::<char>::empty(), 0, false) == 0);
    } else {
        lemma_grad_body_width(s, 0, start, end);
        lemma_ansi_reset_width();
        let body = spec_grad_body(s, 0, start, end);
        crate::width::lemma_dw_append(body, spec_ansi_reset());
        assert(body.len() > 0) by {
            assert(body == spec_ansi_fg(
                spec_grad_channel(start.0, end.0, 0, s.len()),
                spec_grad_channel(start.1, end.1, 0, s.len()),
                spec_grad_channel(start.2, end.2, 0, s.len()),
            ) + seq![s[0]] + spec_grad_body(s, 1, start, end));
        }
    }
}

} // verus!
