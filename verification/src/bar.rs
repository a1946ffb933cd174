//! Fixed-width textual progress bars in selectable glyph styles.

use vstd::prelude::*;

use crate::text::{push_char, repeat_seq};
use crate::width::{lemma_dw_no_esc, spec_display_width};

verus! {

/// Bar look: glyph pair and whether the bar is bracketed.
#[derive(Clone, Copy, Debug, PartialEq, Eq, Structural)]
pub enum BarStyle {
    /// Filled `█`, empty `░`, bracketed.
    Classic,
    /// Filled `▰`, empty `▱`, bracketed.
    Round,
    /// Filled `#`, empty `.`, bracketed.
    Retro,
    /// Filled `●`, empty `○`, no brackets.
    Minimal,
}

/// The style every bar uses unless one is passed explicitly.
pub const CURRENT_BAR_STYLE: BarStyle = BarStyle::Round;

/// The filled glyph of a style.
pub open spec fn spec_fill_char(style: BarStyle) -> char {
    match style {
        BarStyle::Classic => '█',
        BarStyle::Round => '▰',
        BarStyle::Retro => '#',
        BarStyle::Minimal => '●',
    }
}

/// The empty glyph of a style.
pub open spec fn spec_empty_char(style: BarStyle) -> char {
    match style {
        BarStyle::Classic => '░',
        BarStyle::Round => '▱',
        BarStyle::Retro => '.',
        BarStyle::Minimal => '○',
    }
}

/// Whether a style wraps the glyphs in brackets.
pub open spec fn spec_bracketed(style: BarStyle) -> bool {
    !(style is Minimal)
}

impl BarStyle {
    /// The (filled, empty, bracketed) triple of this style.
    fn chars(self) -> (r: (char, char, bool))
        ensures
            r.0 == spec_fill_char(self),
            r.1 == spec_empty_char(self),
            r.2 == spec_bracketed(self),
    {
        match self {
            BarStyle::Classic => ('█', '░', true),
            BarStyle::Round => ('▰', '▱', true),
            BarStyle::Retro => ('#', '.', true),
            BarStyle::Minimal => ('●', '○', false),
        }
    }
}

/// The number of filled glyphs: `used / total * width` rounded to the
/// nearest integer (half away from zero), clamped to `width`.
pub open spec fn spec_filled(used: nat, total: nat, width: nat) -> nat
    recommends
        total > 0,
{
    let raw = (2 * used * width + total) / (2 * total);
    if raw > width {
        width
    } else {
        raw
    }
}

/// The glyph region of a bar: filled glyphs, then empty glyphs.
pub open spec fn spec_bar_glyphs(used: nat, total: nat, width: nat, style: BarStyle) -> Seq<char>
    recommends
        total > 0,
{
    let f = spec_filled(used, total, width);
    repeat_seq(spec_fill_char(style), f) + repeat_seq(spec_empty_char(style), (width - f) as nat)
}

/// The full bar string; empty when `total` or `width` is zero.
pub open spec fn spec_bar(used: nat, total: nat, width: nat, style: BarStyle) -> Seq<char> {
    if total == 0 || width == 0 {
        Seq::empty()
    } else if spec_bracketed(style) {
        seq!['['] + spec_bar_glyphs(used, total, width, style) + seq![']']
    } else {
        spec_bar_glyphs(used, total, width, style)
    }
}

/// Returns a bar string in the default style.
pub fn bar(used: u64, total: u64, width: u8) -> (r: String)
    ensures
        r@ == spec_bar(used as nat, total as nat, width as nat, CURRENT_BAR_STYLE),
{
    bar_with_style(used, total, width, CURRENT_BAR_STYLE)
}

/// Same as `bar` but with an explicit style.
pub fn bar_with_style(used: u64, total: u64, width: u8, style: BarStyle) -> (r: String)
    ensures
        r@ == spec_bar(used as nat, total as nat, width as nat, style),
{
    if total == 0 || width == 0 {
        return String::new();
    }
    proof {
        assert(2 * (used as int) * (width as int) + (total as int) < 0x1_0000_0000_0000_0000_0000u128)
            by (nonlinear_arith)
            requires
                used <= 0xffff_ffff_ffff_ffffu64,
                width <= 0xffu8,
                total <= 0xffff_ffff_ffff_ffffu64,
        ;
    }
    let num: u128 = 2 * (used as u128) * (width as u128) + (total as u128);
    let den: u128 = 2 * (total as u128);
    let raw: u128 = num / den;
    assert(raw == (2 * (used as int) * (width as int) + total) / (2 * (total as int)));
    let filled: u64 = if raw > width as u128 {
        width as u64
    } else {
        raw as u64
    };
    assert(filled == spec_filled(used as nat, total as nat, width as nat));
    let (fc, ec, bracketed) = style.chars();
    let mut s = String::new();
    if bracketed {
        push_char(&mut s, '[');
    }
    let ghost open_part = if spec_bracketed(style) {
        seq!['[']
    } else {
        Seq::<char>::empty()
    };
    assert(s@ =~= open_part);
    let mut i: u64 = 0;
    while i < filled
        invariant
            i <= filled,
            s@ == open_part + repeat_seq(fc, i as nat),
        decreases filled - i,
    {
        push_char(&mut s, fc);
        proof {
            assert(s@ =~= open_part + repeat_seq(fc, (i + 1) as nat));
        }
        i += 1;
    }
    let empty_n: u64 = width as u64 - filled;
    let mut j: u64 = 0;
    while j < empty_n
        invariant
            j <= empty_n,
            s@ == open_part + repeat_seq(fc, filled as nat) + repeat_seq(ec, j as nat),
        decreases empty_n - j,
    {
        push_char(&mut s, ec);
        proof {
            assert(s@ =~= open_part + repeat_seq(fc, filled as nat) + repeat_seq(
                ec,
                (j + 1) as nat,
            ));
        }
        j += 1;
    }
    if bracketed {
        push_char(&mut s, ']');
    }
    proof {
        assert(s@ =~= spec_bar(used as nat, total as nat, width as nat, style));
    }
    s
}

/// The bar shape law: for `used <= total`, a bar is exactly `width` glyphs
/// wide (plus two bracket columns for bracketed styles) as measured by the
/// ANSI-aware width; an empty usage gives all-empty glyphs, a full usage
/// all-filled ones.
pub proof fn lemma_bar_invariants(used: nat, total: nat, width: nat, style: BarStyle)
    requires
        used <= total,
        total > 0,
        width > 0,
    ensures
        spec_filled(used, total, width) <= width,
        spec_bar(used, total, width, style).len() == width + (if spec_bracketed(style) {
            2int
        } else {
            0int
        }),
        spec_display_width(spec_bar(used, total, width, style)) == width + (if spec_bracketed(
            style,
        ) {
            2int
        } else {
            0int
        }),
        used == 0 ==> spec_bar_glyphs(used, total, width, style) == repeat_seq(
            spec_empty_char(style),
            width,
        ),
        used == total ==> spec_bar_glyphs(used, total, width, style) == repeat_seq(
            spec_fill_char(style),
            width,
        ),
{
    let f = spec_filled(used, total, width);
    assert(f <= width);
    let glyphs = spec_bar_glyphs(used, total, width, style);
    assert(glyphs.len() == width);
    let b = spec_bar(used, total, width, style);
    assert(b.len() == width + (if spec_bracketed(style) {
        2int
    } else {
        0int
    }));
    assert(forall|i: int| 0 <= i < b.len() ==> b[i] != '\u{1b}');
    lemma_dw_no_esc(b);
    if used == 0 {
        assert(2 * used * width + total == total) by (nonlinear_arith)
            requires
                used == 0,
        ;
        assert((total as int) / (2 * total as int) == 0) by {
            vstd::arithmetic::div_mod::lemma_basic_div(total as int, 2 * total as int);
        }
        assert(f == 0);
        assert(glyphs =~= repeat_seq(spec_empty_char(style), width));
    }
    if used == total {
        assert(2 * total * width + total == width * (2 * total) + total) by (nonlinear_arith);
        vstd::arithmetic::div_mod::lemma_fundamental_div_mod_converse(
            2 * total as int * width as int + total as int,
            2 * total as int,
            width as int,
            total as int,
        );
        assert(f == width);
        assert(glyphs =~= repeat_seq(spec_fill_char(style), width));
    }
}

/// A bar over zero capacity or zero width is the empty string.
pub proof fn lemma_bar_degenerate(used: nat, total: nat, width: nat, style: BarStyle)
    ensures
        total == 0 ==> spec_bar(used, total, width, style) == Seq::<char>::empty(),
        width == 0 ==> spec_bar(used, total, width, style) == Seq::<char>::empty(),
{
}

} // verus!
