//! Rendering: two-column composition of logo and info lines with
//! ANSI-aware padding, and flat formatting of info rows with named colors.

use vstd::prelude::*;

use crate::item::{item_view, InfoItem};
use crate::numfmt::dec_seq;
use crate::text::{eq_str, lower_seq, repeat_char, repeat_seq, to_lower_str};
use crate::width::{
    display_width, esc_closed, lemma_dw_append, lemma_dw_no_esc, spec_display_width,
};

verus! {

/// The separator between a label and its value in flat mode.
pub const SEPARATOR: &'static str = ": ";

/// One composed output line: the logo line (blank when exhausted), padded
/// to the logo column width, the margin, then the info line.
pub open spec fn spec_composed_line(
    logo: Seq<Seq<char>>,
    info: Seq<Seq<char>>,
    logo_width: nat,
    margin: nat,
    i: int,
) -> Seq<char> {
    let lg = if 0 <= i < logo.len() {
        logo[i]
    } else {
        Seq::<char>::empty()
    };
    let inf = if 0 <= i < info.len() {
        info[i]
    } else {
        Seq::<char>::empty()
    };
    let w = spec_display_width(lg);
    let pad = if w > logo_width {
        0nat
    } else {
        (logo_width - w) as nat
    };
    lg + repeat_seq(' ', pad) + repeat_seq(' ', margin) + inf
}

/// The number of composed lines: the longer of the two columns.
pub open spec fn spec_composed_len(logo: Seq<Seq<char>>, info: Seq<Seq<char>>) -> nat {
    if logo.len() >= info.len() {
        logo.len()
    } else {
        info.len()
    }
}

/// Composes logo and info lines side by side: every row is the logo line
/// padded to `logo_width` visible columns, `margin` spaces, then the info
/// line.
pub fn render_side_by_side(
    logo_lines: &Vec<String>,
    info_lines: &Vec<String>,
    logo_width: usize,
    margin: usize,
) -> (r: Vec<String>)
    ensures
        r.deep_view().len() == spec_composed_len(logo_lines.deep_view(), info_lines.deep_view()),
        forall|i: int|
            0 <= i < r.deep_view().len() ==> #[trigger] r.deep_view()[i] == spec_composed_line(
                logo_lines.deep_view(),
                info_lines.deep_view(),
                logo_width as nat,
                margin as nat,
                i,
            ),
{
    let ghost lgv = logo_lines.deep_view();
    let ghost inv = info_lines.deep_view();
    let num_rows = if logo_lines.len() >= info_lines.len() {
        logo_lines.len()
    } else {
        info_lines.len()
    };
    let gap = repeat_char(' ', margin);
    let mut out: Vec<String> = Vec::new();
    let mut i: usize = 0;
    while i < num_rows
        invariant
            i <= num_rows,
            lgv == logo_lines.deep_view(),
            inv == info_lines.deep_view(),
            num_rows == spec_composed_len(lgv, inv),
            lgv.len() == logo_lines@.len(),
            inv.len() == info_lines@.len(),
            gap@ == repeat_seq(' ', margin as nat),
            out.deep_view().len() == i,
            forall|j: int|
                0 <= j < i ==> #[trigger] out.deep_view()[j] == spec_composed_line(
                    lgv,
                    inv,
                    logo_width as nat,
                    margin as nat,
                    j,
                ),
        decreases num_rows - i,
    {
        let mut line: String = if i < logo_lines.len() {
            proof {
                assert(lgv[i as int] == logo_lines@[i as int]@);
            }
            logo_lines[i].clone()
        } else {
            String::new()
        };
        let vis = display_width(line.as_str());
        let pad: usize = if vis > logo_width {
            0
        } else {
            logo_width - vis
        };
        line.append(repeat_char(' ', pad).as_str());
        line.append(gap.as_str());
        if i < info_lines.len() {
            proof {
                assert(inv[i as int] == info_lines@[i as int]@);
            }
            line.append(info_lines[i].as_str());
        }
        proof {
            assert(line@ =~= spec_composed_line(lgv, inv, logo_width as nat, margin as nat,
                i as int));
        }
        let ghost prev = out.deep_view();
        out.push(line);
        proof {
            assert(out.deep_view().len() == i + 1);
            assert(out.deep_view()[i as int] == line@);
            assert forall|j: int| 0 <= j < i implies #[trigger] out.deep_view()[j] == prev[j] by {
                assert(out.deep_view()[j] == out@[j]@);
                assert(prev[j] == out@[j]@);
            }
        }
        i += 1;
    }
    out
}

/// The widest visible width among the lines.
pub open spec fn spec_max_width(lines: Seq<Seq<char>>, i: int) -> nat
    decreases lines.len() - i,
{
    if i < 0 || i >= lines.len() {
        0
    } else {
        let rest = spec_max_width(lines, i + 1);
        let w = spec_display_width(lines[i]);
        if w >= rest {
            w
        } else {
            rest
        }
    }
}

/// The widest visible width among the lines, executable.
pub fn max_width(lines: &Vec<String>) -> (r: usize)
    ensures
        r == spec_max_width(lines.deep_view(), 0),
{
    let n = lines.len();
    let mut best: usize = 0;
    let mut i: usize = n;
    proof {
        assert(spec_max_width(lines.deep_view(), n as int) == 0);
    }
    while i > 0
        invariant
            i <= n,
            n == lines@.len(),
            lines.deep_view().len() == n,
            best == spec_max_width(lines.deep_view(), i as int),
        decreases i,
    {
        i -= 1;
        proof {
            assert(lines.deep_view()[i as int] == lines@[i as int]@);
        }
        let w = display_width(lines[i].as_str());
        if w > best {
            best = w;
        }
    }
    best
}

/// Composes the two columns using the logo's own widest line as the column
/// width.
pub fn compose_lines(logo_lines: &Vec<String>, info_lines: &Vec<String>, margin: usize) -> (r: Vec<
    String,
>)
    ensures
        r.deep_view().len() == spec_composed_len(logo_lines.deep_view(), info_lines.deep_view()),
        forall|i: int|
            0 <= i < r.deep_view().len() ==> #[trigger] r.deep_view()[i] == spec_composed_line(
                logo_lines.deep_view(),
                info_lines.deep_view(),
                spec_max_width(logo_lines.deep_view(), 0),
                margin as nat,
                i,
            ),
{
    let w = max_width(logo_lines);
    render_side_by_side(logo_lines, info_lines, w, margin)
}

/// Every line of the widest-line maximum is at least as wide as line `i`.
proof fn lemma_max_width_ge(lines: Seq<Seq<char>>, i: int, j: int)
    requires
        0 <= i <= j < lines.len(),
    ensures
        spec_max_width(lines, i) >= spec_display_width(lines[j]),
    decreases j - i,
{
    if i < j {
        lemma_max_width_ge(lines, i + 1, j);
    }
}

/// The composer alignment law: when every logo line closes its escape
/// sequences and does not end in a bare escape character, every composed
/// line is the concatenation of a prefix of visible width
/// `logo_width + margin` and the info line, and the number of lines is the
/// longer column's length.
pub proof fn lemma_composer_alignment(
    logo: Seq<Seq<char>>,
    info: Seq<Seq<char>>,
    margin: nat,
    i: int,
)
    requires
        forall|j: int| 0 <= j < logo.len() ==> esc_closed(#[trigger] logo[j]),
        forall|j: int|
            0 <= j < logo.len() ==> (#[trigger] logo[j]).len() == 0 || logo[j][logo[j].len() - 1]
                != '\u{1b}',
        0 <= i < spec_composed_len(logo, info),
    ensures
        ({
            let w = spec_max_width(logo, 0);
            let lg = if i < logo.len() {
                logo[i]
            } else {
                Seq::<char>::empty()
            };
            let inf = if i < info.len() {
                info[i]
            } else {
                Seq::<char>::empty()
            };
            let prefix = lg + repeat_seq(' ', (w - spec_display_width(lg)) as nat) + repeat_seq(
                ' ',
                margin,
            );
            &&& spec_composed_line(logo, info, w, margin, i) == prefix + inf
            &&& spec_display_width(prefix) == w + margin
        }),
{
    let w = spec_max_width(logo, 0);
    let lg: Seq<char> = if i < logo.len() {
        logo[i]
    } else {
        Seq::<char>::empty()
    };
    let inf: Seq<char> = if i < info.len() {
        info[i]
    } else {
        Seq::<char>::empty()
    };
    if i < logo.len() {
        lemma_max_width_ge(logo, 0, i);
    }
    let dwl = spec_display_width(lg);
    assert(dwl <= w);
    let pad = repeat_seq(' ', (w - dwl) as nat);
    let gap = repeat_seq(' ', margin);
    let prefix = lg + pad + gap;
    assert(spec_composed_line(logo, info, w, margin, i) =~= prefix + inf);
    assert(forall|k: int| 0 <= k < pad.len() ==> pad[k] != '\u{1b}');
    assert(forall|k: int| 0 <= k < gap.len() ==> gap[k] != '\u{1b}');
    lemma_dw_no_esc(pad);
    lemma_dw_no_esc(gap);
    if i < logo.len() {
        lemma_dw_append(lg, pad + gap);
        lemma_dw_no_esc(pad + gap);
        assert(spec_display_width(prefix) == dwl + spec_display_width(pad + gap)) by {
            assert(lg + (pad + gap) =~= prefix);
        }
        assert(spec_display_width(pad + gap) == (w - dwl) + margin) by {
            assert(forall|k: int| 0 <= k < (pad + gap).len() ==> (pad + gap)[k] != '\u{1b}');
        }
    } else {
        assert(lg.len() == 0);
        assert(prefix =~= pad + gap);
        assert(spec_display_width(lg) == 0);
        lemma_dw_no_esc(prefix);
        assert(forall|k: int| 0 <= k < prefix.len() ==> prefix[k] != '\u{1b}');
    }
}

/// The sixteen-color SGR code of a named color, when the name is known.
pub open spec fn spec_color_code(name_lower: Seq<char>) -> Option<nat> {
    if name_lower == "cyan"@ {
        Some(36nat)
    } else if name_lower == "yellow"@ {
        Some(33nat)
    } else if name_lower == "white"@ {
        Some(37nat)
    } else if name_lower == "blue"@ {
        Some(34nat)
    } else if name_lower == "bright_blue"@ {
        Some(94nat)
    } else if name_lower == "green"@ {
        Some(32nat)
    } else if name_lower == "red"@ {
        Some(31nat)
    } else if name_lower == "magenta"@ {
        Some(35nat)
    } else {
        None
    }
}

/// Text wrapped in a named color (optionally bold); unchanged for an
/// unknown color name.
pub open spec fn spec_apply_color(s: Seq<char>, name: Seq<char>, bold: bool) -> Seq<char> {
    match spec_color_code(lower_seq(name)) {
        Some(c) => (if bold {
            "\u{1b}[1;"@
        } else {
            "\u{1b}["@
        }) + dec_seq(c) + "m"@ + s + "\u{1b}[0m"@,
        None => s,
    }
}

fn color_code(name: &str) -> (r: Option<u64>)
    ensures
        match r {
            Some(c) => spec_color_code(lower_seq(name@)) == Some(c as nat),
            None => spec_color_code(lower_seq(name@)) is None,
        },
{
    let lower = to_lower_str(name);
    let l = lower.as_str();
    if eq_str(l, "cyan") {
        Some(36)
    } else if eq_str(l, "yellow") {
        Some(33)
    } else if eq_str(l, "white") {
        Some(37)
    } else if eq_str(l, "blue") {
        Some(34)
    } else if eq_str(l, "bright_blue") {
        Some(94)
    } else if eq_str(l, "green") {
        Some(32)
    } else if eq_str(l, "red") {
        Some(31)
    } else if eq_str(l, "magenta") {
        Some(35)
    } else {
        None
    }
}

/// Wraps text in a named SGR color, bold when asked; an unknown name
/// leaves the text unchanged.
pub fn apply_color(s: &str, color_name: &str, bold: bool) -> (r: String)
    ensures
        r@ == spec_apply_color(s@, color_name@, bold),
{
    match color_code(color_name) {
        Some(c) => {
            let mut out = String::from_str(if bold {
                "\u{1b}[1;"
            } else {
                "\u{1b}["
            });
            out.append(crate::numfmt::u64_to_dec(c).as_str());
            out.append("m");
            out.append(s);
            out.append("\u{1b}[0m");
            proof {
                assert(out@ =~= spec_apply_color(s@, color_name@, bold));
            }
            out
        },
        None => String::from_str(s),
    }
}

/// A logo's primary color.
#[derive(Clone, Copy, Debug, PartialEq, Eq, Structural)]
pub enum LogoColor {
    Cyan,
    Red,
    Blue,
    Green,
    BrightBlue,
    BrightWhite,
}

/// The SGR code of a logo color.
pub open spec fn spec_logo_color_code(c: LogoColor) -> nat {
    match c {
        LogoColor::Cyan => 36,
        LogoColor::Red => 31,
        LogoColor::Blue => 34,
        LogoColor::Green => 32,
        LogoColor::BrightBlue => 94,
        LogoColor::BrightWhite => 97,
    }
}

/// Text wrapped in a logo color (optionally bold).
pub open spec fn spec_apply_color_enum(s: Seq<char>, c: LogoColor, bold: bool) -> Seq<char> {
    (if bold {
        "\u{1b}[1;"@
    } else {
        "\u{1b}["@
    }) + dec_seq(spec_logo_color_code(c)) + "m"@ + s + "\u{1b}[0m"@
}

/// Wraps text in a logo color.
pub fn apply_color_enum(s: &str, c: LogoColor, bold: bool) -> (r: String)
    ensures
        r@ == spec_apply_color_enum(s@, c, bold),
{
    let code: u64 = match c {
        LogoColor::Cyan => 36,
        LogoColor::Red => 31,
        LogoColor::Blue => 34,
        LogoColor::Green => 32,
        LogoColor::BrightBlue => 94,
        LogoColor::BrightWhite => 97,
    };
    let mut out = String::from_str(if bold {
        "\u{1b}[1;"
    } else {
        "\u{1b}["
    });
    out.append(crate::numfmt::u64_to_dec(code).as_str());
    out.append("m");
    out.append(s);
    out.append("\u{1b}[0m");
    proof {
        assert(out@ =~= spec_apply_color_enum(s@, c, bold));
    }
    out
}

/// Text unchanged.
pub fn apply_color_plain(s: &str) -> (r: String)
    ensures
        r@ == s@,
{
    String::from_str(s)
}

/// Flat-mode rendering options.
#[derive(Debug)]
pub struct RenderOptions {
    /// When set and color is on, used for logo lines and keys.
    pub primary_color: Option<LogoColor>,
    pub ascii_color: String,
    pub key_color: String,
    pub value_color: String,
    pub no_color: bool,
    pub separator: String,
}

/// One colored logo line under the options.
pub open spec fn spec_logo_line(line: Seq<char>, opts: RenderOptions) -> Seq<char> {
    if opts.no_color {
        line
    } else {
        match opts.primary_color {
            Some(c) => spec_apply_color_enum(line, c, false),
            None => spec_apply_color(line, opts.ascii_color@, false),
        }
    }
}

/// Colors each logo line under the options.
pub fn format_logo_lines(logo_lines: &Vec<String>, opts: &RenderOptions) -> (r: Vec<String>)
    ensures
        r.deep_view().len() == logo_lines.deep_view().len(),
        forall|i: int|
            0 <= i < r.deep_view().len() ==> #[trigger] r.deep_view()[i] == spec_logo_line(
                logo_lines.deep_view()[i],
                *opts,
            ),
{
    let mut out: Vec<String> = Vec::new();
    let n = logo_lines.len();
    let mut i: usize = 0;
    while i < n
        invariant
            i <= n,
            n == logo_lines@.len(),
            logo_lines.deep_view().len() == n,
            out.deep_view().len() == i,
            forall|j: int|
                0 <= j < i ==> #[trigger] out.deep_view()[j] == spec_logo_line(
                    logo_lines.deep_view()[j],
                    *opts,
                ),
        decreases n - i,
    {
        proof {
            assert(logo_lines.deep_view()[i as int] == logo_lines@[i as int]@);
        }
        let line = logo_lines[i].as_str();
        let colored_line: String = if opts.no_color {
            apply_color_plain(line)
        } else {
            match opts.primary_color {
                Some(c) => apply_color_enum(line, c, false),
                None => apply_color(line, opts.ascii_color.as_str(), false),
            }
        };
        let ghost prev = out.deep_view();
        let ghost lv = colored_line@;
        out.push(colored_line);
        proof {
            assert(out.deep_view().len() == i + 1);
            assert(out.deep_view()[i as int] == lv);
            assert forall|j: int| 0 <= j < i implies #[trigger] out.deep_view()[j] == prev[j] by {
                assert(out.deep_view()[j] == out@[j]@);
                assert(prev[j] == out@[j]@);
            }
        }
        i += 1;
    }
    out
}

/// One flat info line under the options: a header value alone (colored as a
/// value), or colored key, separator, colored value.
pub open spec fn spec_info_line(it: (Seq<char>, Seq<char>), opts: RenderOptions) -> Seq<char> {
    let key = it.0;
    let value = it.1;
    if key.len() == 0 {
        if opts.no_color {
            value
        } else {
            spec_apply_color(value, opts.value_color@, false)
        }
    } else {
        let key_out = if opts.no_color {
            key
        } else {
            match opts.primary_color {
                Some(c) => spec_apply_color_enum(key, c, true),
                None => spec_apply_color(key, opts.key_color@, true),
            }
        };
        let value_out = if opts.no_color {
            value
        } else {
            spec_apply_color(value, opts.value_color@, false)
        };
        key_out + opts.separator@ + value_out
    }
}

/// Formats each info row as one flat line under the options.
pub fn format_info_lines(stats: &Vec<InfoItem>, opts: &RenderOptions) -> (r: Vec<String>)
    ensures
        r.deep_view().len() == stats@.len(),
        forall|i: int|
            0 <= i < r.deep_view().len() ==> #[trigger] r.deep_view()[i] == spec_info_line(
                item_view(stats@[i]),
                *opts,
            ),
{
    let mut out: Vec<String> = Vec::new();
    let n = stats.len();
    let mut i: usize = 0;
    while i < n
        invariant
            i <= n,
            n == stats@.len(),
            out.deep_view().len() == i,
            forall|j: int|
                0 <= j < i ==> #[trigger] out.deep_view()[j] == spec_info_line(
                    item_view(stats@[j]),
                    *opts,
                ),
        decreases n - i,
    {
        let it = &stats[i];
        let line: String = if it.label.as_str().is_empty() {
            if opts.no_color {
                apply_color_plain(it.value.as_str())
            } else {
                apply_color(it.value.as_str(), opts.value_color.as_str(), false)
            }
        } else {
            let key_out: String = if opts.no_color {
                apply_color_plain(it.label.as_str())
            } else {
                match opts.primary_color {
                    Some(c) => apply_color_enum(it.label.as_str(), c, true),
                    None => apply_color(it.label.as_str(), opts.key_color.as_str(), true),
                }
            };
            let value_out: String = if opts.no_color {
                apply_color_plain(it.value.as_str())
            } else {
                apply_color(it.value.as_str(), opts.value_color.as_str(), false)
            };
            let mut l = key_out;
            l.append(opts.separator.as_str());
            l.append(value_out.as_str());
            l
        };
        proof {
            assert(line@ =~= spec_info_line(item_view(stats@[i as int]), *opts));
        }
        let ghost prev = out.deep_view();
        let ghost lv = line@;
        out.push(line);
        proof {
            assert(out.deep_view().len() == i + 1);
            assert(out.deep_view()[i as int] == lv);
            assert forall|j: int| 0 <= j < i implies #[trigger] out.deep_view()[j] == prev[j] by {
                assert(out.deep_view()[j] == out@[j]@);
                assert(prev[j] == out@[j]@);
            }
        }
        i += 1;
    }
    out
}

/// Renders logo and stats side by side: colors both columns, then composes
/// them with a four-column margin.
pub fn render(logo_lines: &Vec<String>, stats: &Vec<InfoItem>, opts: &RenderOptions) -> (r: Vec<
    String,
>)
    ensures
        ({
            let logo = logo_lines.deep_view().map_values(|l: Seq<char>| spec_logo_line(l, *opts));
            let info = stats@.map_values(|it: InfoItem| spec_info_line(item_view(it), *opts));
            &&& r.deep_view().len() == spec_composed_len(logo, info)
            &&& forall|i: int|
                0 <= i < r.deep_view().len() ==> #[trigger] r.deep_view()[i] == spec_composed_line(
                    logo,
                    info,
                    spec_max_width(logo, 0),
                    4,
                    i,
                )
        }),
{
    let logo_colored = format_logo_lines(logo_lines, opts);
    let info_colored = format_info_lines(stats, opts);
    proof {
        assert(logo_colored.deep_view() =~~= logo_lines.deep_view().map_values(
            |l: Seq<char>| spec_logo_line(l, *opts),
        ));
        assert(info_colored.deep_view() =~~= stats@.map_values(
            |it: InfoItem| spec_info_line(item_view(it), *opts),
        ));
    }
    compose_lines(&logo_colored, &info_colored, 4)
}

/// Renders only the info lines, one per row.
pub fn render_info_only(stats: &Vec<InfoItem>, opts: &RenderOptions) -> (r: Vec<String>)
    ensures
        r.deep_view().len() == stats@.len(),
        forall|i: int|
            0 <= i < r.deep_view().len() ==> #[trigger] r.deep_view()[i] == spec_info_line(
                item_view(stats@[i]),
                *opts,
            ),
{
    format_info_lines(stats, opts)
}

} // verus!
