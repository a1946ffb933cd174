//! The configuration file format: a small INI-like table text with
//! `key = value` lines under `[general]`, `[theme]` and `[ascii]` sections
//! and a top-level `layout` list. The serializer and parser live here,
//! with inverse laws for the scalar value forms.

use vstd::prelude::*;

use crate::config::{AppConfig, Rgb, spec_default_layout};
use crate::numfmt::{dec_seq, u64_to_dec};
use crate::probes::opt_view;
use crate::text::{
    chars_of, eq_chars, find_char, find_char_from, join_lines, push_line, spec_join, spec_split,
    spec_trim, split_chars, string_of, subvec, trim_chars,
};

verus! {

/// The ghost form of the general section.
#[verifier::ext_equal]
pub struct GeneralView {
    pub separator: Seq<char>,
    pub use_nerd_fonts: bool,
    pub align_values: bool,
    pub unit_type: Seq<char>,
    pub show_memory_bar: bool,
    pub show_cpu_bar: bool,
    pub show_disk_bar: bool,
    pub image_path: Option<Seq<char>>,
    pub image_width: Option<u32>,
}

/// The ghost form of the theme section.
#[verifier::ext_equal]
pub struct ThemeView {
    pub mode: Seq<char>,
    pub primary_color: Rgb,
    pub secondary_color: Rgb,
    pub text_color: Rgb,
}

/// The ghost form of the ascii section.
#[verifier::ext_equal]
pub struct AsciiView {
    pub distro_override: Option<Seq<char>>,
    pub print_ascii: bool,
}

/// The ghost form of a whole configuration bundle.
#[verifier::ext_equal]
pub struct ConfView {
    pub general: GeneralView,
    pub theme: ThemeView,
    pub ascii: AsciiView,
    pub layout: Seq<Seq<char>>,
}

/// The ghost form of a configuration value.
pub open spec fn conf_view(c: AppConfig) -> ConfView {
    ConfView {
        general: GeneralView {
            separator: c.general.separator@,
            use_nerd_fonts: c.general.use_nerd_fonts,
            align_values: c.general.align_values,
            unit_type: c.general.unit_type@,
            show_memory_bar: c.general.show_memory_bar,
            show_cpu_bar: c.general.show_cpu_bar,
            show_disk_bar: c.general.show_disk_bar,
            image_path: opt_view(c.general.image_path),
            image_width: c.general.image_width,
        },
        theme: ThemeView {
            mode: c.theme.mode@,
            primary_color: c.theme.primary_color,
            secondary_color: c.theme.secondary_color,
            text_color: c.theme.text_color,
        },
        ascii: AsciiView {
            distro_override: opt_view(c.ascii.distro_override),
            print_ascii: c.ascii.print_ascii,
        },
        layout: c.layout.deep_view(),
    }
}

/// The default configuration, in ghost form.
pub open spec fn spec_default_conf() -> ConfView {
    ConfView {
        general: GeneralView {
            separator: ": "@,
            use_nerd_fonts: false,
            align_values: false,
            unit_type: "standard"@,
            show_memory_bar: true,
            show_cpu_bar: false,
            show_disk_bar: true,
            image_path: None,
            image_width: None,
        },
        theme: ThemeView {
            mode: "solid"@,
            primary_color: Rgb { r: 137, g: 180, b: 250 },
            secondary_color: Rgb { r: 203, g: 166, b: 247 },
            text_color: Rgb { r: 205, g: 214, b: 244 },
        },
        ascii: AsciiView { distro_override: None, print_ascii: true },
        layout: spec_default_layout(),
    }
}

/// A double-quoted value.
pub open spec fn spec_quote(v: Seq<char>) -> Seq<char> {
    "\""@ + v + "\""@
}

/// The text of a boolean value.
pub open spec fn spec_bool_str(b: bool) -> Seq<char> {
    if b {
        "true"@
    } else {
        "false"@
    }
}

/// The text of a color triple.
pub open spec fn spec_rgb_str(c: Rgb) -> Seq<char> {
    "["@ + dec_seq(c.r as nat) + ", "@ + dec_seq(c.g as nat) + ", "@ + dec_seq(c.b as nat) + "]"@
}

/// The quoted entries of a string list, in order.
pub open spec fn spec_quoted_list(l: Seq<Seq<char>>, i: int) -> Seq<Seq<char>>
    decreases l.len() - i,
{
    if i < 0 || i >= l.len() {
        Seq::empty()
    } else {
        seq![spec_quote(l[i])] + spec_quoted_list(l, i + 1)
    }
}

/// The text of a string list value.
pub open spec fn spec_list_str(l: Seq<Seq<char>>) -> Seq<char> {
    "["@ + spec_join(spec_quoted_list(l, 0), ", "@) + "]"@
}

/// One assignment line, `key = value`.
pub open spec fn spec_assign(key: Seq<char>, value: Seq<char>) -> Seq<char> {
    key + " = "@ + value
}

/// The first lines: the layout list and the general section's fixed keys.
pub open spec fn spec_lines_head(c: ConfView) -> Seq<Seq<char>> {
    seq![spec_assign("layout"@, spec_list_str(c.layout)), Seq::<char>::empty(), "[general]"@,
        spec_assign("separator"@, spec_quote(c.general.separator)), spec_assign(
        "use_nerd_fonts"@,
        spec_bool_str(c.general.use_nerd_fonts),
    ), spec_assign("align_values"@, spec_bool_str(c.general.align_values)), spec_assign(
        "unit_type"@,
        spec_quote(c.general.unit_type),
    ), spec_assign("show_memory_bar"@, spec_bool_str(c.general.show_memory_bar)), spec_assign(
        "show_cpu_bar"@,
        spec_bool_str(c.general.show_cpu_bar),
    ), spec_assign("show_disk_bar"@, spec_bool_str(c.general.show_disk_bar))]
}

/// The middle lines: the theme section and the ascii section's fixed key.
pub open spec fn spec_lines_mid(c: ConfView) -> Seq<Seq<char>> {
    seq![Seq::<char>::empty(), "[theme]"@, spec_assign("mode"@, spec_quote(c.theme.mode)),
        spec_assign("primary_color"@, spec_rgb_str(c.theme.primary_color)), spec_assign(
        "secondary_color"@,
        spec_rgb_str(c.theme.secondary_color),
    ), spec_assign("text_color"@, spec_rgb_str(c.theme.text_color)), Seq::<char>::empty(),
        "[ascii]"@, spec_assign("print_ascii"@, spec_bool_str(c.ascii.print_ascii))]
}

/// The serialized lines of a configuration, in order; optional values are
/// written only when present.
pub open spec fn spec_serialize_lines(c: ConfView) -> Seq<Seq<char>> {
    spec_lines_head(c) + (match c.general.image_path {
        Some(p) => seq![spec_assign("image_path"@, spec_quote(p))],
        None => Seq::<Seq<char>>::empty(),
    }) + (match c.general.image_width {
        Some(w) => seq![spec_assign("image_width"@, dec_seq(w as nat))],
        None => Seq::<Seq<char>>::empty(),
    }) + spec_lines_mid(c) + (match c.ascii.distro_override {
        Some(o) => seq![spec_assign("distro_override"@, spec_quote(o))],
        None => Seq::<Seq<char>>::empty(),
    })
}

/// The serialized text: the lines joined with newlines.
pub open spec fn spec_serialize_config(c: ConfView) -> Seq<char> {
    spec_join(spec_serialize_lines(c), "\n"@)
}

fn quote_str(v: &str) -> (r: String)
    ensures
        r@ == spec_quote(v@),
{
    let mut s = String::from_str("\"");
    s.append(v);
    s.append("\"");
    proof {
        assert(s@ =~= spec_quote(v@));
    }
    s
}

fn bool_str(b: bool) -> (r: &'static str)
    ensures
        r@ == spec_bool_str(b),
{
    if b {
        "true"
    } else {
        "false"
    }
}

fn rgb_str(c: Rgb) -> (r: String)
    ensures
        r@ == spec_rgb_str(c),
{
    let mut s = String::from_str("[");
    s.append(u64_to_dec(c.r as u64).as_str());
    s.append(", ");
    s.append(u64_to_dec(c.g as u64).as_str());
    s.append(", ");
    s.append(u64_to_dec(c.b as u64).as_str());
    s.append("]");
    proof {
        assert(s@ =~= spec_rgb_str(c));
    }
    s
}

fn list_str(l: &Vec<String>) -> (r: String)
    ensures
        r@ == spec_list_str(l.deep_view()),
{
    let ghost lv = l.deep_view();
    let mut quoted: Vec<String> = Vec::new();
    let n = l.len();
    let mut i: usize = n;
    proof {
        assert(quoted.deep_view() =~~= spec_quoted_list(lv, n as int));
    }
    while i > 0
        invariant
            i <= n,
            n == l@.len(),
            lv == l.deep_view(),
            lv.len() == n,
            quoted.deep_view() == spec_quoted_list(lv, i as int),
        decreases i,
    {
        i -= 1;
        proof {
            assert(lv[i as int] == l@[i as int]@);
        }
        quoted.insert(0, quote_str(l[i].as_str()));
        proof {
            assert(quoted.deep_view() =~~= spec_quoted_list(lv, i as int));
        }
    }
    let joined = join_lines(&quoted, ", ");
    let mut s = String::from_str("[");
    s.append(joined.as_str());
    s.append("]");
    proof {
        assert(s@ =~= spec_list_str(lv));
    }
    s
}

fn assign_line(key: &str, value: &str) -> (r: String)
    ensures
        r@ == key@ + " = "@ + value@,
{
    let mut s = String::from_str(key);
    s.append(" = ");
    s.append(value);
    proof {
        assert(s@ =~= key@ + " = "@ + value@);
    }
    s
}

/// Serializes a configuration to its file text.
#[verifier::rlimit(50)]
pub fn serialize_config(c: &AppConfig) -> (r: String)
    ensures
        r@ == spec_serialize_config(conf_view(*c)),
{
    let ghost cv = conf_view(*c);
    let mut lines: Vec<String> = Vec::new();
    push_line(&mut lines, assign_line("layout", list_str(&c.layout).as_str()));
    push_line(&mut lines, String::new());
    push_line(&mut lines, String::from_str("[general]"));
    push_line(&mut lines, assign_line("separator", quote_str(c.general.separator.as_str()).as_str()));
    push_line(&mut lines, assign_line("use_nerd_fonts", bool_str(c.general.use_nerd_fonts)));
    push_line(&mut lines, assign_line("align_values", bool_str(c.general.align_values)));
    push_line(&mut lines, assign_line("unit_type", quote_str(c.general.unit_type.as_str()).as_str()));
    push_line(&mut lines, assign_line("show_memory_bar", bool_str(c.general.show_memory_bar)));
    push_line(&mut lines, assign_line("show_cpu_bar", bool_str(c.general.show_cpu_bar)));
    push_line(&mut lines, assign_line("show_disk_bar", bool_str(c.general.show_disk_bar)));
    proof {
        assert(lines.deep_view() =~~= spec_lines_head(cv));
    }
    match &c.general.image_path {
        Some(p) => {
            push_line(&mut lines, assign_line("image_path", quote_str(p.as_str()).as_str()));
        },
        None => {},
    }
    match c.general.image_width {
        Some(w) => {
            push_line(&mut lines, assign_line("image_width", u64_to_dec(w as u64).as_str()));
        },
        None => {},
    }
    let ghost opts1 = spec_lines_head(cv) + (match cv.general.image_path {
        Some(p) => seq![spec_assign("image_path"@, spec_quote(p))],
        None => Seq::<Seq<char>>::empty(),
    }) + (match cv.general.image_width {
        Some(w) => seq![spec_assign("image_width"@, dec_seq(w as nat))],
        None => Seq::<Seq<char>>::empty(),
    });
    proof {
        assert(lines.deep_view() =~~= opts1);
    }
    push_line(&mut lines, String::new());
    push_line(&mut lines, String::from_str("[theme]"));
    push_line(&mut lines, assign_line("mode", quote_str(c.theme.mode.as_str()).as_str()));
    push_line(&mut lines, assign_line("primary_color", rgb_str(c.theme.primary_color).as_str()));
    push_line(&mut lines, assign_line("secondary_color", rgb_str(c.theme.secondary_color).as_str()));
    push_line(&mut lines, assign_line("text_color", rgb_str(c.theme.text_color).as_str()));
    push_line(&mut lines, String::new());
    push_line(&mut lines, String::from_str("[ascii]"));
    push_line(&mut lines, assign_line("print_ascii", bool_str(c.ascii.print_ascii)));
    proof {
        assert(lines.deep_view() =~~= opts1 + spec_lines_mid(cv));
    }
    let ghost opts2 = opts1 + spec_lines_mid(cv);
    match &c.ascii.distro_override {
        Some(o) => {
            push_line(&mut lines, assign_line("distro_override", quote_str(o.as_str()).as_str()));
        },
        None => {},
    }
    proof {
        assert(lines.deep_view() =~~= opts2 + (match cv.ascii.distro_override {
            Some(o) => seq![spec_assign("distro_override"@, spec_quote(o))],
            None => Seq::<Seq<char>>::empty(),
        }));
        assert(lines.deep_view() =~~= spec_serialize_lines(cv));
    }
    join_lines(&lines, "\n")
}

/// A parsed string value: the inside of one pair of double quotes.
pub open spec fn spec_parse_string(v: Seq<char>) -> Option<Seq<char>> {
    if v.len() >= 2 && v[0] == '"' && v[v.len() - 1] == '"' {
        Some(v.subrange(1, v.len() - 1))
    } else {
        None
    }
}

/// A parsed boolean value.
pub open spec fn spec_parse_bool(v: Seq<char>) -> Option<bool> {
    if v == "true"@ {
        Some(true)
    } else if v == "false"@ {
        Some(false)
    } else {
        None
    }
}

/// The numeric value of a digit sequence.
pub open spec fn digits_val(s: Seq<char>) -> nat
    decreases s.len(),
{
    if s.len() == 0 {
        0
    } else {
        digits_val(s.drop_last()) * 10 + (if crate::parsers::is_digit(s[s.len() - 1]) {
            ((s[s.len() - 1] as int) - ('0' as int)) as nat
        } else {
            0nat
        })
    }
}

/// Whether every character is a digit.
pub open spec fn all_digits(s: Seq<char>) -> bool {
    forall|j: int| 0 <= j < s.len() ==> crate::parsers::is_digit(s[j])
}

/// A parsed unsigned number: at most twenty digits, in 64-bit range.
pub open spec fn spec_parse_u64(v: Seq<char>) -> Option<nat> {
    if v.len() == 0 || v.len() > 20 || !all_digits(v) || digits_val(v) >= 0x1_0000_0000_0000_0000
        {
        None
    } else {
        Some(digits_val(v))
    }
}

fn parse_string_val(v: &Vec<char>) -> (r: Option<Vec<char>>)
    ensures
        match r {
            Some(x) => spec_parse_string(v@) == Some(x@),
            None => spec_parse_string(v@) is None,
        },
{
    if v.len() >= 2 && v[0] == '"' && v[v.len() - 1] == '"' {
        Some(subvec(v, 1, v.len() - 1))
    } else {
        None
    }
}

fn parse_bool_val(v: &Vec<char>) -> (r: Option<bool>)
    ensures
        r == spec_parse_bool(v@),
{
    if eq_chars(v, &chars_of("true")) {
        Some(true)
    } else if eq_chars(v, &chars_of("false")) {
        Some(false)
    } else {
        None
    }
}

fn parse_u64_val(v: &Vec<char>) -> (r: Option<u64>)
    ensures
        match r {
            Some(x) => spec_parse_u64(v@) == Some(x as nat),
            None => spec_parse_u64(v@) is None,
        },
{
    let n = v.len();
    if n == 0 || n > 20 {
        return None;
    }
    let mut acc: u128 = 0;
    let mut i: usize = 0;
    while i < n
        invariant
            i <= n,
            n == v@.len(),
            n <= 20,
            forall|j: int| 0 <= j < i ==> crate::parsers::is_digit(v@[j]),
            acc == digits_val(v@.subrange(0, i as int)),
        decreases n - i,
    {
        let c = v[i];
        if !('0' <= c && c <= '9') {
            return None;
        }
        let d: u128 = (c as u32 as u128) - ('0' as u32 as u128);
        proof {
            lemma_digits_val_bound(v@.subrange(0, i as int));
            assert(acc * 10 + d < 0x1_0000_0000_0000_0000_0000_0000u128) by (nonlinear_arith)
                requires
                    acc < 100000000000000000000u128,
                    d < 10,
            ;
            assert(v@.subrange(0, i + 1).drop_last() =~= v@.subrange(0, i as int));
            assert(v@.subrange(0, i + 1).last() == v@[i as int]);
        }
        acc = acc * 10 + d;
        i += 1;
    }
    proof {
        assert(v@.subrange(0, n as int) =~= v@);
        lemma_digits_val_bound(v@);
    }
    if acc > 0xffff_ffff_ffff_ffffu128 {
        return None;
    }
    Some(acc as u64)
}

/// Ten to the `k`.
pub open spec fn pow10(k: nat) -> nat
    decreases k,
{
    if k == 0 {
        1
    } else {
        10 * pow10((k - 1) as nat)
    }
}

/// A digit string of length at most 20 denotes a value below 10^20.
proof fn lemma_digits_val_bound(s: Seq<char>)
    requires
        s.len() <= 20,
    ensures
        digits_val(s) < 100000000000000000000u128,
    decreases s.len(),
{
    lemma_digits_val_pow(s);
    lemma_pow10_le(s.len() as nat, 20);
    assert(pow10(20) == 100000000000000000000) by {
        reveal_with_fuel(pow10, 21);
    }
}

proof fn lemma_pow10_le(a: nat, b: nat)
    requires
        a <= b,
    ensures
        pow10(a) <= pow10(b),
    decreases b,
{
    if a < b {
        lemma_pow10_le(a, (b - 1) as nat);
        lemma_pow10_pos((b - 1) as nat);
    }
}

proof fn lemma_pow10_pos(k: nat)
    ensures
        pow10(k) >= 1,
    decreases k,
{
    if k > 0 {
        lemma_pow10_pos((k - 1) as nat);
    }
}

/// A digit string denotes less than 10 to its length.
proof fn lemma_digits_val_pow(s: Seq<char>)
    ensures
        digits_val(s) < pow10(s.len() as nat),
    decreases s.len(),
{
    lemma_pow10_pos(s.len() as nat);
    if s.len() > 0 {
        lemma_digits_val_pow(s.drop_last());
        let d: nat = if crate::parsers::is_digit(s[s.len() - 1]) {
            ((s[s.len() - 1] as nat) - ('0' as nat)) as nat
        } else {
            0
        };
        assert(d <= 9);
        let p = pow10((s.len() - 1) as nat);
        assert(pow10(s.len() as nat) == 10 * p);
        assert(digits_val(s.drop_last()) * 10 + d < 10 * p) by (nonlinear_arith)
            requires
                digits_val(s.drop_last()) < p,
                d <= 9,
                p >= 1,
        ;
    }
}

/// A parsed color triple: three bracketed, comma-separated channel values
/// up to 255.
pub open spec fn spec_parse_rgb(v: Seq<char>) -> Option<Rgb> {
    if v.len() >= 2 && v[0] == '[' && v[v.len() - 1] == ']' {
        let parts = spec_split(v.subrange(1, v.len() - 1), ',');
        if parts.len() == 3 {
            match (spec_parse_u64(spec_trim(parts[0])), spec_parse_u64(spec_trim(parts[1])),
                spec_parse_u64(spec_trim(parts[2]))) {
                (Some(r), Some(g), Some(b)) => {
                    if r <= 255 && g <= 255 && b <= 255 {
                        Some(Rgb { r: r as u8, g: g as u8, b: b as u8 })
                    } else {
                        None
                    }
                },
                _ => None,
            }
        } else {
            None
        }
    } else {
        None
    }
}

fn parse_rgb_val(v: &Vec<char>) -> (r: Option<Rgb>)
    ensures
        r == spec_parse_rgb(v@),
{
    if !(v.len() >= 2 && v[0] == '[' && v[v.len() - 1] == ']') {
        return None;
    }
    let inner = subvec(v, 1, v.len() - 1);
    let parts = split_chars(&inner, ',');
    if parts.len() != 3 {
        return None;
    }
    proof {
        assert(parts.deep_view()[0] == parts@[0]@);
        assert(parts.deep_view()[1] == parts@[1]@);
        assert(parts.deep_view()[2] == parts@[2]@);
    }
    let t0 = trim_chars(&parts[0]);
    let t1 = trim_chars(&parts[1]);
    let t2 = trim_chars(&parts[2]);
    let r0 = parse_u64_val(&t0);
    let r1 = parse_u64_val(&t1);
    let r2 = parse_u64_val(&t2);
    match (r0, r1, r2) {
        (Some(a), Some(b), Some(c)) => {
            if a <= 255 && b <= 255 && c <= 255 {
                Some(Rgb { r: a as u8, g: b as u8, b: c as u8 })
            } else {
                None
            }
        },
        _ => None,
    }
}

/// The string entries parsed from list segments, when every one is quoted.
pub open spec fn spec_collect_strs(parts: Seq<Seq<char>>, i: int) -> Option<Seq<Seq<char>>>
    decreases parts.len() - i,
{
    if i < 0 || i >= parts.len() {
        Some(Seq::empty())
    } else {
        match spec_parse_string(spec_trim(parts[i])) {
            Some(s) => match spec_collect_strs(parts, i + 1) {
                Some(rest) => Some(seq![s] + rest),
                None => None,
            },
            None => None,
        }
    }
}

/// A parsed string list: bracketed, comma-separated quoted entries; empty
/// brackets give the empty list.
pub open spec fn spec_parse_str_list(v: Seq<char>) -> Option<Seq<Seq<char>>> {
    if v.len() >= 2 && v[0] == '[' && v[v.len() - 1] == ']' {
        let inner = v.subrange(1, v.len() - 1);
        if spec_trim(inner).len() == 0 {
            Some(Seq::empty())
        } else {
            spec_collect_strs(spec_split(inner, ','), 0)
        }
    } else {
        None
    }
}

fn collect_strs(parts: &Vec<Vec<char>>, i: usize) -> (r: Option<Vec<String>>)
    requires
        i <= parts@.len(),
    ensures
        match r {
            Some(xs) => spec_collect_strs(parts.deep_view(), i as int) == Some(xs.deep_view()),
            None => spec_collect_strs(parts.deep_view(), i as int) is None,
        },
    decreases parts@.len() - i,
{
    if i >= parts.len() {
        let r: Vec<String> = Vec::new();
        proof {
            assert(r.deep_view() =~~= Seq::<Seq<char>>::empty());
        }
        return Some(r);
    }
    proof {
        assert(parts.deep_view()[i as int] == parts@[i as int]@);
    }
    let t = trim_chars(&parts[i]);
    let s = match parse_string_val(&t) {
        Some(s) => s,
        None => {
            return None;
        },
    };
    match collect_strs(parts, i + 1) {
        Some(rest) => {
            let mut out: Vec<String> = Vec::new();
            out.push(string_of(&s));
            let mut rest_mut = rest;
            let ghost rv = rest_mut.deep_view();
            let ghost before = out.deep_view();
            out.append(&mut rest_mut);
            proof {
                assert(out.deep_view() =~~= before + rv);
                assert(before =~~= seq![s@]);
                assert(out.deep_view() =~~= spec_collect_strs(
                    parts.deep_view(),
                    i as int,
                ).unwrap());
            }
            Some(out)
        },
        None => None,
    }
}

fn parse_str_list_val(v: &Vec<char>) -> (r: Option<Vec<String>>)
    ensures
        match r {
            Some(xs) => spec_parse_str_list(v@) == Some(xs.deep_view()),
            None => spec_parse_str_list(v@) is None,
        },
{
    if !(v.len() >= 2 && v[0] == '[' && v[v.len() - 1] == ']') {
        return None;
    }
    let inner = subvec(v, 1, v.len() - 1);
    let it = trim_chars(&inner);
    if it.len() == 0 {
        let r: Vec<String> = Vec::new();
        proof {
            assert(r.deep_view() =~~= Seq::<Seq<char>>::empty());
        }
        return Some(r);
    }
    let parts = split_chars(&inner, ',');
    collect_strs(&parts, 0)
}

/// The configuration after one `key = value` under the given section
/// (0 the top level, 1 general, 2 theme, 3 ascii); unrecognized keys and
/// malformed values leave it unchanged.
pub open spec fn spec_apply_kv(sec: int, c: ConfView, key: Seq<char>, val: Seq<char>) -> ConfView {
    if sec == 0 {
        if key == "layout"@ {
            match spec_parse_str_list(val) {
                Some(xs) => ConfView { layout: xs, ..c },
                None => c,
            }
        } else {
            c
        }
    } else if sec == 1 {
        if key == "separator"@ {
            match spec_parse_string(val) {
                Some(v) => ConfView { general: GeneralView { separator: v, ..c.general }, ..c },
                None => c,
            }
        } else if key == "use_nerd_fonts"@ {
            match spec_parse_bool(val) {
                Some(b) => ConfView { general: GeneralView { use_nerd_fonts: b, ..c.general }, ..c },
                None => c,
            }
        } else if key == "align_values"@ {
            match spec_parse_bool(val) {
                Some(b) => ConfView { general: GeneralView { align_values: b, ..c.general }, ..c },
                None => c,
            }
        } else if key == "unit_type"@ {
            match spec_parse_string(val) {
                Some(v) => ConfView { general: GeneralView { unit_type: v, ..c.general }, ..c },
                None => c,
            }
        } else if key == "show_memory_bar"@ {
            match spec_parse_bool(val) {
                Some(b) => ConfView {
                    general: GeneralView { show_memory_bar: b, ..c.general },
                    ..c
                },
                None => c,
            }
        } else if key == "show_cpu_bar"@ {
            match spec_parse_bool(val) {
                Some(b) => ConfView { general: GeneralView { show_cpu_bar: b, ..c.general }, ..c },
                None => c,
            }
        } else if key == "show_disk_bar"@ {
            match spec_parse_bool(val) {
                Some(b) => ConfView { general: GeneralView { show_disk_bar: b, ..c.general }, ..c },
                None => c,
            }
        } else if key == "image_path"@ {
            match spec_parse_string(val) {
                Some(v) => ConfView {
                    general: GeneralView { image_path: Some(v), ..c.general },
                    ..c
                },
                None => c,
            }
        } else if key == "image_width"@ {
            match spec_parse_u64(val) {
                Some(w) => if w <= 0xffff_ffff {
                    ConfView {
                        general: GeneralView { image_width: Some(w as u32), ..c.general },
                        ..c
                    }
                } else {
                    c
                },
                None => c,
            }
        } else {
            c
        }
    } else if sec == 2 {
        if key == "mode"@ {
            match spec_parse_string(val) {
                Some(v) => ConfView { theme: ThemeView { mode: v, ..c.theme }, ..c },
                None => c,
            }
        } else if key == "primary_color"@ {
            match spec_parse_rgb(val) {
                Some(col) => ConfView { theme: ThemeView { primary_color: col, ..c.theme }, ..c },
                None => c,
            }
        } else if key == "secondary_color"@ {
            match spec_parse_rgb(val) {
                Some(col) => ConfView { theme: ThemeView { secondary_color: col, ..c.theme }, ..c },
                None => c,
            }
        } else if key == "text_color"@ {
            match spec_parse_rgb(val) {
                Some(col) => ConfView { theme: ThemeView { text_color: col, ..c.theme }, ..c },
                None => c,
            }
        } else {
            c
        }
    } else if sec == 3 {
        if key == "print_ascii"@ {
            match spec_parse_bool(val) {
                Some(b) => ConfView { ascii: AsciiView { print_ascii: b, ..c.ascii }, ..c },
                None => c,
            }
        } else if key == "distro_override"@ {
            match spec_parse_string(val) {
                Some(v) => ConfView {
                    ascii: AsciiView { distro_override: Some(v), ..c.ascii },
                    ..c
                },
                None => c,
            }
        } else {
            c
        }
    } else {
        c
    }
}

/// The parser state after one line: blank lines and comments are skipped,
/// a bracketed line switches the section, an assignment updates the
/// configuration.
pub open spec fn spec_parse_line(sec: int, c: ConfView, line: Seq<char>) -> (int, ConfView) {
    let l = spec_trim(line);
    if l.len() == 0 || l[0] == '#' {
        (sec, c)
    } else if l[0] == '[' {
        if l == "[general]"@ {
            (1int, c)
        } else if l == "[theme]"@ {
            (2int, c)
        } else if l == "[ascii]"@ {
            (3int, c)
        } else {
            (4int, c)
        }
    } else {
        let i = find_char_from(l, '=', 0);
        if i < 0 {
            (sec, c)
        } else {
            let key = spec_trim(l.subrange(0, i));
            let val = spec_trim(l.subrange(i + 1, l.len() as int));
            (sec, spec_apply_kv(sec, c, key, val))
        }
    }
}

/// The configuration after all lines from `i` on.
pub open spec fn spec_parse_lines(
    lines: Seq<Seq<char>>,
    i: int,
    sec: int,
    c: ConfView,
) -> ConfView
    decreases lines.len() - i,
{
    if i < 0 || i >= lines.len() {
        c
    } else {
        let st = spec_parse_line(sec, c, lines[i]);
        spec_parse_lines(lines, i + 1, st.0, st.1)
    }
}

/// What `parse_config` returns: the defaults overwritten by every
/// recognized assignment of the text.
pub open spec fn spec_parse_config(s: Seq<char>) -> ConfView {
    spec_parse_lines(spec_split(s, '\n'), 0, 0, spec_default_conf())
}

#[verifier::rlimit(50)]
fn apply_config_line(sec: u8, cfg: AppConfig, line: &Vec<char>) -> (r: (u8, AppConfig))
    requires
        sec <= 4,
    ensures
        (r.0 as int, conf_view(r.1)) == spec_parse_line(sec as int, conf_view(cfg), line@),
        r.0 <= 4,
{
    let ghost cv = conf_view(cfg);
    let ghost sec0 = sec as int;
    let l = trim_chars(line);
    if l.len() == 0 || l[0] == '#' {
        return (sec, cfg);
    }
    if l[0] == '[' {
        let ns: u8 = if eq_chars(&l, &chars_of("[general]")) {
            1
        } else if eq_chars(&l, &chars_of("[theme]")) {
            2
        } else if eq_chars(&l, &chars_of("[ascii]")) {
            3
        } else {
            4
        };
        return (ns, cfg);
    }
    let i = match find_char(&l, '=', 0) {
        Some(i) => i,
        None => {
            return (sec, cfg);
        },
    };
    let pre = subvec(&l, 0, i);
    let key = trim_chars(&pre);
    let post = subvec(&l, i + 1, l.len());
    let val = trim_chars(&post);
    let mut cfg = cfg;
    if sec == 0 {
        if eq_chars(&key, &chars_of("layout")) {
            match parse_str_list_val(&val) {
                Some(xs) => {
                    cfg.layout = xs;
                },
                None => {},
            }
        }
    } else if sec == 1 {
        if eq_chars(&key, &chars_of("separator")) {
            match parse_string_val(&val) {
                Some(v) => {
                    cfg.general.separator = string_of(&v);
                },
                None => {},
            }
        } else if eq_chars(&key, &chars_of("use_nerd_fonts")) {
            match parse_bool_val(&val) {
                Some(b) => {
                    cfg.general.use_nerd_fonts = b;
                },
                None => {},
            }
        } else if eq_chars(&key, &chars_of("align_values")) {
            match parse_bool_val(&val) {
                Some(b) => {
                    cfg.general.align_values = b;
                },
                None => {},
            }
        } else if eq_chars(&key, &chars_of("unit_type")) {
            match parse_string_val(&val) {
                Some(v) => {
                    cfg.general.unit_type = string_of(&v);
                },
                None => {},
            }
        } else if eq_chars(&key, &chars_of("show_memory_bar")) {
            match parse_bool_val(&val) {
                Some(b) => {
                    cfg.general.show_memory_bar = b;
                },
                None => {},
            }
        } else if eq_chars(&key, &chars_of("show_cpu_bar")) {
            match parse_bool_val(&val) {
                Some(b) => {
                    cfg.general.show_cpu_bar = b;
                },
                None => {},
            }
        } else if eq_chars(&key, &chars_of("show_disk_bar")) {
            match parse_bool_val(&val) {
                Some(b) => {
                    cfg.general.show_disk_bar = b;
                },
                None => {},
            }
        } else if eq_chars(&key, &chars_of("image_path")) {
            match parse_string_val(&val) {
                Some(v) => {
                    cfg.general.image_path = Some(string_of(&v));
                },
                None => {},
            }
        } else if eq_chars(&key, &chars_of("image_width")) {
            match parse_u64_val(&val) {
                Some(w) => {
                    if w <= 0xffff_ffff {
                        cfg.general.image_width = Some(w as u32);
                    }
                },
                None => {},
            }
        }
    } else if sec == 2 {
        if eq_chars(&key, &chars_of("mode")) {
            match parse_string_val(&val) {
                Some(v) => {
                    cfg.theme.mode = string_of(&v);
                },
                None => {},
            }
        } else if eq_chars(&key, &chars_of("primary_color")) {
            match parse_rgb_val(&val) {
                Some(col) => {
                    cfg.theme.primary_color = col;
                },
                None => {},
            }
        } else if eq_chars(&key, &chars_of("secondary_color")) {
            match parse_rgb_val(&val) {
                Some(col) => {
                    cfg.theme.secondary_color = col;
                },
                None => {},
            }
        } else if eq_chars(&key, &chars_of("text_color")) {
            match parse_rgb_val(&val) {
                Some(col) => {
                    cfg.theme.text_color = col;
                },
                None => {},
            }
        }
    } else if sec == 3 {
        if eq_chars(&key, &chars_of("print_ascii")) {
            match parse_bool_val(&val) {
                Some(b) => {
                    cfg.ascii.print_ascii = b;
                },
                None => {},
            }
        } else if eq_chars(&key, &chars_of("distro_override")) {
            match parse_string_val(&val) {
                Some(v) => {
                    cfg.ascii.distro_override = Some(string_of(&v));
                },
                None => {},
            }
        }
    }
    proof {
        assert(conf_view(cfg) =~~= spec_apply_kv(sec0, cv, key@, val@));
    }
    (sec, cfg)
}

/// Parses a configuration file text; unknown keys and malformed values are
/// ignored and every missing option keeps its default.
pub fn parse_config(s: &str) -> (r: AppConfig)
    ensures
        conf_view(r) == spec_parse_config(s@),
{
    let cs = chars_of(s);
    let lines = split_chars(&cs, '\n');
    let mut cfg = AppConfig::default();
    proof {
        assert(conf_view(cfg) =~~= spec_default_conf());
    }
    let mut sec: u8 = 0;
    let n = lines.len();
    let mut i: usize = 0;
    while i < n
        invariant
            i <= n,
            n == lines@.len(),
            lines.deep_view().len() == n,
            lines.deep_view() == spec_split(s@, '\n'),
            sec <= 4,
            spec_parse_lines(lines.deep_view(), i as int, sec as int, conf_view(cfg))
                == spec_parse_config(s@),
        decreases n - i,
    {
        proof {
            assert(lines.deep_view()[i as int] == lines@[i as int]@);
        }
        let st = apply_config_line(sec, cfg, &lines[i]);
        sec = st.0;
        cfg = st.1;
        i += 1;
    }
    cfg
}

/// Whether a piece of text holds no newline.
pub open spec fn nl_free(s: Seq<char>) -> bool {
    forall|j: int| 0 <= j < s.len() ==> s[j] != '\n'
}

/// Whether every text field of a configuration is newline-free, so that
/// its serialized form keeps one option per line.
pub open spec fn conf_nl_free(c: ConfView) -> bool {
    &&& nl_free(c.general.separator)
    &&& nl_free(c.general.unit_type)
    &&& (c.general.image_path matches Some(p) ==> nl_free(p))
    &&& nl_free(c.theme.mode)
    &&& (c.ascii.distro_override matches Some(o) ==> nl_free(o))
    &&& forall|i: int| 0 <= i < c.layout.len() ==> nl_free(#[trigger] c.layout[i])
}

proof fn lemma_nl_free_concat(a: Seq<char>, b: Seq<char>)
    requires
        nl_free(a),
        nl_free(b),
    ensures
        nl_free(a + b),
{
    assert forall|j: int| 0 <= j < (a + b).len() implies (a + b)[j] != '\n' by {
        if j < a.len() {
            assert((a + b)[j] == a[j]);
        } else {
            assert((a + b)[j] == b[j - a.len()]);
        }
    }
}

proof fn lemma_nl_free_dec(n: nat)
    ensures
        nl_free(dec_seq(n)),
{
    crate::numfmt::lemma_dec_seq_digit_range(n);
}

proof fn lemma_nl_free_quote(v: Seq<char>)
    requires
        nl_free(v),
    ensures
        nl_free(spec_quote(v)),
{
    reveal_strlit("\"");
    lemma_nl_free_concat("\""@, v);
    lemma_nl_free_concat("\""@ + v, "\""@);
}

proof fn lemma_nl_free_assign(key: Seq<char>, value: Seq<char>)
    requires
        nl_free(key),
        nl_free(value),
    ensures
        nl_free(spec_assign(key, value)),
{
    reveal_strlit(" = ");
    lemma_nl_free_concat(key, " = "@);
    lemma_nl_free_concat(key + " = "@, value);
}

proof fn lemma_nl_free_bool(b: bool)
    ensures
        nl_free(spec_bool_str(b)),
{
    reveal_strlit("true");
    reveal_strlit("false");
}

proof fn lemma_nl_free_rgb(c: Rgb)
    ensures
        nl_free(spec_rgb_str(c)),
{
    reveal_strlit("[");
    reveal_strlit("]");
    reveal_strlit(", ");
    lemma_nl_free_dec(c.r as nat);
    lemma_nl_free_dec(c.g as nat);
    lemma_nl_free_dec(c.b as nat);
    lemma_nl_free_concat("["@, dec_seq(c.r as nat));
    lemma_nl_free_concat("["@ + dec_seq(c.r as nat), ", "@);
    lemma_nl_free_concat("["@ + dec_seq(c.r as nat) + ", "@, dec_seq(c.g as nat));
    lemma_nl_free_concat("["@ + dec_seq(c.r as nat) + ", "@ + dec_seq(c.g as nat), ", "@);
    lemma_nl_free_concat(
        "["@ + dec_seq(c.r as nat) + ", "@ + dec_seq(c.g as nat) + ", "@,
        dec_seq(c.b as nat),
    );
    lemma_nl_free_concat(
        "["@ + dec_seq(c.r as nat) + ", "@ + dec_seq(c.g as nat) + ", "@ + dec_seq(c.b as nat),
        "]"@,
    );
}

proof fn lemma_nl_free_join(parts: Seq<Seq<char>>, sep: Seq<char>)
    requires
        nl_free(sep),
        forall|i: int| 0 <= i < parts.len() ==> nl_free(#[trigger] parts[i]),
    ensures
        nl_free(spec_join(parts, sep)),
    decreases parts.len(),
{
    if parts.len() == 0 {
    } else if parts.len() == 1 {
        assert(nl_free(parts[0]));
    } else {
        lemma_nl_free_join(parts.drop_first(), sep);
        lemma_nl_free_concat(parts[0], sep);
        lemma_nl_free_concat(parts[0] + sep, spec_join(parts.drop_first(), sep));
    }
}

proof fn lemma_nl_free_list(l: Seq<Seq<char>>)
    requires
        forall|i: int| 0 <= i < l.len() ==> nl_free(#[trigger] l[i]),
    ensures
        nl_free(spec_list_str(l)),
{
    reveal_strlit("[");
    reveal_strlit("]");
    reveal_strlit(", ");
    lemma_nl_free_quoted_list(l, 0);
    lemma_nl_free_join(spec_quoted_list(l, 0), ", "@);
    lemma_nl_free_concat("["@, spec_join(spec_quoted_list(l, 0), ", "@));
    lemma_nl_free_concat("["@ + spec_join(spec_quoted_list(l, 0), ", "@), "]"@);
}

proof fn lemma_nl_free_quoted_list(l: Seq<Seq<char>>, i: int)
    requires
        0 <= i,
        forall|k: int| 0 <= k < l.len() ==> nl_free(#[trigger] l[k]),
    ensures
        forall|k: int|
            0 <= k < spec_quoted_list(l, i).len() ==> nl_free(#[trigger] spec_quoted_list(l, i)[k]),
    decreases l.len() - i,
{
    if i < l.len() {
        lemma_nl_free_quoted_list(l, i + 1);
        lemma_nl_free_quote(l[i]);
        assert forall|k: int| 0 <= k < spec_quoted_list(l, i).len() implies nl_free(
            #[trigger] spec_quoted_list(l, i)[k],
        ) by {
            if k > 0 {
                assert(spec_quoted_list(l, i)[k] == spec_quoted_list(l, i + 1)[k - 1]);
            }
        }
    }
}

/// Every serialized line of a newline-free configuration is newline-free.
proof fn lemma_serialize_lines_nl_free(c: ConfView)
    requires
        conf_nl_free(c),
    ensures
        forall|i: int|
            0 <= i < spec_serialize_lines(c).len() ==> nl_free(#[trigger] spec_serialize_lines(c)[i]),
{
    reveal_strlit("layout");
    reveal_strlit("separator");
    reveal_strlit("use_nerd_fonts");
    reveal_strlit("align_values");
    reveal_strlit("unit_type");
    reveal_strlit("show_memory_bar");
    reveal_strlit("show_cpu_bar");
    reveal_strlit("show_disk_bar");
    reveal_strlit("image_path");
    reveal_strlit("image_width");
    reveal_strlit("mode");
    reveal_strlit("primary_color");
    reveal_strlit("secondary_color");
    reveal_strlit("text_color");
    reveal_strlit("print_ascii");
    reveal_strlit("distro_override");
    reveal_strlit("[general]");
    reveal_strlit("[theme]");
    reveal_strlit("[ascii]");
    lemma_nl_free_list(c.layout);
    lemma_nl_free_assign("layout"@, spec_list_str(c.layout));
    lemma_nl_free_quote(c.general.separator);
    lemma_nl_free_assign("separator"@, spec_quote(c.general.separator));
    lemma_nl_free_bool(c.general.use_nerd_fonts);
    lemma_nl_free_assign("use_nerd_fonts"@, spec_bool_str(c.general.use_nerd_fonts));
    lemma_nl_free_bool(c.general.align_values);
    lemma_nl_free_assign("align_values"@, spec_bool_str(c.general.align_values));
    lemma_nl_free_quote(c.general.unit_type);
    lemma_nl_free_assign("unit_type"@, spec_quote(c.general.unit_type));
    lemma_nl_free_bool(c.general.show_memory_bar);
    lemma_nl_free_assign("show_memory_bar"@, spec_bool_str(c.general.show_memory_bar));
    lemma_nl_free_bool(c.general.show_cpu_bar);
    lemma_nl_free_assign("show_cpu_bar"@, spec_bool_str(c.general.show_cpu_bar));
    lemma_nl_free_bool(c.general.show_disk_bar);
    lemma_nl_free_assign("show_disk_bar"@, spec_bool_str(c.general.show_disk_bar));
    match c.general.image_path {
        Some(p) => {
            lemma_nl_free_quote(p);
            lemma_nl_free_assign("image_path"@, spec_quote(p));
        },
        None => {},
    }
    match c.general.image_width {
        Some(w) => {
            lemma_nl_free_dec(w as nat);
            lemma_nl_free_assign("image_width"@, dec_seq(w as nat));
        },
        None => {},
    }
    lemma_nl_free_quote(c.theme.mode);
    lemma_nl_free_assign("mode"@, spec_quote(c.theme.mode));
    lemma_nl_free_rgb(c.theme.primary_color);
    lemma_nl_free_assign("primary_color"@, spec_rgb_str(c.theme.primary_color));
    lemma_nl_free_rgb(c.theme.secondary_color);
    lemma_nl_free_assign("secondary_color"@, spec_rgb_str(c.theme.secondary_color));
    lemma_nl_free_rgb(c.theme.text_color);
    lemma_nl_free_assign("text_color"@, spec_rgb_str(c.theme.text_color));
    lemma_nl_free_bool(c.ascii.print_ascii);
    lemma_nl_free_assign("print_ascii"@, spec_bool_str(c.ascii.print_ascii));
    match c.ascii.distro_override {
        Some(o) => {
            lemma_nl_free_quote(o);
            lemma_nl_free_assign("distro_override"@, spec_quote(o));
        },
        None => {},
    }
    let lines = spec_serialize_lines(c);
    let head = spec_lines_head(c);
    let mid = spec_lines_mid(c);
    assert forall|i: int| 0 <= i < lines.len() implies nl_free(#[trigger] lines[i]) by {
        let ip: Seq<Seq<char>> = match c.general.image_path {
            Some(p) => seq![spec_assign("image_path"@, spec_quote(p))],
            None => Seq::<Seq<char>>::empty(),
        };
        let iw: Seq<Seq<char>> = match c.general.image_width {
            Some(w) => seq![spec_assign("image_width"@, dec_seq(w as nat))],
            None => Seq::<Seq<char>>::empty(),
        };
        let dv: Seq<Seq<char>> = match c.ascii.distro_override {
            Some(o) => seq![spec_assign("distro_override"@, spec_quote(o))],
            None => Seq::<Seq<char>>::empty(),
        };
        assert(lines =~= head + ip + iw + mid + dv);
        if i < head.len() {
            assert(lines[i] == head[i]);
        } else if i < head.len() + ip.len() {
            assert(lines[i] == ip[i - head.len()]);
        } else if i < head.len() + ip.len() + iw.len() {
            assert(lines[i] == iw[i - head.len() - ip.len()]);
        } else if i < head.len() + ip.len() + iw.len() + mid.len() {
            assert(lines[i] == mid[i - head.len() - ip.len() - iw.len()]);
        } else {
            assert(lines[i] == dv[i - head.len() - ip.len() - iw.len() - mid.len()]);
        }
    }
}

/// The parser sees exactly the lines the serializer wrote: splitting a
/// serialized configuration on newlines recovers the serialized lines,
/// provided no text field holds a newline itself.
pub proof fn lemma_serialized_lines_recovered(c: ConfView)
    requires
        conf_nl_free(c),
    ensures
        spec_split(spec_serialize_config(c), '\n') == spec_serialize_lines(c),
{
    reveal_strlit("\n");
    lemma_serialize_lines_nl_free(c);
    assert(spec_serialize_lines(c).len() >= 1);
    assert("\n"@ =~= seq!['\n']);
    crate::text::lemma_split_of_join(spec_serialize_lines(c), '\n');
}

/// Parsing one written assignment line applies exactly that key and value:
/// the section is unchanged and the configuration is updated through
/// `spec_apply_kv`.
proof fn lemma_parse_assign(sec: int, c: ConfView, key: Seq<char>, val: Seq<char>)
    requires
        key.len() > 0,
        !crate::text::is_space(key[0]),
        !crate::text::is_space(key[key.len() - 1]),
        key[0] != '#',
        key[0] != '[',
        forall|j: int| 0 <= j < key.len() ==> #[trigger] key[j] != '=',
        val.len() > 0,
        !crate::text::is_space(val[0]),
        !crate::text::is_space(val[val.len() - 1]),
    ensures
        spec_parse_line(sec, c, spec_assign(key, val)) == (sec, spec_apply_kv(sec, c, key, val)),
{
    reveal_strlit(" = ");
    let l = spec_assign(key, val);
    let pos = key.len() as int + 1;
    assert(l.len() == key.len() + 3 + val.len());
    assert(l[0] == key[0]);
    assert(l[l.len() - 1] == val[val.len() - 1]);
    crate::text::lemma_trim_id(l);
    assert(l[pos] == '=') by {
        assert(l[pos] == " = "@[1]);
    }
    assert forall|j: int| 0 <= j < pos implies l[j] != '=' by {
        if j < key.len() {
            assert(l[j] == key[j]);
        } else {
            assert(l[j] == " = "@[0]);
        }
    }
    crate::text::lemma_find_at(l, '=', pos);
    assert(l.subrange(0, pos) =~= key + seq![' ']) by {
        assert(forall|j: int|
            0 <= j < key.len() ==> #[trigger] l.subrange(0, pos)[j] == key[j]);
        assert(l.subrange(0, pos)[key.len() as int] == " = "@[0]);
    }
    crate::text::lemma_trim_one_space_end(key);
    assert(l.subrange(pos + 1, l.len() as int) =~= seq![' '] + val) by {
        assert(l.subrange(pos + 1, l.len() as int)[0] == " = "@[2]);
        assert(forall|j: int|
            0 <= j < val.len() ==> #[trigger] l.subrange(pos + 1, l.len() as int)[j + 1]
                == val[j]);
    }
    crate::text::lemma_trim_one_space(val);
}

/// A section header line only switches the section.
proof fn lemma_parse_header(sec: int, c: ConfView)
    ensures
        spec_parse_line(sec, c, "[general]"@) == (1int, c),
        spec_parse_line(sec, c, "[theme]"@) == (2int, c),
        spec_parse_line(sec, c, "[ascii]"@) == (3int, c),
{
    reveal_strlit("[general]");
    reveal_strlit("[theme]");
    reveal_strlit("[ascii]");
    crate::text::lemma_trim_id("[general]"@);
    crate::text::lemma_trim_id("[theme]"@);
    crate::text::lemma_trim_id("[ascii]"@);
    assert("[general]"@ != "[theme]"@) by {
        assert("[general]"@.len() != "[theme]"@.len());
    }
    assert("[general]"@ != "[ascii]"@) by {
        assert("[general]"@[1] != "[ascii]"@[1]);
    }
    assert("[theme]"@ != "[ascii]"@) by {
        assert("[theme]"@[1] != "[ascii]"@[1]);
    }
}

/// A blank line changes nothing.
proof fn lemma_parse_blank(sec: int, c: ConfView)
    ensures
        spec_parse_line(sec, c, Seq::<char>::empty()) == (sec, c),
{
    assert(crate::text::trim_start(Seq::<char>::empty()) == Seq::<char>::empty());
    assert(crate::text::trim_end(Seq::<char>::empty()) == Seq::<char>::empty());
}

proof fn lemma_dec_ends(n: nat)
    ensures
        dec_seq(n).len() >= 1,
        !crate::text::is_space(dec_seq(n)[0]),
        !crate::text::is_space(dec_seq(n)[dec_seq(n).len() - 1]),
        forall|j: int| 0 <= j < dec_seq(n).len() ==> #[trigger] dec_seq(n)[j] != ',',
{
    crate::numfmt::lemma_dec_seq_digit_range(n);
}

/// Parsing a written color triple yields the triple back.
proof fn lemma_rgb_parse(col: Rgb)
    ensures
        spec_parse_rgb(spec_rgb_str(col)) == Some(col),
{
    reveal_strlit("[");
    reveal_strlit("]");
    reveal_strlit(", ");
    let v = spec_rgb_str(col);
    let dr = dec_seq(col.r as nat);
    let dg = dec_seq(col.g as nat);
    let db = dec_seq(col.b as nat);
    lemma_dec_ends(col.r as nat);
    lemma_dec_ends(col.g as nat);
    lemma_dec_ends(col.b as nat);
    assert(v.len() == 2 + dr.len() + 2 + dg.len() + 2 + db.len());
    assert(v[0] == '[');
    assert(v[v.len() - 1] == ']');
    let inner = v.subrange(1, v.len() - 1);
    let tail2 = seq![' '] + db;
    let tail1 = seq![' '] + dg + seq![','] + tail2;
    assert(inner =~= dr + seq![','] + tail1);
    crate::text::lemma_split_sep_prefix(dr, tail1, ',');
    assert forall|j: int| 0 <= j < (seq![' '] + dg).len() implies (seq![' '] + dg)[j] != ',' by {
        if j > 0 {
            assert((seq![' '] + dg)[j] == dg[j - 1]);
        }
    }
    assert(tail1 =~= (seq![' '] + dg) + seq![','] + tail2);
    crate::text::lemma_split_sep_prefix(seq![' '] + dg, tail2, ',');
    assert forall|j: int| 0 <= j < tail2.len() implies tail2[j] != ',' by {
        if j > 0 {
            assert(tail2[j] == db[j - 1]);
        }
    }
    crate::text::lemma_split_no_sep(tail2, ',');
    let parts = spec_split(inner, ',');
    assert(parts =~= seq![dr, seq![' '] + dg, seq![' '] + db]);
    assert(parts.len() == 3);
    crate::text::lemma_trim_id(dr);
    crate::text::lemma_trim_one_space(dg);
    crate::text::lemma_trim_one_space(db);
    lemma_u64_parse(col.r as u64);
    lemma_u64_parse(col.g as u64);
    lemma_u64_parse(col.b as u64);
}

proof fn lemma_quote_ends(k: Seq<char>)
    ensures
        spec_quote(k).len() >= 2,
        spec_quote(k)[0] == '"',
        spec_quote(k)[spec_quote(k).len() - 1] == '"',
{
    reveal_strlit("\"");
}

/// The segments a written string list splits into: the first entry bare,
/// later entries with the separating space still attached.
proof fn lemma_list_segments(l: Seq<Seq<char>>)
    requires
        l.len() >= 1,
        forall|i: int, j: int|
            0 <= i < l.len() && 0 <= j < l[i].len() ==> #[trigger] l[i][j] != ',',
    ensures
        spec_split(spec_join(spec_quoted_list(l, 0), ", "@), ',') == Seq::new(
            l.len(),
            |i: int|
                if i == 0 {
                    spec_quote(l[0])
                } else {
                    seq![' '] + spec_quote(l[i])
                },
        ),
    decreases l.len(),
{
    reveal_strlit(", ");
    reveal_strlit("\"");
    let q = spec_quoted_list(l, 0);
    let expect = Seq::new(
        l.len(),
        |i: int|
            if i == 0 {
                spec_quote(l[0])
            } else {
                seq![' '] + spec_quote(l[i])
            },
    );
    assert forall|j: int| 0 <= j < spec_quote(l[0]).len() implies spec_quote(l[0])[j] != ',' by {
        if j == 0 || j == spec_quote(l[0]).len() - 1 {
            lemma_quote_ends(l[0]);
        } else {
            assert(spec_quote(l[0])[j] == l[0][j - 1]);
        }
    }
    lemma_quoted_list_len(l, 0);
    if l.len() == 1 {
        assert(q =~~= seq![spec_quote(l[0])]);
        assert(spec_join(q, ", "@) == spec_quote(l[0]));
        crate::text::lemma_split_no_sep(spec_quote(l[0]), ',');
        assert(spec_split(spec_join(q, ", "@), ',') =~= expect);
    } else {
        let tail = l.drop_first();
        assert forall|i: int, j: int|
            0 <= i < tail.len() && 0 <= j < tail[i].len() implies #[trigger] tail[i][j]
            != ',' by {
            assert(tail[i] == l[i + 1]);
        }
        lemma_list_segments(tail);
        let qt = spec_quoted_list(tail, 0);
        assert(spec_quoted_list(l, 1) =~~= qt) by {
            lemma_quoted_list_shift(l, 1);
        }
        assert(q == seq![spec_quote(l[0])] + spec_quoted_list(l, 1));
        assert(spec_join(q, ", "@) == spec_quote(l[0]) + ", "@ + spec_join(qt, ", "@)) by {
            assert(q.len() >= 2);
            assert(q[0] == spec_quote(l[0]));
            assert(q.drop_first() =~= qt);
        }
        let rest = seq![' '] + spec_join(qt, ", "@);
        assert(spec_join(q, ", "@) =~= spec_quote(l[0]) + seq![','] + rest);
        crate::text::lemma_split_sep_prefix(spec_quote(l[0]), rest, ',');
        // One leading space attaches to the first segment of the rest.
        let sr = spec_split(spec_join(qt, ", "@), ',');
        assert(rest[0] == ' ');
        assert(rest.drop_first() =~= spec_join(qt, ", "@));
        assert(spec_split(rest, ',') =~= seq![seq![' '] + sr[0]] + sr.drop_first()) by {
            crate::text::lemma_split_len(spec_join(qt, ", "@), ',');
        }
        assert(spec_split(spec_join(q, ", "@), ',') =~= expect) by {
            assert(sr == Seq::new(
                tail.len(),
                |i: int|
                    if i == 0 {
                        spec_quote(tail[0])
                    } else {
                        seq![' '] + spec_quote(tail[i])
                    },
            ));
            assert forall|i: int| 0 <= i < l.len() implies (seq![spec_quote(l[0])] + (seq![
                seq![' '] + sr[0],
            ] + sr.drop_first()))[i] == expect[i] by {
                if i == 1 {
                    assert(sr[0] == spec_quote(tail[0]));
                    assert(tail[0] == l[1]);
                } else if i > 1 {
                    assert(sr.drop_first()[i - 2] == sr[i - 1]);
                    assert(sr[i - 1] == seq![' '] + spec_quote(tail[i - 1]));
                    assert(tail[i - 1] == l[i]);
                }
            }
        }
    }
}

proof fn lemma_quoted_list_len(l: Seq<Seq<char>>, i: int)
    requires
        0 <= i <= l.len(),
    ensures
        spec_quoted_list(l, i).len() == l.len() - i,
        forall|k: int|
            0 <= k < l.len() - i ==> #[trigger] spec_quoted_list(l, i)[k] == spec_quote(l[i + k]),
    decreases l.len() - i,
{
    if i < l.len() {
        lemma_quoted_list_len(l, i + 1);
        assert forall|k: int| 0 <= k < l.len() - i implies #[trigger] spec_quoted_list(l, i)[k]
            == spec_quote(l[i + k]) by {
            if k > 0 {
                assert(spec_quoted_list(l, i)[k] == spec_quoted_list(l, i + 1)[k - 1]);
            }
        }
    }
}

proof fn lemma_quoted_list_shift(l: Seq<Seq<char>>, i: int)
    requires
        0 <= i <= l.len(),
    ensures
        spec_quoted_list(l, i) =~~= spec_quoted_list(l.subrange(i, l.len() as int), 0),
    decreases l.len() - i,
{
    lemma_quoted_list_shift_gen(l, l.subrange(i, l.len() as int), i, 0);
}

proof fn lemma_quoted_list_shift_gen(a: Seq<Seq<char>>, b: Seq<Seq<char>>, i: int, j: int)
    requires
        0 <= j,
        0 <= i <= a.len(),
        a.len() - i == b.len() - j,
        forall|k: int| i <= k < a.len() ==> a[k] == b[k - i + j],
    ensures
        spec_quoted_list(a, i) =~~= spec_quoted_list(b, j),
    decreases a.len() - i,
{
    if i < a.len() {
        lemma_quoted_list_shift_gen(a, b, i + 1, j + 1);
    }
}

/// Parsing a written string list yields the entries back, provided none
/// holds a comma.
proof fn lemma_list_parse(l: Seq<Seq<char>>)
    requires
        forall|i: int, j: int|
            0 <= i < l.len() && 0 <= j < l[i].len() ==> #[trigger] l[i][j] != ',',
    ensures
        spec_parse_str_list(spec_list_str(l)) == Some(l),
{
    reveal_strlit("[");
    reveal_strlit("]");
    reveal_strlit("\"");
    let v = spec_list_str(l);
    let joined = spec_join(spec_quoted_list(l, 0), ", "@);
    assert(v.len() == 2 + joined.len());
    assert(v[0] == '[');
    assert(v[v.len() - 1] == ']');
    let inner = v.subrange(1, v.len() - 1);
    assert(inner =~= joined);
    if l.len() == 0 {
        assert(spec_quoted_list(l, 0) =~= Seq::<Seq<char>>::empty());
        assert(joined == Seq::<char>::empty());
        assert(spec_trim(inner).len() == 0) by {
            lemma_parse_blank(0, spec_default_conf());
            assert(crate::text::trim_start(Seq::<char>::empty()) == Seq::<char>::empty());
            assert(crate::text::trim_end(Seq::<char>::empty()) == Seq::<char>::empty());
        }
        assert(spec_parse_str_list(v) == Some(Seq::<Seq<char>>::empty()));
        assert(Seq::<Seq<char>>::empty() =~= l);
    } else {
        lemma_list_segments(l);
        let segs = spec_split(inner, ',');
        assert(segs.len() == l.len());
        // The inner text begins and ends with a quote, so it does not trim
        // to nothing.
        lemma_quote_ends(l[0]);
        lemma_quoted_list_len(l, 0);
        assert(joined[0] == '"') by {
            assert(spec_quoted_list(l, 0)[0] == spec_quote(l[0]));
            if l.len() == 1 {
                assert(joined == spec_quote(l[0]));
            } else {
                assert(joined == spec_quote(l[0]) + ", "@ + spec_join(
                    spec_quoted_list(l, 0).drop_first(),
                    ", "@,
                ));
                assert(joined[0] == spec_quote(l[0])[0]);
            }
        }
        assert(spec_trim(inner).len() > 0) by {
            assert(crate::text::trim_start(inner) == inner);
            lemma_trim_end_len(inner);
        }
        lemma_collect_segments(l, segs, 0);
    }
}

/// Trimming the end keeps a text whose first character is not whitespace
/// non-empty.
proof fn lemma_trim_end_len(s: Seq<char>)
    requires
        s.len() > 0,
        !crate::text::is_space(s[0]),
    ensures
        crate::text::trim_end(s).len() > 0,
    decreases s.len(),
{
    if crate::text::is_space(s[s.len() - 1]) {
        assert(s.len() >= 2);
        assert(s.drop_last()[0] == s[0]);
        lemma_trim_end_len(s.drop_last());
    }
}

proof fn lemma_collect_segments(l: Seq<Seq<char>>, segs: Seq<Seq<char>>, i: int)
    requires
        0 <= i <= l.len(),
        segs.len() == l.len(),
        forall|k: int|
            0 <= k < segs.len() ==> #[trigger] segs[k] == (if k == 0 {
                spec_quote(l[0])
            } else {
                seq![' '] + spec_quote(l[k])
            }),
    ensures
        spec_collect_strs(segs, i) == Some(l.subrange(i, l.len() as int)),
    decreases l.len() - i,
{
    reveal_strlit("\"");
    if i >= l.len() {
        assert(l.subrange(i, l.len() as int) =~= Seq::<Seq<char>>::empty());
    } else {
        lemma_collect_segments(l, segs, i + 1);
        lemma_quote_ends(l[i]);
        let q = spec_quote(l[i]);
        if i == 0 {
            crate::text::lemma_trim_id(q);
        } else {
            crate::text::lemma_trim_one_space(q);
        }
        lemma_quote_parse(l[i]);
        assert(spec_parse_string(spec_trim(segs[i])) == Some(l[i]));
        assert(seq![l[i]] + l.subrange(i + 1, l.len() as int) =~= l.subrange(i, l.len() as int));
    }
}

proof fn lemma_step_assign(
    lines: Seq<Seq<char>>,
    i: int,
    sec: int,
    cfg: ConfView,
    key: Seq<char>,
    val: Seq<char>,
)
    requires
        0 <= i < lines.len(),
        lines[i] == spec_assign(key, val),
        key.len() > 0,
        !crate::text::is_space(key[0]),
        !crate::text::is_space(key[key.len() - 1]),
        key[0] != '#',
        key[0] != '[',
        forall|j: int| 0 <= j < key.len() ==> #[trigger] key[j] != '=',
        val.len() > 0,
        !crate::text::is_space(val[0]),
        !crate::text::is_space(val[val.len() - 1]),
    ensures
        spec_parse_lines(lines, i, sec, cfg) == spec_parse_lines(
            lines,
            i + 1,
            sec,
            spec_apply_kv(sec, cfg, key, val),
        ),
{
    lemma_parse_assign(sec, cfg, key, val);
}

proof fn lemma_step_blank(lines: Seq<Seq<char>>, i: int, sec: int, cfg: ConfView)
    requires
        0 <= i < lines.len(),
        lines[i] == Seq::<char>::empty(),
    ensures
        spec_parse_lines(lines, i, sec, cfg) == spec_parse_lines(lines, i + 1, sec, cfg),
{
    lemma_parse_blank(sec, cfg);
}

proof fn lemma_step_header(lines: Seq<Seq<char>>, i: int, sec: int, cfg: ConfView, ns: int)
    requires
        0 <= i < lines.len(),
        1 <= ns <= 3,
        ns == 1 ==> lines[i] == "[general]"@,
        ns == 2 ==> lines[i] == "[theme]"@,
        ns == 3 ==> lines[i] == "[ascii]"@,
    ensures
        spec_parse_lines(lines, i, sec, cfg) == spec_parse_lines(lines, i + 1, ns, cfg),
{
    lemma_parse_header(sec, cfg);
}

proof fn lemma_quote_val_shape(v: Seq<char>)
    ensures
        spec_quote(v).len() > 0,
        !crate::text::is_space(spec_quote(v)[0]),
        !crate::text::is_space(spec_quote(v)[spec_quote(v).len() - 1]),
{
    lemma_quote_ends(v);
}

proof fn lemma_bool_val_shape(b: bool)
    ensures
        spec_bool_str(b).len() > 0,
        !crate::text::is_space(spec_bool_str(b)[0]),
        !crate::text::is_space(spec_bool_str(b)[spec_bool_str(b).len() - 1]),
{
    reveal_strlit("true");
    reveal_strlit("false");
}

proof fn lemma_rgb_val_shape(c: Rgb)
    ensures
        spec_rgb_str(c).len() > 0,
        !crate::text::is_space(spec_rgb_str(c)[0]),
        !crate::text::is_space(spec_rgb_str(c)[spec_rgb_str(c).len() - 1]),
{
    reveal_strlit("[");
    reveal_strlit("]");
    let v = spec_rgb_str(c);
    assert(v[0] == '[');
    assert(v[v.len() - 1] == ']');
}

proof fn lemma_list_val_shape(l: Seq<Seq<char>>)
    ensures
        spec_list_str(l).len() > 0,
        !crate::text::is_space(spec_list_str(l)[0]),
        !crate::text::is_space(spec_list_str(l)[spec_list_str(l).len() - 1]),
{
    reveal_strlit("[");
    reveal_strlit("]");
    let v = spec_list_str(l);
    assert(v[0] == '[');
    assert(v[v.len() - 1] == ']');
}

/// The interim configuration after the whole general section: the written
/// general options and layout over otherwise default values.
pub open spec fn spec_gen_applied(c: ConfView) -> ConfView {
    ConfView {
        general: c.general,
        theme: spec_default_conf().theme,
        ascii: spec_default_conf().ascii,
        layout: c.layout,
    }
}

/// The line index where the theme section starts.
pub open spec fn spec_mid_start(c: ConfView) -> int {
    10 + (match c.general.image_path {
        Some(p) => 1int,
        None => 0int,
    }) + (match c.general.image_width {
        Some(w) => 1int,
        None => 0int,
    })
}

/// The interim configuration after the layout line: the written layout
/// over otherwise default values.
pub open spec fn spec_layout_applied(c: ConfView) -> ConfView {
    ConfView { layout: c.layout, ..spec_default_conf() }
}

#[verifier::rlimit(100)]
proof fn lemma_fold_layout(c: ConfView)
    requires
        forall|i: int, j: int|
            0 <= i < c.layout.len() && 0 <= j < c.layout[i].len() ==> #[trigger] c.layout[i][j]
                != ',',
    ensures
        spec_parse_lines(spec_serialize_lines(c), 0, 0, spec_default_conf()) == spec_parse_lines(
            spec_serialize_lines(c),
            3,
            1,
            spec_layout_applied(c),
        ),
{
    reveal_strlit("layout");
    let lines = spec_serialize_lines(c);
    let head = spec_lines_head(c);
    let mid = spec_lines_mid(c);
    let ip: Seq<Seq<char>> = match c.general.image_path {
        Some(p) => seq![spec_assign("image_path"@, spec_quote(p))],
        None => Seq::<Seq<char>>::empty(),
    };
    let iw: Seq<Seq<char>> = match c.general.image_width {
        Some(w) => seq![spec_assign("image_width"@, dec_seq(w as nat))],
        None => Seq::<Seq<char>>::empty(),
    };
    let dv: Seq<Seq<char>> = match c.ascii.distro_override {
        Some(o) => seq![spec_assign("distro_override"@, spec_quote(o))],
        None => Seq::<Seq<char>>::empty(),
    };
    assert(lines =~= head + ip + iw + mid + dv);
    assert(head.len() == 10);
    let d = spec_default_conf();
    let g0 = spec_layout_applied(c);
    assert(lines[0] == head[0]);
    lemma_list_val_shape(c.layout);
    lemma_step_assign(lines, 0, 0, d, "layout"@, spec_list_str(c.layout));
    assert(spec_apply_kv(0, d, "layout"@, spec_list_str(c.layout)) =~~= g0) by {
        lemma_list_parse(c.layout);
    }
    assert(lines[1] == head[1]);
    lemma_step_blank(lines, 1, 0, g0);
    assert(lines[2] == head[2]);
    lemma_step_header(lines, 2, 0, g0, 1);
}

#[verifier::rlimit(100)]
proof fn lemma_fold_general(c: ConfView)
    requires
        forall|i: int, j: int|
            0 <= i < c.layout.len() && 0 <= j < c.layout[i].len() ==> #[trigger] c.layout[i][j]
                != ',',
    ensures
        spec_parse_lines(spec_serialize_lines(c), 0, 0, spec_default_conf()) == spec_parse_lines(
            spec_serialize_lines(c),
            spec_mid_start(c),
            1,
            spec_gen_applied(c),
        ),
{
    reveal_strlit("layout");
    reveal_strlit("separator");
    reveal_strlit("use_nerd_fonts");
    reveal_strlit("align_values");
    reveal_strlit("unit_type");
    reveal_strlit("show_memory_bar");
    reveal_strlit("show_cpu_bar");
    reveal_strlit("show_disk_bar");
    reveal_strlit("image_path");
    reveal_strlit("image_width");
    let lines = spec_serialize_lines(c);
    let head = spec_lines_head(c);
    let mid = spec_lines_mid(c);
    let ip: Seq<Seq<char>> = match c.general.image_path {
        Some(p) => seq![spec_assign("image_path"@, spec_quote(p))],
        None => Seq::<Seq<char>>::empty(),
    };
    let iw: Seq<Seq<char>> = match c.general.image_width {
        Some(w) => seq![spec_assign("image_width"@, dec_seq(w as nat))],
        None => Seq::<Seq<char>>::empty(),
    };
    let dv: Seq<Seq<char>> = match c.ascii.distro_override {
        Some(o) => seq![spec_assign("distro_override"@, spec_quote(o))],
        None => Seq::<Seq<char>>::empty(),
    };
    assert(lines =~= head + ip + iw + mid + dv);
    let ipl = ip.len() as int;
    let iwl = iw.len() as int;
    assert(head.len() == 10);
    assert(mid.len() == 9);
    assert(lines.len() == 19 + ipl + iwl + dv.len());
    let d = spec_default_conf();
    lemma_fold_layout(c);
    let g0 = spec_layout_applied(c);
    // The fixed general options.
    let g1 = ConfView { general: GeneralView { separator: c.general.separator, ..d.general }, ..g0 };
    assert(g0.general == d.general);
    assert(lines[3] == head[3]);
    lemma_quote_val_shape(c.general.separator);
    lemma_step_assign(lines, 3, 1, g0, "separator"@, spec_quote(c.general.separator));
    assert(spec_apply_kv(1, g0, "separator"@, spec_quote(c.general.separator)) =~~= g1) by {
        lemma_quote_parse(c.general.separator);
    }
    let g2 = ConfView {
        general: GeneralView { use_nerd_fonts: c.general.use_nerd_fonts, ..g1.general },
        ..g1
    };
    assert(lines[4] == head[4]);
    lemma_bool_val_shape(c.general.use_nerd_fonts);
    lemma_step_assign(lines, 4, 1, g1, "use_nerd_fonts"@, spec_bool_str(c.general.use_nerd_fonts));
    assert(spec_apply_kv(1, g1, "use_nerd_fonts"@, spec_bool_str(c.general.use_nerd_fonts)) =~~= g2)
        by {
        lemma_bool_parse(c.general.use_nerd_fonts);
    }
    let g3 = ConfView {
        general: GeneralView { align_values: c.general.align_values, ..g2.general },
        ..g2
    };
    assert(lines[5] == head[5]);
    lemma_bool_val_shape(c.general.align_values);
    lemma_step_assign(lines, 5, 1, g2, "align_values"@, spec_bool_str(c.general.align_values));
    assert(spec_apply_kv(1, g2, "align_values"@, spec_bool_str(c.general.align_values)) =~~= g3)
        by {
        lemma_bool_parse(c.general.align_values);
    }
    let g4 = ConfView {
        general: GeneralView { unit_type: c.general.unit_type, ..g3.general },
        ..g3
    };
    assert(lines[6] == head[6]);
    lemma_quote_val_shape(c.general.unit_type);
    lemma_step_assign(lines, 6, 1, g3, "unit_type"@, spec_quote(c.general.unit_type));
    assert(spec_apply_kv(1, g3, "unit_type"@, spec_quote(c.general.unit_type)) =~~= g4) by {
        lemma_quote_parse(c.general.unit_type);
    }
    let g5 = ConfView {
        general: GeneralView { show_memory_bar: c.general.show_memory_bar, ..g4.general },
        ..g4
    };
    assert(lines[7] == head[7]);
    lemma_bool_val_shape(c.general.show_memory_bar);
    lemma_step_assign(
        lines,
        7,
        1,
        g4,
        "show_memory_bar"@,
        spec_bool_str(c.general.show_memory_bar),
    );
    assert(spec_apply_kv(1, g4, "show_memory_bar"@, spec_bool_str(c.general.show_memory_bar))
        =~~= g5) by {
        lemma_bool_parse(c.general.show_memory_bar);
    }
    let g6 = ConfView {
        general: GeneralView { show_cpu_bar: c.general.show_cpu_bar, ..g5.general },
        ..g5
    };
    assert(lines[8] == head[8]);
    lemma_bool_val_shape(c.general.show_cpu_bar);
    lemma_step_assign(lines, 8, 1, g5, "show_cpu_bar"@, spec_bool_str(c.general.show_cpu_bar));
    assert(spec_apply_kv(1, g5, "show_cpu_bar"@, spec_bool_str(c.general.show_cpu_bar)) =~~= g6)
        by {
        lemma_bool_parse(c.general.show_cpu_bar);
    }
    let g7 = ConfView {
        general: GeneralView { show_disk_bar: c.general.show_disk_bar, ..g6.general },
        ..g6
    };
    assert(lines[9] == head[9]);
    lemma_bool_val_shape(c.general.show_disk_bar);
    lemma_step_assign(lines, 9, 1, g6, "show_disk_bar"@, spec_bool_str(c.general.show_disk_bar));
    assert(spec_apply_kv(1, g6, "show_disk_bar"@, spec_bool_str(c.general.show_disk_bar)) =~~= g7)
        by {
        lemma_bool_parse(c.general.show_disk_bar);
    }
    assert(spec_parse_lines(lines, 3, 1, g0) == spec_parse_lines(lines, 10, 1, g7));
    // The optional image options; afterwards the general section holds
    // exactly the written one.
    let cg = ConfView { general: c.general, ..g7 };
    let mut_idx = 10 + ipl + iwl;
    assert(mut_idx == spec_mid_start(c));
    match c.general.image_path {
        Some(p) => {
            assert(lines[10] == ip[0]);
            lemma_quote_val_shape(p);
            lemma_step_assign(lines, 10, 1, g7, "image_path"@, spec_quote(p));
            let g8 = ConfView {
                general: GeneralView { image_path: Some(p), ..g7.general },
                ..g7
            };
            assert(spec_apply_kv(1, g7, "image_path"@, spec_quote(p)) =~~= g8) by {
                lemma_quote_parse(p);
            }
            match c.general.image_width {
                Some(w) => {
                    assert(lines[11] == iw[0]);
                    lemma_dec_ends(w as nat);
                    lemma_step_assign(lines, 11, 1, g8, "image_width"@, dec_seq(w as nat));
                    assert(spec_apply_kv(1, g8, "image_width"@, dec_seq(w as nat)) =~~= cg) by {
                        lemma_u64_parse(w as u64);
                    }
                },
                None => {
                    assert(g8 =~~= cg);
                },
            }
        },
        None => {
            match c.general.image_width {
                Some(w) => {
                    assert(lines[10] == iw[0]);
                    lemma_dec_ends(w as nat);
                    lemma_step_assign(lines, 10, 1, g7, "image_width"@, dec_seq(w as nat));
                    assert(spec_apply_kv(1, g7, "image_width"@, dec_seq(w as nat)) =~~= cg) by {
                        lemma_u64_parse(w as u64);
                    }
                },
                None => {
                    assert(g7 =~~= cg);
                },
            }
        },
    }
    assert(spec_parse_lines(lines, 10, 1, g7) == spec_parse_lines(lines, mut_idx, 1, cg));
    assert(cg =~~= spec_gen_applied(c));
}

#[verifier::rlimit(100)]
proof fn lemma_fold_tail(c: ConfView)
    ensures
        spec_parse_lines(
            spec_serialize_lines(c),
            spec_mid_start(c),
            1,
            spec_gen_applied(c),
        ) == c,
{
    reveal_strlit("mode");
    reveal_strlit("primary_color");
    reveal_strlit("secondary_color");
    reveal_strlit("text_color");
    reveal_strlit("print_ascii");
    reveal_strlit("distro_override");
    let lines = spec_serialize_lines(c);
    let head = spec_lines_head(c);
    let mid = spec_lines_mid(c);
    let ip: Seq<Seq<char>> = match c.general.image_path {
        Some(p) => seq![spec_assign("image_path"@, spec_quote(p))],
        None => Seq::<Seq<char>>::empty(),
    };
    let iw: Seq<Seq<char>> = match c.general.image_width {
        Some(w) => seq![spec_assign("image_width"@, dec_seq(w as nat))],
        None => Seq::<Seq<char>>::empty(),
    };
    let dv: Seq<Seq<char>> = match c.ascii.distro_override {
        Some(o) => seq![spec_assign("distro_override"@, spec_quote(o))],
        None => Seq::<Seq<char>>::empty(),
    };
    assert(lines =~= head + ip + iw + mid + dv);
    let ipl = ip.len() as int;
    let iwl = iw.len() as int;
    assert(head.len() == 10);
    assert(mid.len() == 9);
    assert(lines.len() == 19 + ipl + iwl + dv.len());
    let d = spec_default_conf();
    let cg = spec_gen_applied(c);
    let mut_idx = spec_mid_start(c);
    // The theme section.
    let m0 = mut_idx;
    assert(lines[m0] == mid[0]);
    lemma_step_blank(lines, m0, 1, cg);
    assert(lines[m0 + 1] == mid[1]);
    lemma_step_header(lines, m0 + 1, 1, cg, 2);
    let t1 = ConfView { theme: ThemeView { mode: c.theme.mode, ..d.theme }, ..cg };
    assert(lines[m0 + 2] == mid[2]);
    lemma_quote_val_shape(c.theme.mode);
    lemma_step_assign(lines, m0 + 2, 2, cg, "mode"@, spec_quote(c.theme.mode));
    assert(spec_apply_kv(2, cg, "mode"@, spec_quote(c.theme.mode)) =~~= t1) by {
        lemma_quote_parse(c.theme.mode);
    }
    let t2 = ConfView {
        theme: ThemeView { primary_color: c.theme.primary_color, ..t1.theme },
        ..t1
    };
    assert(lines[m0 + 3] == mid[3]);
    lemma_rgb_val_shape(c.theme.primary_color);
    lemma_step_assign(lines, m0 + 3, 2, t1, "primary_color"@, spec_rgb_str(c.theme.primary_color));
    assert(spec_apply_kv(2, t1, "primary_color"@, spec_rgb_str(c.theme.primary_color)) =~~= t2)
        by {
        lemma_rgb_parse(c.theme.primary_color);
    }
    let t3 = ConfView {
        theme: ThemeView { secondary_color: c.theme.secondary_color, ..t2.theme },
        ..t2
    };
    assert(lines[m0 + 4] == mid[4]);
    lemma_rgb_val_shape(c.theme.secondary_color);
    lemma_step_assign(
        lines,
        m0 + 4,
        2,
        t2,
        "secondary_color"@,
        spec_rgb_str(c.theme.secondary_color),
    );
    assert(spec_apply_kv(2, t2, "secondary_color"@, spec_rgb_str(c.theme.secondary_color)) =~~= t3)
        by {
        lemma_rgb_parse(c.theme.secondary_color);
    }
    let t4 = ConfView { theme: c.theme, ..t3 };
    assert(lines[m0 + 5] == mid[5]);
    lemma_rgb_val_shape(c.theme.text_color);
    lemma_step_assign(lines, m0 + 5, 2, t3, "text_color"@, spec_rgb_str(c.theme.text_color));
    assert(spec_apply_kv(2, t3, "text_color"@, spec_rgb_str(c.theme.text_color)) =~~= t4) by {
        lemma_rgb_parse(c.theme.text_color);
    }
    // The ascii section.
    assert(lines[m0 + 6] == mid[6]);
    lemma_step_blank(lines, m0 + 6, 2, t4);
    assert(lines[m0 + 7] == mid[7]);
    lemma_step_header(lines, m0 + 7, 2, t4, 3);
    let a1 = ConfView {
        ascii: AsciiView { print_ascii: c.ascii.print_ascii, ..d.ascii },
        ..t4
    };
    assert(lines[m0 + 8] == mid[8]);
    lemma_bool_val_shape(c.ascii.print_ascii);
    lemma_step_assign(lines, m0 + 8, 3, t4, "print_ascii"@, spec_bool_str(c.ascii.print_ascii));
    assert(spec_apply_kv(3, t4, "print_ascii"@, spec_bool_str(c.ascii.print_ascii)) =~~= a1) by {
        lemma_bool_parse(c.ascii.print_ascii);
    }
    assert(spec_parse_lines(lines, mut_idx, 1, cg) == spec_parse_lines(lines, m0 + 9, 3, a1));
    match c.ascii.distro_override {
        Some(o) => {
            assert(lines[m0 + 9] == dv[0]);
            lemma_quote_val_shape(o);
            lemma_step_assign(lines, m0 + 9, 3, a1, "distro_override"@, spec_quote(o));
            assert(spec_apply_kv(3, a1, "distro_override"@, spec_quote(o)) =~~= c) by {
                lemma_quote_parse(o);
            }
            assert(spec_parse_lines(lines, m0 + 10, 3, c) == c);
        },
        None => {
            assert(a1 =~~= c);
            assert(spec_parse_lines(lines, m0 + 9, 3, a1) == a1);
        },
    }
}

/// The configuration file round trip: parsing a serialized configuration
/// yields a structurally equal configuration, provided no text field holds
/// a newline and no layout key holds a comma.
pub proof fn lemma_config_round_trip(c: ConfView)
    requires
        conf_nl_free(c),
        forall|i: int, j: int|
            0 <= i < c.layout.len() && 0 <= j < c.layout[i].len() ==> #[trigger] c.layout[i][j]
                != ',',
    ensures
        spec_parse_config(spec_serialize_config(c)) == c,
{
    lemma_serialized_lines_recovered(c);
    lemma_fold_general(c);
    lemma_fold_tail(c);
}

/// Stripping the quotes written around a value yields the value back.
pub proof fn lemma_quote_parse(v: Seq<char>)
    ensures
        spec_parse_string(spec_quote(v)) == Some(v),
{
    reveal_strlit("\"");
    let q = spec_quote(v);
    assert(q.len() == v.len() + 2);
    assert(q[0] == '"');
    assert(q[q.len() - 1] == '"');
    assert(q.subrange(1, q.len() - 1) =~= v);
}

/// Parsing a written boolean yields the boolean back.
pub proof fn lemma_bool_parse(b: bool)
    ensures
        spec_parse_bool(spec_bool_str(b)) == Some(b),
{
    reveal_strlit("true");
    reveal_strlit("false");
    assert("true"@.len() != "false"@.len());
}

/// Every decimal digit sequence of a 64-bit value is all digits.
proof fn lemma_dec_all_digits(n: nat)
    ensures
        all_digits(dec_seq(n)),
        dec_seq(n).len() >= 1,
    decreases n,
{
    if n < 10 {
        assert(crate::parsers::is_digit(crate::numfmt::digit_char(n)));
    } else {
        lemma_dec_all_digits(n / 10);
        assert(crate::parsers::is_digit(crate::numfmt::digit_char(n % 10)));
        assert(dec_seq(n) == dec_seq(n / 10).push(crate::numfmt::digit_char(n % 10)));
        assert forall|j: int| 0 <= j < dec_seq(n).len() implies crate::parsers::is_digit(
            dec_seq(n)[j],
        ) by {
            if j < dec_seq(n / 10).len() {
                assert(dec_seq(n)[j] == dec_seq(n / 10)[j]);
            }
        }
    }
}

/// The numeric value of a written decimal is the number again.
proof fn lemma_dec_digits_val(n: nat)
    ensures
        digits_val(dec_seq(n)) == n,
    decreases n,
{
    if n < 10 {
        assert(dec_seq(n) == seq![crate::numfmt::digit_char(n)]);
        assert(dec_seq(n).drop_last() =~= Seq::<char>::empty());
        assert(digits_val(Seq::<char>::empty()) == 0);
        assert(crate::parsers::is_digit(crate::numfmt::digit_char(n)));
        assert((crate::numfmt::digit_char(n) as int) - ('0' as int) == n);
        assert(dec_seq(n).last() == crate::numfmt::digit_char(n));
    } else {
        lemma_dec_digits_val(n / 10);
        lemma_dec_all_digits(n / 10);
        let d = crate::numfmt::digit_char(n % 10);
        assert(dec_seq(n) == dec_seq(n / 10).push(d));
        assert(dec_seq(n).drop_last() =~= dec_seq(n / 10));
        assert(dec_seq(n).last() == d);
        assert((d as int) - ('0' as int) == n % 10);
        assert(digits_val(dec_seq(n)) == (n / 10) * 10 + n % 10);
        assert((n / 10) * 10 + n % 10 == n) by {
            vstd::arithmetic::div_mod::lemma_fundamental_div_mod(n as int, 10);
        }
    }
}

/// The decimal form of a value below `10^k` has at most `k` digits.
proof fn lemma_dec_len(n: nat, k: nat)
    requires
        n < pow10(k),
        k >= 1,
    ensures
        dec_seq(n).len() <= k,
    decreases n,
{
    if n < 10 {
    } else {
        assert(pow10(k) == 10 * pow10((k - 1) as nat));
        assert(n / 10 < pow10((k - 1) as nat)) by (nonlinear_arith)
            requires
                n < 10 * pow10((k - 1) as nat),
                n >= 10,
        ;
        assert(k >= 2) by {
            if k == 1 {
                assert(pow10(1nat) == 10) by {
                    reveal_with_fuel(pow10, 2);
                }
            }
        }
        lemma_dec_len(n / 10, (k - 1) as nat);
    }
}

/// Parsing a written 64-bit decimal yields the value back.
pub proof fn lemma_u64_parse(n: u64)
    ensures
        spec_parse_u64(dec_seq(n as nat)) == Some(n as nat),
{
    lemma_dec_all_digits(n as nat);
    lemma_dec_digits_val(n as nat);
    assert(pow10(20) == 100000000000000000000) by {
        reveal_with_fuel(pow10, 21);
    }
    lemma_dec_len(n as nat, 20);
}

} // verus!
