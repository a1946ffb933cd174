//! Parsers over probe output text: shell version extraction, terminal
//! detection, font unquoting, GTK settings files, package list counting,
//! and the PCI vendor listing.

use vstd::prelude::*;

use crate::gpu::{clean_gpu_name, prefer_dedicated_or_join, spec_clean_gpu_name,
    spec_prefer_dedicated};
use crate::item::InfoItem;
use crate::probes::opt_view;
use crate::text::{
    chars_of, contains_chars, eq_chars, find_char_from, find_char, lower_seq, seq_contains,
    spec_collapse, spec_rfind, spec_split, spec_trim, split_chars, string_of, subvec,
    to_lower_chars, trim_chars, collapse_chars, rfind_chars, starts_with_chars, seq_starts_with,
};

verus! {

/// Whether `c` is an ASCII digit.
pub open spec fn is_digit(c: char) -> bool {
    '0' <= c && c <= '9'
}

/// Whether `c` may appear in a version token: a digit or a dot.
pub open spec fn is_verchar(c: char) -> bool {
    is_digit(c) || c == '.'
}

/// The longest prefix of `s` made of digits and dots.
pub open spec fn spec_ver_prefix(s: Seq<char>) -> Seq<char>
    decreases s.len(),
{
    if s.len() > 0 && is_verchar(s[0]) {
        seq![s[0]] + spec_ver_prefix(s.drop_first())
    } else {
        Seq::empty()
    }
}

proof fn lemma_ver_prefix(s: Seq<char>, i: int)
    requires
        0 <= i <= s.len(),
        forall|j: int| 0 <= j < i ==> is_verchar(s[j]),
        i == s.len() || !is_verchar(s[i]),
    ensures
        spec_ver_prefix(s) == s.subrange(0, i),
    decreases s.len(),
{
    if s.len() > 0 && is_verchar(s[0]) {
        assert(i > 0);
        lemma_ver_prefix(s.drop_first(), i - 1);
        assert(s.drop_first().subrange(0, i - 1) =~= s.subrange(1, i));
        assert(seq![s[0]] + s.subrange(1, i) =~= s.subrange(0, i));
    } else {
        assert(s.subrange(0, i) =~= Seq::<char>::empty());
    }
}

fn ver_prefix(v: &Vec<char>) -> (r: Vec<char>)
    ensures
        r@ == spec_ver_prefix(v@),
{
    let n = v.len();
    let mut i: usize = 0;
    while i < n && (('0' <= v[i] && v[i] <= '9') || v[i] == '.')
        invariant
            i <= n,
            n == v@.len(),
            forall|j: int| 0 <= j < i ==> is_verchar(v@[j]),
        decreases n - i,
    {
        i += 1;
    }
    proof {
        lemma_ver_prefix(v@, i as int);
    }
    subvec(v, 0, i)
}

/// The index of the first token that starts with a digit, or -1.
pub open spec fn spec_first_num_token(tokens: Seq<Seq<char>>, i: int) -> int
    decreases tokens.len() - i,
{
    if i < 0 || i >= tokens.len() {
        -1
    } else if tokens[i].len() > 0 && is_digit(tokens[i][0]) {
        i
    } else {
        spec_first_num_token(tokens, i + 1)
    }
}

/// The version extracted from a `--version` first line: the digit-and-dot
/// prefix of the first whitespace token that starts with a digit; empty
/// when there is none.
pub open spec fn spec_shell_version(output: Seq<char>) -> Seq<char> {
    let first_line = spec_split(output, '\n')[0];
    let tokens = spec_split(spec_collapse(first_line), ' ');
    let i = spec_first_num_token(tokens, 0);
    if i < 0 {
        Seq::empty()
    } else {
        spec_ver_prefix(tokens[i])
    }
}

/// Extracts the version token from `--version` output.
pub fn get_shell_version(output: &str) -> (r: Vec<char>)
    ensures
        r@ == spec_shell_version(output@),
{
    let cs = chars_of(output);
    let lines = split_chars(&cs, '\n');
    proof {
        crate::text::lemma_split_len(cs@, '\n');
        assert(lines.deep_view()[0] == lines@[0]@);
    }
    let first = collapse_chars(&lines[0]);
    let tokens = split_chars(&first, ' ');
    let n = tokens.len();
    let mut i: usize = 0;
    while i < n
        invariant
            i <= n,
            n == tokens@.len(),
            tokens.deep_view().len() == n,
            tokens.deep_view() == spec_split(spec_collapse(spec_split(output@, '\n')[0]), ' '),
            spec_first_num_token(tokens.deep_view(), 0) == spec_first_num_token(
                tokens.deep_view(),
                i as int,
            ),
        decreases n - i,
    {
        proof {
            assert(tokens.deep_view()[i as int] == tokens@[i as int]@);
        }
        let t = &tokens[i];
        if t.len() > 0 && '0' <= t[0] && t[0] <= '9' {
            proof {
                assert(spec_first_num_token(tokens.deep_view(), i as int) == i);
            }
            return ver_prefix(t);
        }
        i += 1;
    }
    proof {
        assert(spec_first_num_token(tokens.deep_view(), n as int) == -1);
    }
    Vec::new()
}

/// The shell value: the path's final component, with the extracted version
/// appended when one was found.
pub open spec fn spec_shell_value(path: Option<Seq<char>>, output: Option<Seq<char>>) -> Seq<
    char,
> {
    let p = match path {
        Some(s) => s,
        None => "unknown"@,
    };
    let i = spec_rfind(p, "/"@);
    let name = if i >= 0 {
        p.subrange(i + 1, p.len() as int)
    } else {
        p
    };
    let ver = match output {
        Some(o) => spec_shell_version(o),
        None => Seq::<char>::empty(),
    };
    if ver.len() == 0 {
        name
    } else {
        name + " "@ + ver
    }
}

/// The shell row from the `SHELL` path and the shell's `--version` output.
pub fn shell(path: &Option<String>, version_output: &Option<String>) -> (r: InfoItem)
    ensures
        r.label@ == "Shell"@,
        r.value@ == spec_shell_value(opt_view(*path), opt_view(*version_output)),
{
    let p: String = match path {
        Some(s) => s.clone(),
        None => String::from_str("unknown"),
    };
    let pc = chars_of(p.as_str());
    proof {
        reveal_strlit("/");
    }
    let slash = chars_of("/");
    let name: Vec<char> = match rfind_chars(&pc, &slash) {
        Some(i) => {
            let n = pc.len();
            assert(i < n);
            subvec(&pc, i + 1, n)
        },
        None => pc,
    };
    let ver: Vec<char> = match version_output {
        Some(o) => get_shell_version(o.as_str()),
        None => Vec::new(),
    };
    let mut out = name;
    if ver.len() > 0 {
        proof {
            reveal_strlit(" ");
        }
        out.push(' ');
        crate::text::extend_chars(&mut out, &ver);
        proof {
            assert(" "@ =~= seq![' ']);
            assert(out@ =~= spec_shell_value(opt_view(*path), opt_view(*version_output)));
        }
    }
    InfoItem { label: String::from_str("Shell"), value: string_of(&out) }
}

/// Whether a process name looks like a terminal emulator.
pub open spec fn spec_is_likely_terminal(name: Seq<char>) -> bool {
    let lower = lower_seq(name);
    seq_contains(lower, "terminal"@) || seq_contains(lower, "alacritty"@) || seq_contains(
        lower,
        "kitty"@,
    ) || seq_contains(lower, "konsole"@) || seq_contains(lower, "gnome-terminal"@) || seq_contains(
        lower,
        "xfce4-terminal"@,
    ) || seq_contains(lower, "urxvt"@) || seq_contains(lower, "rxvt"@) || seq_contains(
        lower,
        "st "@,
    ) || lower == "st"@ || seq_contains(lower, "wezterm"@) || seq_contains(lower, "foot"@)
        || seq_contains(lower, "wayst"@) || seq_contains(lower, "hyper"@)
}

/// Whether a process name looks like a terminal emulator (executable).
pub fn is_likely_terminal(name: &str) -> (r: bool)
    ensures
        r == spec_is_likely_terminal(name@),
{
    let cs = chars_of(name);
    let lower = to_lower_chars(&cs);
    contains_chars(&lower, &chars_of("terminal")) || contains_chars(&lower, &chars_of("alacritty"))
        || contains_chars(&lower, &chars_of("kitty")) || contains_chars(
        &lower,
        &chars_of("konsole"),
    ) || contains_chars(&lower, &chars_of("gnome-terminal")) || contains_chars(
        &lower,
        &chars_of("xfce4-terminal"),
    ) || contains_chars(&lower, &chars_of("urxvt")) || contains_chars(&lower, &chars_of("rxvt"))
        || contains_chars(&lower, &chars_of("st ")) || eq_chars(&lower, &chars_of("st"))
        || contains_chars(&lower, &chars_of("wezterm")) || contains_chars(&lower, &chars_of("foot"))
        || contains_chars(&lower, &chars_of("wayst")) || contains_chars(&lower, &chars_of("hyper"))
}

/// A cleaned terminal name: trimmed, `—` when blank, with one trailing
/// dash removed.
pub open spec fn spec_clean_terminal_name(name: Seq<char>) -> Seq<char> {
    let s = spec_trim(name);
    if s.len() == 0 {
        "—"@
    } else if s[s.len() - 1] == '-' {
        s.drop_last()
    } else {
        s
    }
}

/// Cleans a terminal process name (executable).
pub fn clean_terminal_name(name: &str) -> (r: String)
    ensures
        r@ == spec_clean_terminal_name(name@),
{
    let cs = chars_of(name);
    let t = trim_chars(&cs);
    if t.len() == 0 {
        return String::from_str("—");
    }
    if t[t.len() - 1] == '-' {
        let pre = subvec(&t, 0, t.len() - 1);
        proof {
            assert(pre@ =~= t@.drop_last());
        }
        string_of(&pre)
    } else {
        string_of(&t)
    }
}

/// The index of the first likely-terminal name among the first `limit`
/// entries, or -1.
pub open spec fn spec_first_terminal(names: Seq<Seq<char>>, i: int, limit: int) -> int
    decreases limit - i,
{
    if i < 0 || i >= names.len() || i >= limit {
        -1
    } else if spec_is_likely_terminal(names[i]) {
        i
    } else {
        spec_first_terminal(names, i + 1, limit)
    }
}

/// The terminal value: an environment hint when present, else the first
/// likely terminal among up to 20 ancestor process names, else `—`.
pub open spec fn spec_terminal_value(
    term_program: Option<Seq<char>>,
    has_alacritty: bool,
    has_kitty: bool,
    names: Seq<Seq<char>>,
) -> Seq<char> {
    if term_program matches Some(v) && v.len() > 0 {
        term_program.unwrap()
    } else if has_alacritty {
        "Alacritty"@
    } else if has_kitty {
        "Kitty"@
    } else {
        let i = spec_first_terminal(names, 0, 20);
        if i >= 0 {
            spec_clean_terminal_name(names[i])
        } else {
            "—"@
        }
    }
}

/// The terminal row from the environment hints and the ancestor process
/// names (nearest first).
pub fn terminal(
    term_program: &Option<String>,
    has_alacritty: bool,
    has_kitty: bool,
    parent_names: &Vec<String>,
) -> (r: InfoItem)
    ensures
        r.label@ == "Terminal"@,
        r.value@ == spec_terminal_value(
            opt_view(*term_program),
            has_alacritty,
            has_kitty,
            parent_names.deep_view(),
        ),
{
    let label = String::from_str("Terminal");
    match term_program {
        Some(v) => {
            if !v.as_str().is_empty() {
                return InfoItem { label, value: v.clone() };
            }
        },
        None => {},
    }
    if has_alacritty {
        return InfoItem { label, value: String::from_str("Alacritty") };
    }
    if has_kitty {
        return InfoItem { label, value: String::from_str("Kitty") };
    }
    let n = parent_names.len();
    let mut i: usize = 0;
    while i < n && i < 20
        invariant
            i <= n,
            i <= 20,
            n == parent_names@.len(),
            parent_names.deep_view().len() == n,
            label@ == "Terminal"@,
            term_program matches Some(v) ==> v@.len() == 0,
            !has_alacritty,
            !has_kitty,
            spec_first_terminal(parent_names.deep_view(), 0, 20) == spec_first_terminal(
                parent_names.deep_view(),
                i as int,
                20,
            ),
        decreases n - i,
    {
        proof {
            assert(parent_names.deep_view()[i as int] == parent_names@[i as int]@);
        }
        if is_likely_terminal(parent_names[i].as_str()) {
            proof {
                assert(spec_first_terminal(parent_names.deep_view(), i as int, 20) == i);
            }
            return InfoItem { label, value: clean_terminal_name(parent_names[i].as_str()) };
        }
        i += 1;
    }
    proof {
        assert(spec_first_terminal(parent_names.deep_view(), i as int, 20) == -1);
    }
    InfoItem { label, value: String::from_str("—") }
}

/// `s` without leading single quotes.
pub open spec fn trim_quotes_start(s: Seq<char>) -> Seq<char>
    decreases s.len(),
{
    if s.len() > 0 && s[0] == '\'' {
        trim_quotes_start(s.drop_first())
    } else {
        s
    }
}

/// `s` without trailing single quotes.
pub open spec fn trim_quotes_end(s: Seq<char>) -> Seq<char>
    decreases s.len(),
{
    if s.len() > 0 && s[s.len() - 1] == '\'' {
        trim_quotes_end(s.drop_last())
    } else {
        s
    }
}

proof fn lemma_tq_start_step(s: Seq<char>, i: int)
    requires
        0 <= i <= s.len(),
        forall|j: int| 0 <= j < i ==> s[j] == '\'',
    ensures
        trim_quotes_start(s) == trim_quotes_start(s.subrange(i, s.len() as int)),
    decreases i,
{
    if i > 0 {
        lemma_tq_start_step(s, i - 1);
        let si = s.subrange(i - 1, s.len() as int);
        assert(si.len() > 0 && si[0] == '\'');
        assert(si.drop_first() =~= s.subrange(i, s.len() as int));
    } else {
        assert(s.subrange(0, s.len() as int) =~= s);
    }
}

proof fn lemma_tq_end_step(s: Seq<char>, j: int)
    requires
        0 <= j <= s.len(),
        forall|k: int| j <= k < s.len() ==> s[k] == '\'',
    ensures
        trim_quotes_end(s) == trim_quotes_end(s.subrange(0, j)),
    decreases s.len() - j,
{
    if j < s.len() {
        let sj = s.subrange(0, j + 1);
        lemma_tq_end_step(s, j + 1);
        assert(sj.len() > 0 && sj[sj.len() - 1] == '\'');
        assert(sj.drop_last() =~= s.subrange(0, j));
        assert(trim_quotes_end(s.subrange(0, j + 1)) == trim_quotes_end(s.subrange(0, j)));
    } else {
        assert(s.subrange(0, j) =~= s);
    }
}

/// `v` with every leading and trailing single quote removed.
pub fn trim_quote_chars(v: &Vec<char>) -> (r: Vec<char>)
    ensures
        r@ == trim_quotes_end(trim_quotes_start(v@)),
{
    let n = v.len();
    let mut i: usize = 0;
    while i < n && v[i] == '\''
        invariant
            i <= n,
            n == v@.len(),
            forall|j: int| 0 <= j < i ==> v@[j] == '\'',
        decreases n - i,
    {
        i += 1;
    }
    proof {
        lemma_tq_start_step(v@, i as int);
        if i < n {
            assert(v@.subrange(i as int, n as int)[0] != '\'');
        }
        assert(trim_quotes_start(v@) == v@.subrange(i as int, n as int));
    }
    let mut j: usize = n;
    while j > i && v[j - 1] == '\''
        invariant
            i <= j <= n,
            n == v@.len(),
            forall|k: int| j <= k < n ==> v@[k] == '\'',
        decreases j,
    {
        j -= 1;
    }
    let ghost ts = v@.subrange(i as int, n as int);
    proof {
        assert(forall|k: int| j - i <= k < ts.len() ==> ts[k] == '\'');
        lemma_tq_end_step(ts, j - i);
        assert(ts.subrange(0, j - i) =~= v@.subrange(i as int, j as int));
        if j > i {
            assert(ts[j - i - 1] != '\'');
            assert(trim_quotes_end(ts.subrange(0, j - i)) == ts.subrange(0, j - i));
        } else {
            assert(ts.subrange(0, 0) =~= Seq::<char>::empty());
        }
    }
    subvec(v, i, j)
}

/// The terminal-font value: the gsettings output trimmed and unquoted, or
/// the unknown fallback.
pub open spec fn spec_terminal_font_value(output: Option<Seq<char>>) -> Seq<char> {
    match output {
        Some(o) => {
            let s = trim_quotes_end(trim_quotes_start(spec_trim(o)));
            if s.len() == 0 {
                "Unknown (Terminal-specific)"@
            } else {
                s
            }
        },
        None => "Unknown (Terminal-specific)"@,
    }
}

/// The terminal-font row from the gsettings monospace-font query output.
pub fn terminal_font(gsettings_output: &Option<String>) -> (r: InfoItem)
    ensures
        r.label@ == "Terminal Font"@,
        r.value@ == spec_terminal_font_value(opt_view(*gsettings_output)),
{
    let label = String::from_str("Terminal Font");
    match gsettings_output {
        Some(o) => {
            let cs = chars_of(o.as_str());
            let t = trim_chars(&cs);
            let u = trim_quote_chars(&t);
            if u.len() == 0 {
                InfoItem { label, value: String::from_str("Unknown (Terminal-specific)") }
            } else {
                InfoItem { label, value: string_of(&u) }
            }
        },
        None => InfoItem { label, value: String::from_str("Unknown (Terminal-specific)") },
    }
}

/// A settings value unquoted: trimmed, with one surrounding pair of double
/// quotes removed and the inside trimmed again.
pub open spec fn spec_unquote(s: Seq<char>) -> Seq<char> {
    let t = spec_trim(s);
    if t.len() >= 2 && t[0] == '"' && t[t.len() - 1] == '"' {
        spec_trim(t.subrange(1, t.len() - 1))
    } else {
        t
    }
}

/// Strips surrounding double quotes from a settings value.
pub fn unquote(v: &Vec<char>) -> (r: Vec<char>)
    ensures
        r@ == spec_unquote(v@),
{
    let t = trim_chars(v);
    if t.len() >= 2 && t[0] == '"' && t[t.len() - 1] == '"' {
        let inner = subvec(&t, 1, t.len() - 1);
        trim_chars(&inner)
    } else {
        t
    }
}

/// The (theme, icons, font) triple after one settings line: a
/// `key = value` line sets the matching field, everything else is ignored.
pub open spec fn spec_apply_line(
    st: (Seq<char>, Seq<char>, Seq<char>),
    line: Seq<char>,
) -> (Seq<char>, Seq<char>, Seq<char>) {
    let l = spec_trim(line);
    if l.len() == 0 || l[0] == '[' {
        st
    } else {
        let i = find_char_from(l, '=', 0);
        if i < 0 {
            st
        } else {
            let key = spec_trim(l.subrange(0, i));
            let value = spec_unquote(l.subrange(i + 1, l.len() as int));
            if key == "gtk-theme-name"@ {
                (value, st.1, st.2)
            } else if key == "gtk-icon-theme-name"@ {
                (st.0, value, st.2)
            } else if key == "gtk-font-name"@ {
                (st.0, st.1, value)
            } else {
                st
            }
        }
    }
}

/// The triple after all lines from `i` on.
pub open spec fn spec_apply_lines(
    st: (Seq<char>, Seq<char>, Seq<char>),
    lines: Seq<Seq<char>>,
    i: int,
) -> (Seq<char>, Seq<char>, Seq<char>)
    decreases lines.len() - i,
{
    if i < 0 || i >= lines.len() {
        st
    } else {
        spec_apply_lines(spec_apply_line(st, lines[i]), lines, i + 1)
    }
}

/// The (theme, icons, font) triple parsed from a settings file, each field
/// `Unknown` unless set.
pub open spec fn spec_theme_triple(content: Seq<char>) -> (Seq<char>, Seq<char>, Seq<char>) {
    spec_apply_lines(("Unknown"@, "Unknown"@, "Unknown"@), spec_split(content, '\n'), 0)
}

fn apply_line(
    st: (Vec<char>, Vec<char>, Vec<char>),
    line: &Vec<char>,
) -> (r: (Vec<char>, Vec<char>, Vec<char>))
    ensures
        (r.0@, r.1@, r.2@) == spec_apply_line((st.0@, st.1@, st.2@), line@),
{
    let l = trim_chars(line);
    if l.len() == 0 || l[0] == '[' {
        return st;
    }
    let i = match find_char(&l, '=', 0) {
        Some(i) => i,
        None => {
            return st;
        },
    };
    let pre = subvec(&l, 0, i);
    let key = trim_chars(&pre);
    let post = subvec(&l, i + 1, l.len());
    let value = unquote(&post);
    if eq_chars(&key, &chars_of("gtk-theme-name")) {
        (value, st.1, st.2)
    } else if eq_chars(&key, &chars_of("gtk-icon-theme-name")) {
        (st.0, value, st.2)
    } else if eq_chars(&key, &chars_of("gtk-font-name")) {
        (st.0, st.1, value)
    } else {
        (st.0, st.1, st.2)
    }
}

/// Parses a GTK settings file into the (theme, icons, font) triple.
pub fn parse_settings_content(content: &str) -> (r: (String, String, String))
    ensures
        (r.0@, r.1@, r.2@) == spec_theme_triple(content@),
{
    let cs = chars_of(content);
    let lines = split_chars(&cs, '\n');
    let mut st = (chars_of("Unknown"), chars_of("Unknown"), chars_of("Unknown"));
    let n = lines.len();
    let mut i: usize = 0;
    while i < n
        invariant
            i <= n,
            n == lines@.len(),
            lines.deep_view().len() == n,
            spec_theme_triple(content@) == spec_apply_lines(
                (st.0@, st.1@, st.2@),
                lines.deep_view(),
                i as int,
            ),
        decreases n - i,
    {
        proof {
            assert(lines.deep_view()[i as int] == lines@[i as int]@);
        }
        st = apply_line(st, &lines[i]);
        i += 1;
    }
    (string_of(&st.0), string_of(&st.1), string_of(&st.2))
}

/// The three theme values shown: the parsed triple of the first available
/// settings file, with the environment theme as a fallback.
pub open spec fn spec_theme_info_values(
    c3: Option<Seq<char>>,
    c4: Option<Seq<char>>,
    env: Option<Seq<char>>,
) -> (Seq<char>, Seq<char>, Seq<char>) {
    let tri = match c3 {
        Some(c) => spec_theme_triple(c),
        None => match c4 {
            Some(c) => spec_theme_triple(c),
            None => ("Unknown"@, "Unknown"@, "Unknown"@),
        },
    };
    if tri.0 == "Unknown"@ && (env matches Some(e) && spec_trim(e).len() > 0) {
        (spec_trim(env.unwrap()), tri.1, tri.2)
    } else {
        tri
    }
}

/// The Theme/Icons/Font rows from the settings file contents (GTK 3 first,
/// then GTK 4) and the `GTK_THEME` environment value.
pub fn get_theme_info(
    c3: &Option<String>,
    c4: &Option<String>,
    gtk_env: &Option<String>,
) -> (r: Vec<InfoItem>)
    ensures
        r@.len() == 3,
        ({
            let vals = spec_theme_info_values(opt_view(*c3), opt_view(*c4), opt_view(*gtk_env));
            &&& r@[0].label@ == "Theme"@ && r@[0].value@ == vals.0
            &&& r@[1].label@ == "Icons"@ && r@[1].value@ == vals.1
            &&& r@[2].label@ == "Font"@ && r@[2].value@ == vals.2
        }),
{
    let tri: (String, String, String) = match c3 {
        Some(c) => parse_settings_content(c.as_str()),
        None => match c4 {
            Some(c) => parse_settings_content(c.as_str()),
            None => (
                String::from_str("Unknown"),
                String::from_str("Unknown"),
                String::from_str("Unknown"),
            ),
        },
    };
    let mut theme = tri.0;
    match gtk_env {
        Some(e) => {
            if crate::text::eq_str(theme.as_str(), "Unknown") {
                let ec = chars_of(e.as_str());
                let et = trim_chars(&ec);
                if et.len() > 0 {
                    theme = string_of(&et);
                }
            }
        },
        None => {},
    }
    let mut out: Vec<InfoItem> = Vec::new();
    out.push(InfoItem { label: String::from_str("Theme"), value: theme });
    out.push(InfoItem { label: String::from_str("Icons"), value: tri.1 });
    out.push(InfoItem { label: String::from_str("Font"), value: tri.2 });
    out
}

/// The count of elements from `i` on that satisfy `p`.
pub open spec fn spec_count_from(parts: Seq<Seq<char>>, i: int, p: spec_fn(Seq<char>) -> bool) -> nat
    decreases parts.len() - i,
{
    if i < 0 || i >= parts.len() {
        0
    } else {
        (if p(parts[i]) {
            1nat
        } else {
            0nat
        }) + spec_count_from(parts, i + 1, p)
    }
}

/// The predicate for a line that is not blank.
pub open spec fn spec_nonempty_line() -> spec_fn(Seq<char>) -> bool {
    |l: Seq<char>| spec_trim(l).len() > 0
}

/// The number of non-blank lines of `s`.
pub open spec fn spec_count_nonempty_lines(s: Seq<char>) -> nat {
    spec_count_from(spec_split(s, '\n'), 0, spec_nonempty_line())
}

/// Counts the non-blank lines of command output.
pub fn count_nonempty_lines(s: &str) -> (r: usize)
    ensures
        r == spec_count_nonempty_lines(s@),
{
    let cs = chars_of(s);
    let lines = split_chars(&cs, '\n');
    let n = lines.len();
    let mut count: usize = 0;
    let mut i: usize = 0;
    while i < n
        invariant
            i <= n,
            count <= i,
            n == lines@.len(),
            lines.deep_view().len() == n,
            spec_count_nonempty_lines(s@) == count + spec_count_from(
                lines.deep_view(),
                i as int,
                spec_nonempty_line(),
            ),
        decreases n - i,
    {
        proof {
            assert(lines.deep_view()[i as int] == lines@[i as int]@);
        }
        let t = trim_chars(&lines[i]);
        if t.len() > 0 {
            count += 1;
        }
        i += 1;
    }
    count
}

/// The number of non-blank lines after one header line.
pub open spec fn spec_count_lines_skip_header(s: Seq<char>) -> nat {
    let c = spec_count_nonempty_lines(s);
    if c >= 1 {
        (c - 1) as nat
    } else {
        0
    }
}

/// Counts the non-blank lines of command output, skipping one header line.
pub fn count_lines_skip_header(s: &str) -> (r: usize)
    ensures
        r == spec_count_lines_skip_header(s@),
{
    let c = count_nonempty_lines(s);
    if c >= 1 {
        c - 1
    } else {
        0
    }
}

/// The predicate for a package-status paragraph header line.
pub open spec fn spec_package_line() -> spec_fn(Seq<char>) -> bool {
    |l: Seq<char>| seq_starts_with(l, "Package: "@)
}

/// The number of `Package: ` lines of a dpkg status file.
pub open spec fn spec_count_package_lines(s: Seq<char>) -> nat {
    spec_count_from(spec_split(s, '\n'), 0, spec_package_line())
}

/// Counts the `Package: ` lines of a dpkg status file.
pub fn count_package_lines(s: &str) -> (r: usize)
    ensures
        r == spec_count_package_lines(s@),
{
    let cs = chars_of(s);
    let lines = split_chars(&cs, '\n');
    let needle = chars_of("Package: ");
    let n = lines.len();
    let mut count: usize = 0;
    let mut i: usize = 0;
    while i < n
        invariant
            i <= n,
            count <= i,
            n == lines@.len(),
            lines.deep_view().len() == n,
            needle@ == "Package: "@,
            spec_count_package_lines(s@) == count + spec_count_from(
                lines.deep_view(),
                i as int,
                spec_package_line(),
            ),
        decreases n - i,
    {
        proof {
            assert(lines.deep_view()[i as int] == lines@[i as int]@);
        }
        if starts_with_chars(&lines[i], &needle) {
            count += 1;
        }
        i += 1;
    }
    count
}

/// Whether every character of `s` is a digit.
pub open spec fn spec_all_digits(s: Seq<char>) -> bool {
    forall|j: int| 0 <= j < s.len() ==> is_digit(s[j])
}

/// Whether a quoted PCI listing segment can name a device: non-empty, not
/// a bare number, and not a short generic `Device NNNN` code.
pub open spec fn spec_lspci_qualifies(seg: Seq<char>) -> bool {
    seg.len() > 0 && !spec_all_digits(seg) && !(seq_starts_with(seg, "Device "@) && seg.len() < 20)
}

fn lspci_qualifies(seg: &Vec<char>) -> (r: bool)
    ensures
        r == spec_lspci_qualifies(seg@),
{
    if seg.len() == 0 {
        return false;
    }
    let mut all_digits = true;
    let mut i: usize = 0;
    let n = seg.len();
    while i < n
        invariant
            i <= n,
            n == seg@.len(),
            all_digits == (forall|j: int| 0 <= j < i ==> is_digit(seg@[j])),
        decreases n - i,
    {
        if !('0' <= seg[i] && seg[i] <= '9') {
            all_digits = false;
        }
        i += 1;
    }
    if all_digits {
        return false;
    }
    if starts_with_chars(seg, &chars_of("Device ")) && seg.len() < 20 {
        return false;
    }
    true
}

/// The index of the last odd position of a list of the given length, or a
/// negative number when there is none.
pub open spec fn spec_odd_start(len: int) -> int {
    if len % 2 == 0 {
        len - 1
    } else {
        len - 2
    }
}

/// The best (last qualifying) quoted segment at or below odd index `i`.
pub open spec fn spec_lspci_best(quoted: Seq<Seq<char>>, i: int) -> Option<Seq<char>>
    decreases i + 1,
{
    if i < 1 || i >= quoted.len() {
        None
    } else if spec_lspci_qualifies(spec_trim(quoted[i])) {
        Some(spec_trim(quoted[i]))
    } else {
        spec_lspci_best(quoted, i - 2)
    }
}

/// Whether a listing line describes a display device.
pub open spec fn spec_lspci_line_relevant(lt: Seq<char>) -> bool {
    lt.len() > 0 && (seq_contains(lt, "VGA"@) || seq_contains(lt, "3D"@) || seq_contains(
        lt,
        "Display"@,
    ))
}

/// The device names extracted from the listing lines from `i` on.
pub open spec fn spec_lspci_names(lines: Seq<Seq<char>>, i: int) -> Seq<Seq<char>>
    decreases lines.len() - i,
{
    if i < 0 || i >= lines.len() {
        Seq::empty()
    } else {
        let lt = spec_trim(lines[i]);
        let rest = spec_lspci_names(lines, i + 1);
        if spec_lspci_line_relevant(lt) {
            let quoted = spec_split(lt, '"');
            match spec_lspci_best(quoted, spec_odd_start(quoted.len() as int)) {
                Some(b) => seq![b] + rest,
                None => rest,
            }
        } else {
            rest
        }
    }
}

/// What `get_gpu_name` returns: the preferred candidate of the machine
/// listing, cleaned; nothing without listing output or candidates.
pub open spec fn spec_get_gpu_name(output: Option<Seq<char>>) -> Option<Seq<char>> {
    match output {
        Some(out) => {
            let names = spec_lspci_names(spec_split(out, '\n'), 0);
            match spec_prefer_dedicated(names) {
                Some(j) => Some(spec_clean_gpu_name(j)),
                None => None,
            }
        },
        None => None,
    }
}

fn lspci_line_best(line: &Vec<char>) -> (r: Option<Vec<char>>)
    ensures
        ({
            let lt = spec_trim(line@);
            let quoted = spec_split(lt, '"');
            match r {
                Some(b) => spec_lspci_line_relevant(lt) && spec_lspci_best(
                    quoted,
                    spec_odd_start(quoted.len() as int),
                ) == Some(b@),
                None => !spec_lspci_line_relevant(lt) || spec_lspci_best(
                    quoted,
                    spec_odd_start(quoted.len() as int),
                ) is None,
            }
        }),
{
    let lt = trim_chars(line);
    if lt.len() == 0 {
        return None;
    }
    if !(contains_chars(&lt, &chars_of("VGA")) || contains_chars(&lt, &chars_of("3D"))
        || contains_chars(&lt, &chars_of("Display"))) {
        return None;
    }
    let quoted = split_chars(&lt, '"');
    let qn = quoted.len();
    let mut i: usize;
    if qn % 2 == 0 {
        if qn < 1 {
            proof {
                crate::text::lemma_split_len(lt@, '"');
            }
            return None;
        }
        i = qn - 1;
    } else {
        if qn < 2 {
            proof {
                assert(spec_odd_start(qn as int) < 1);
            }
            return None;
        }
        i = qn - 2;
    }
    loop
        invariant
            1 <= i < qn,
            qn == quoted@.len(),
            quoted.deep_view().len() == qn,
            quoted.deep_view() == spec_split(spec_trim(line@), '"'),
            spec_lspci_best(quoted.deep_view(), spec_odd_start(qn as int)) == spec_lspci_best(
                quoted.deep_view(),
                i as int,
            ),
            spec_lspci_line_relevant(spec_trim(line@)),
        decreases i,
    {
        proof {
            assert(quoted.deep_view()[i as int] == quoted@[i as int]@);
        }
        let seg = trim_chars(&quoted[i]);
        if lspci_qualifies(&seg) {
            return Some(seg);
        }
        if i < 3 {
            proof {
                assert(spec_lspci_best(quoted.deep_view(), i - 2) is None);
            }
            return None;
        }
        i -= 2;
    }
}

/// Detects the GPU name from machine-readable PCI listing output: takes
/// the best quoted segment of each display line, prefers a dedicated GPU,
/// and cleans the winner.
pub fn get_gpu_name(lspci_mm_output: &Option<String>) -> (r: Option<String>)
    ensures
        match r {
            Some(s) => spec_get_gpu_name(opt_view(*lspci_mm_output)) == Some(s@),
            None => spec_get_gpu_name(opt_view(*lspci_mm_output)) is None,
        },
{
    let out = match lspci_mm_output {
        Some(o) => o,
        None => {
            return None;
        },
    };
    let cs = chars_of(out.as_str());
    let lines = split_chars(&cs, '\n');
    let n = lines.len();
    let mut names: Vec<Vec<char>> = Vec::new();
    let mut i: usize = n;
    proof {
        assert(names.deep_view() =~~= spec_lspci_names(lines.deep_view(), n as int));
    }
    while i > 0
        invariant
            i <= n,
            n == lines@.len(),
            lines.deep_view().len() == n,
            lines.deep_view() == spec_split(out@, '\n'),
            names.deep_view() == spec_lspci_names(lines.deep_view(), i as int),
        decreases i,
    {
        i -= 1;
        proof {
            assert(lines.deep_view()[i as int] == lines@[i as int]@);
        }
        match lspci_line_best(&lines[i]) {
            Some(b) => {
                names.insert(0, b);
                proof {
                    assert(names.deep_view() =~~= spec_lspci_names(lines.deep_view(), i as int));
                }
            },
            None => {
                proof {
                    assert(names.deep_view() =~~= spec_lspci_names(lines.deep_view(), i as int));
                }
            },
        }
    }
    let best = prefer_dedicated_or_join(&names);
    match best {
        Some(b) => {
            let s = string_of(&b);
            Some(clean_gpu_name(s.as_str()))
        },
        None => None,
    }
}

} // verus!
