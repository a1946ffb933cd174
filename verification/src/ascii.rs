//! Small built-in text logos addressed by plain name.

use vstd::prelude::*;

use crate::text::{lower_seq, to_lower_str, eq_str};

verus! {

/// The default placeholder logo.
pub open spec fn spec_default_logo() -> Seq<Seq<char>> {
    seq![
        "  _____  "@,
        " |     | "@,
        " |  *  | "@,
        " |     | "@,
        "  \\___/  "@,
        "   / \\   "@,
        "  (___)  "@,
        "         "@,
    ]
}

/// The angular mountain logo.
pub open spec fn spec_arch_logo() -> Seq<Seq<char>> {
    seq![
        "    /\\     "@,
        "   /  \\    "@,
        "  /\\   \\   "@,
        " /  \\   \\  "@,
        "/    \\   \\ "@,
        "\\    \\   / "@,
        " \\   \\  /  "@,
        "  \\   \\/   "@,
    ]
}

/// The ring logo.
pub open spec fn spec_ubuntu_logo() -> Seq<Seq<char>> {
    seq![
        "  ____  "@,
        " / __ \\ "@,
        "| |  | |"@,
        "| |  | |"@,
        "| |__| |"@,
        " \\____/ "@,
        "        "@,
        "        "@,
    ]
}

/// The penguin logo.
pub open spec fn spec_penguin_logo() -> Seq<Seq<char>> {
    seq![
        "   .---.   "@,
        "  /     \\  "@,
        " | o   o | "@,
        "  \\  ~  /  "@,
        "   \\___/   "@,
        "  (     )  "@,
        "   (   )   "@,
        "    ( )    "@,
    ]
}

/// What `get_logo` returns for a (lowercased) name.
pub open spec fn spec_ascii_logo(name_lower: Seq<char>) -> Seq<Seq<char>> {
    if name_lower == "arch"@ {
        spec_arch_logo()
    } else if name_lower == "ubuntu"@ {
        spec_ubuntu_logo()
    } else if name_lower == "penguin"@ || name_lower == "linux"@ {
        spec_penguin_logo()
    } else {
        spec_default_logo()
    }
}

fn push_lines8(
    a: &'static str,
    b: &'static str,
    c: &'static str,
    d: &'static str,
    e: &'static str,
    f: &'static str,
    g: &'static str,
    h: &'static str,
) -> (r: Vec<&'static str>)
    ensures
        r.deep_view() =~= seq![a@, b@, c@, d@, e@, f@, g@, h@],
{
    let mut v: Vec<&'static str> = Vec::new();
    v.push(a);
    v.push(b);
    v.push(c);
    v.push(d);
    v.push(e);
    v.push(f);
    v.push(g);
    v.push(h);
    proof {
        assert(v.deep_view() =~~= seq![a@, b@, c@, d@, e@, f@, g@, h@]);
    }
    v
}

/// Returns the text logo lines for the given logo name
/// (case-insensitively); unknown names fall back to the default logo.
pub fn get_logo(name: &str) -> (r: Vec<&'static str>)
    ensures
        r.deep_view() == spec_ascii_logo(lower_seq(name@)),
{
    let lower = to_lower_str(name);
    let l = lower.as_str();
    if eq_str(l, "arch") {
        push_lines8(
            "    /\\     ",
            "   /  \\    ",
            "  /\\   \\   ",
            " /  \\   \\  ",
            "/    \\   \\ ",
            "\\    \\   / ",
            " \\   \\  /  ",
            "  \\   \\/   ",
        )
    } else if eq_str(l, "ubuntu") {
        push_lines8(
            "  ____  ",
            " / __ \\ ",
            "| |  | |",
            "| |  | |",
            "| |__| |",
            " \\____/ ",
            "        ",
            "        ",
        )
    } else if eq_str(l, "penguin") || eq_str(l, "linux") {
        push_lines8(
            "   .---.   ",
            "  /     \\  ",
            " | o   o | ",
            "  \\  ~  /  ",
            "   \\___/   ",
            "  (     )  ",
            "   (   )   ",
            "    ( )    ",
        )
    } else {
        push_lines8(
            "  _____  ",
            " |     | ",
            " |  *  | ",
            " |     | ",
            "  \\___/  ",
            "   / \\   ",
            "  (___)  ",
            "         ",
        )
    }
}

/// The built-in logo names.
pub fn logo_names() -> (r: Vec<&'static str>)
    ensures
        r.deep_view() == seq!["default"@, "arch"@, "ubuntu"@, "penguin"@],
{
    let mut v: Vec<&'static str> = Vec::new();
    v.push("default");
    v.push("arch");
    v.push("ubuntu");
    v.push("penguin");
    proof {
        assert(v.deep_view() =~~= seq!["default"@, "arch"@, "ubuntu"@, "penguin"@]);
    }
    v
}

} // verus!
