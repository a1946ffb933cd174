//! Distribution logo catalogue: normalized slug lookup, family fallback by
//! substring, and a placeholder for everything else.

use vstd::prelude::*;

use crate::render::LogoColor;
use crate::text::{
    chars_of, contains_chars, eq_chars, lower_seq, push_line, replace_chars, seq_contains,
    spec_replace, string_of, to_lower_chars,
};

verus! {

/// A normalized slug: lowercased, with spaces removed.
pub open spec fn spec_normalize_slug(s: Seq<char>) -> Seq<char> {
    spec_replace(lower_seq(s), " "@, Seq::<char>::empty())
}

/// Normalizes a distribution slug for lookup: lowercase, no spaces.
pub fn normalize_slug(s: &str) -> (r: String)
    ensures
        r@ == spec_normalize_slug(s@),
{
    let cs = chars_of(s);
    let lower = to_lower_chars(&cs);
    let space = chars_of(" ");
    let empty: Vec<char> = Vec::new();
    let cleaned = replace_chars(&lower, &space, &empty);
    string_of(&cleaned)
}

/// The angular mountain logo.
pub open spec fn spec_arch_art() -> Seq<Seq<char>> {
    seq![
        "      /\\"@,
        "     /  \\"@,
        "    /\\   \\"@,
        "   /      \\"@,
        "  /   ,,   \\"@,
        " /   |  |  -\\"@,
        "/_-''    ''-_\\"@,
    ]
}

/// The swirl logo.
pub open spec fn spec_debian_art() -> Seq<Seq<char>> {
    seq![
        "       _,met$$$$$gg."@,
        "    ,g$$$$$$$$$$$$$$$P."@,
        "  ,g$$P\"        \"\"\"Y$$.\"."@,
        " ,$$P'              `$$$."@,
        "',$$P       ,ggs.     `$$b:"@,
        "`d$$'     ,$P\"'   .    $$$"@,
        " $$P      d$'     ,    $$P"@,
        " $$:      $$.   -    ,d$$'"@,
        " $$;      Y$b._   _,d$P'"@,
        " Y$$.    `.`\"Y$$$$P\"'"@,
        " `$$b      \"-.__"@,
        "  `Y$$"@,
        "   `Y$$."@,
        "     `$$b."@,
        "       `Y$$b."@,
        "          `\"Y$b._"@,
        "              `\"\"\""@,
    ]
}

/// The circle-of-friends logo.
pub open spec fn spec_ubuntu_art() -> Seq<Seq<char>> {
    seq![
        "            .-/+oossssoo+-."@,
        "        \u{c2}\u{b4}:+ssssssssssssssssss+:`"@,
        "      -+ssssssssssssssssssyyssss+-"@,
        "    .ossssssssssssssssssdMMMNysssso."@,
        "   /ssssssssssshdmmNNmmyNMMMMhssssss\\"@,
        "  +ssssssssshmydMMMMMMMNddddyssssssss+"@,
        " /sssssssshNMMMyhhyyyhmNMMMNhssssssss\\"@,
        ".ssssssssdMMMNhsssssssssshNMMMdssssssss."@,
        "+sssshhhyNMMNyssssssssssssyNMMMysssssss+"@,
        "ossyNMMMNyMMhsssssssssssssshmmmhssssssso"@,
        "ossyNMMMNyMMhsssssssssssssshmmmhssssssso"@,
        "+sssshhhyNMMNyssssssssssssyNMMMysssssss+"@,
        ".ssssssssdMMMNhsssssssssshNMMMdssssssss."@,
        " \\sssssssshNMMMyhhyyyhdNMMMNhssssssss/"@,
        "  +sssssssssdmydMMMMMMMMddddyssssssss+"@,
        "   \\ssssssssssshdmNNNNmyNMMMMhssssss/"@,
        "    .ossssssssssssssssssdMMMNysssso."@,
        "      -+sssssssssssssssssyyyssss+-"@,
        "        `:+ssssssssssssssssss+:`"@,
        "            .-\\+oossssoo+/-."@,
    ]
}

/// The speech-bubble logo.
pub open spec fn spec_fedora_art() -> Seq<Seq<char>> {
    seq![
        "             .',;::::;,'."@,
        "         .';:cccccccccccc:;,."@,
        "      .;cccccccccccccccccccccc;."@,
        "    .:cccccccccccccccccccccccccc:."@,
        "  .;ccccccccccccc;.:dddl:.;ccccccc;."@,
        " .:ccccccccccccc;OWMKOOXMWd;ccccccc:."@,
        ".:ccccccccccccc;KMMc;cc;xMMc;ccccccc:."@,
        ",cccccccccccccc;MMM.;cc;;WW:;cccccccc,"@,
        ":cccccccccccccc;MMM.;cccccccccccccc:"@,
        ":ccccccc;oxOOOo;MMM0OOk.;cccccccccccc:"@,
        "cccccc;0MMKxdd:;MMMkddc.;cccccccccccc;"@,
        "ccccc;XM0';cccc;MMM.;cccccccccccccccc'"@,
        "ccccc;MMo;ccccc;MMW.;ccccccccccccccc;"@,
        "ccccc;0MNc.ccc.xMMd;ccccccccccccccc;"@,
        "cccccc;dNMWXXXWM0:;cccccccccccccc:,"@,
        "cccccccc;.:odl:.;cccccccccccccc:,."@,
        ":cccccccccccccccccccccccccccc:'."@,
        ".:cccccccccccccccccccccc:;,.."@,
        "  '::cccccccccccccc::;,."@,
    ]
}

/// The leaf logo.
pub open spec fn spec_mint_art() -> Seq<Seq<char>> {
    seq![
        "  \\_____/"@,
        "   \\   /"@,
        "    \\ /"@,
        "   _/ \\_"@,
        "  (     )"@,
        "   \\___/"@,
        "  (     )"@,
        " (       )"@,
    ]
}

/// The four-pane window logo.
pub open spec fn spec_windows10_art() -> Seq<Seq<char>> {
    seq![
        "                                ..,"@,
        "                    ....,,:;+ccllll"@,
        "      ...,,+:;  cllllllllllllllllll"@,
        ",cclllllllllll  lllllllllllllllllll"@,
        "llllllllllllll  lllllllllllllllllll"@,
        "llllllllllllll  lllllllllllllllllll"@,
        "llllllllllllll  lllllllllllllllllll"@,
        "llllllllllllll  lllllllllllllllllll"@,
        "llllllllllllll  lllllllllllllllllll"@,
        "llllllllllllll  lllllllllllllllllll"@,
        ""@,
        "llllllllllllll  lllllllllllllllllll"@,
        "llllllllllllll  lllllllllllllllllll"@,
        "llllllllllllll  lllllllllllllllllll"@,
        "llllllllllllll  lllllllllllllllllll"@,
        "llllllllllllll  lllllllllllllllllll"@,
        "`'ccllllllllll  lllllllllllllllllll"@,
        "       `' \\*::  :ccllllllllllllllll"@,
        "                       ````''*::cll"@,
        "                                 ``"@,
    ]
}

/// The square window logo.
pub open spec fn spec_windows11_art() -> Seq<Seq<char>> {
    seq![
        "################  ################"@,
        "################  ################"@,
        "################  ################"@,
        "################  ################"@,
        "################  ################"@,
        "################  ################"@,
        "################  ################"@,
        ""@,
        "################  ################"@,
        "################  ################"@,
        "################  ################"@,
        "################  ################"@,
        "################  ################"@,
        "################  ################"@,
        "################  ################"@,
    ]
}

/// The apple logo.
pub open spec fn spec_macos_art() -> Seq<Seq<char>> {
    seq![
        "                    c.'"@,
        "                 ,xNMM."@,
        "               .OMMMMo"@,
        "               lMM\""@,
        "     .;loddo:.  .olloddol;."@,
        "   cKMMMMMMMMMMNWMMMMMMMMMM0:"@,
        " .KMMMMMMMMMMMMMMMMMMMMMMMWd."@,
        " XMMMMMMMMMMMMMMMMMMMMMMMX."@,
        ";MMMMMMMMMMMMMMMMMMMMMMMM:"@,
        ":MMMMMMMMMMMMMMMMMMMMMMMM:"@,
        ".MMMMMMMMMMMMMMMMMMMMMMMMMX."@,
        " kMMMMMMMMMMMMMMMMMMMMMMMMWd."@,
        " 'XMMMMMMMMMMMMMMMMMMMMMMMMMMk"@,
        "  'XMMMMMMMMMMMMMMMMMMMMMMMMK."@,
        "    kMMMMMMMMMMMMMMMMMMMMMMd"@,
        "     ;KMMMMMMMWXXWMMMMMMMk."@,
        "       \"cooc*\"    \"*coo'\""@,
    ]
}

/// The placeholder logo.
pub open spec fn spec_fallback_art() -> Seq<Seq<char>> {
    seq![
        "   .---."@,
        "  /     \\"@,
        " | .   . |"@,
        "  \\  ~  /"@,
        "   \\_/"@,
        "  (   )"@,
        "   ( )"@,
    ]
}

/// The logo lines selected for a normalized slug: exact matches first,
/// then family fallback by substring, then the placeholder.
pub open spec fn spec_logo_lines(n: Seq<char>) -> Seq<Seq<char>> {
    if n == "arch"@ || n == "archlinux"@ {
        spec_arch_art()
    } else if n == "debian"@ {
        spec_debian_art()
    } else if n == "ubuntu"@ {
        spec_ubuntu_art()
    } else if n == "fedora"@ {
        spec_fedora_art()
    } else if n == "linuxmint"@ || n == "mint"@ {
        spec_mint_art()
    } else if n == "windows10"@ || n == "windows8"@ || n == "windows"@ {
        spec_windows10_art()
    } else if n == "windows11"@ {
        spec_windows11_art()
    } else if n == "macos"@ || n == "darwin"@ || n == "apple"@ || n == "mac"@ {
        spec_macos_art()
    } else if seq_contains(n, "arch"@) {
        spec_arch_art()
    } else if seq_contains(n, "ubuntu"@) {
        spec_ubuntu_art()
    } else if seq_contains(n, "debian"@) {
        spec_debian_art()
    } else if seq_contains(n, "fedora"@) {
        spec_fedora_art()
    } else if seq_contains(n, "mint"@) {
        spec_mint_art()
    } else if seq_contains(n, "windows"@) {
        spec_windows10_art()
    } else if seq_contains(n, "mac"@) || seq_contains(n, "darwin"@) {
        spec_macos_art()
    } else {
        spec_fallback_art()
    }
}

/// The primary color selected for a normalized slug.
pub open spec fn spec_logo_color(n: Seq<char>) -> LogoColor {
    if n == "arch"@ || n == "archlinux"@ {
        LogoColor::Cyan
    } else if n == "debian"@ {
        LogoColor::Red
    } else if n == "ubuntu"@ {
        LogoColor::Red
    } else if n == "fedora"@ {
        LogoColor::Blue
    } else if n == "linuxmint"@ || n == "mint"@ {
        LogoColor::Green
    } else if n == "windows10"@ || n == "windows8"@ || n == "windows"@ {
        LogoColor::BrightBlue
    } else if n == "windows11"@ {
        LogoColor::BrightBlue
    } else if n == "macos"@ || n == "darwin"@ || n == "apple"@ || n == "mac"@ {
        LogoColor::BrightWhite
    } else if seq_contains(n, "arch"@) {
        LogoColor::Cyan
    } else if seq_contains(n, "ubuntu"@) {
        LogoColor::Red
    } else if seq_contains(n, "debian"@) {
        LogoColor::Red
    } else if seq_contains(n, "fedora"@) {
        LogoColor::Blue
    } else if seq_contains(n, "mint"@) {
        LogoColor::Green
    } else if seq_contains(n, "windows"@) {
        LogoColor::BrightBlue
    } else if seq_contains(n, "mac"@) || seq_contains(n, "darwin"@) {
        LogoColor::BrightWhite
    } else {
        LogoColor::Cyan
    }
}

fn lines_of(art: &Vec<&'static str>) -> (r: Vec<String>)
    ensures
        r.deep_view() == art.deep_view(),
{
    let mut out: Vec<String> = Vec::new();
    let n = art.len();
    let mut i: usize = 0;
    while i < n
        invariant
            i <= n,
            n == art@.len(),
            art.deep_view().len() == n,
            out.deep_view() == art.deep_view().subrange(0, i as int),
        decreases n - i,
    {
        proof {
            assert(art.deep_view()[i as int] == art@[i as int]@);
        }
        push_line(&mut out, String::from_str(art[i]));
        proof {
            assert(out.deep_view() =~~= art.deep_view().subrange(0, i + 1));
        }
        i += 1;
    }
    proof {
        assert(art.deep_view().subrange(0, n as int) =~= art.deep_view());
    }
    out
}

fn arch_art() -> (r: Vec<&'static str>)
    ensures
        r.deep_view() == spec_arch_art(),
{
    let mut v: Vec<&'static str> = Vec::new();
    v.push("      /\\");
    v.push("     /  \\");
    v.push("    /\\   \\");
    v.push("   /      \\");
    v.push("  /   ,,   \\");
    v.push(" /   |  |  -\\");
    v.push("/_-''    ''-_\\");
    proof {
        assert(v.deep_view() =~~= spec_arch_art());
    }
    v
}

fn debian_art() -> (r: Vec<&'static str>)
    ensures
        r.deep_view() == spec_debian_art(),
{
    let mut v: Vec<&'static str> = Vec::new();
    v.push("       _,met$$$$$gg.");
    v.push("    ,g$$$$$$$$$$$$$$$P.");
    v.push("  ,g$$P\"        \"\"\"Y$$.\".");
    v.push(" ,$$P'              `$$$.");
    v.push("',$$P       ,ggs.     `$$b:");
    v.push("`d$$'     ,$P\"'   .    $$$");
    v.push(" $$P      d$'     ,    $$P");
    v.push(" $$:      $$.   -    ,d$$'");
    v.push(" $$;      Y$b._   _,d$P'");
    v.push(" Y$$.    `.`\"Y$$$$P\"'");
    v.push(" `$$b      \"-.__");
    v.push("  `Y$$");
    v.push("   `Y$$.");
    v.push("     `$$b.");
    v.push("       `Y$$b.");
    v.push("          `\"Y$b._");
    v.push("              `\"\"\"");
    proof {
        assert(v.deep_view() =~~= spec_debian_art());
    }
    v
}

fn ubuntu_art() -> (r: Vec<&'static str>)
    ensures
        r.deep_view() == spec_ubuntu_art(),
{
    let mut v: Vec<&'static str> = Vec::new();
    v.push("            .-/+oossssoo+-.");
    v.push("        \u{c2}\u{b4}:+ssssssssssssssssss+:`");
    v.push("      -+ssssssssssssssssssyyssss+-");
    v.push("    .ossssssssssssssssssdMMMNysssso.");
    v.push("   /ssssssssssshdmmNNmmyNMMMMhssssss\\");
    v.push("  +ssssssssshmydMMMMMMMNddddyssssssss+");
    v.push(" /sssssssshNMMMyhhyyyhmNMMMNhssssssss\\");
    v.push(".ssssssssdMMMNhsssssssssshNMMMdssssssss.");
    v.push("+sssshhhyNMMNyssssssssssssyNMMMysssssss+");
    v.push("ossyNMMMNyMMhsssssssssssssshmmmhssssssso");
    v.push("ossyNMMMNyMMhsssssssssssssshmmmhssssssso");
    v.push("+sssshhhyNMMNyssssssssssssyNMMMysssssss+");
    v.push(".ssssssssdMMMNhsssssssssshNMMMdssssssss.");
    v.push(" \\sssssssshNMMMyhhyyyhdNMMMNhssssssss/");
    v.push("  +sssssssssdmydMMMMMMMMddddyssssssss+");
    v.push("   \\ssssssssssshdmNNNNmyNMMMMhssssss/");
    v.push("    .ossssssssssssssssssdMMMNysssso.");
    v.push("      -+sssssssssssssssssyyyssss+-");
    v.push("        `:+ssssssssssssssssss+:`");
    v.push("            .-\\+oossssoo+/-.");
    proof {
        assert(v.deep_view() =~~= spec_ubuntu_art());
    }
    v
}

fn fedora_art() -> (r: Vec<&'static str>)
    ensures
        r.deep_view() == spec_fedora_art(),
{
    let mut v: Vec<&'static str> = Vec::new();
    v.push("             .',;::::;,'.");
    v.push("         .';:cccccccccccc:;,.");
    v.push("      .;cccccccccccccccccccccc;.");
    v.push("    .:cccccccccccccccccccccccccc:.");
    v.push("  .;ccccccccccccc;.:dddl:.;ccccccc;.");
    v.push(" .:ccccccccccccc;OWMKOOXMWd;ccccccc:.");
    v.push(".:ccccccccccccc;KMMc;cc;xMMc;ccccccc:.");
    v.push(",cccccccccccccc;MMM.;cc;;WW:;cccccccc,");
    v.push(":cccccccccccccc;MMM.;cccccccccccccc:");
    v.push(":ccccccc;oxOOOo;MMM0OOk.;cccccccccccc:");
    v.push("cccccc;0MMKxdd:;MMMkddc.;cccccccccccc;");
    v.push("ccccc;XM0';cccc;MMM.;cccccccccccccccc'");
    v.push("ccccc;MMo;ccccc;MMW.;ccccccccccccccc;");
    v.push("ccccc;0MNc.ccc.xMMd;ccccccccccccccc;");
    v.push("cccccc;dNMWXXXWM0:;cccccccccccccc:,");
    v.push("cccccccc;.:odl:.;cccccccccccccc:,.");
    v.push(":cccccccccccccccccccccccccccc:'.");
    v.push(".:cccccccccccccccccccccc:;,..");
    v.push("  '::cccccccccccccc::;,.");
    proof {
        assert(v.deep_view() =~~= spec_fedora_art());
    }
    v
}

fn mint_art() -> (r: Vec<&'static str>)
    ensures
        r.deep_view() == spec_mint_art(),
{
    let mut v: Vec<&'static str> = Vec::new();
    v.push("  \\_____/");
    v.push("   \\   /");
    v.push("    \\ /");
    v.push("   _/ \\_");
    v.push("  (     )");
    v.push("   \\___/");
    v.push("  (     )");
    v.push(" (       )");
    proof {
        assert(v.deep_view() =~~= spec_mint_art());
    }
    v
}

fn windows10_art() -> (r: Vec<&'static str>)
    ensures
        r.deep_view() == spec_windows10_art(),
{
    let mut v: Vec<&'static str> = Vec::new();
    v.push("                                ..,");
    v.push("                    ....,,:;+ccllll");
    v.push("      ...,,+:;  cllllllllllllllllll");
    v.push(",cclllllllllll  lllllllllllllllllll");
    v.push("llllllllllllll  lllllllllllllllllll");
    v.push("llllllllllllll  lllllllllllllllllll");
    v.push("llllllllllllll  lllllllllllllllllll");
    v.push("llllllllllllll  lllllllllllllllllll");
    v.push("llllllllllllll  lllllllllllllllllll");
    v.push("llllllllllllll  lllllllllllllllllll");
    v.push("");
    v.push("llllllllllllll  lllllllllllllllllll");
    v.push("llllllllllllll  lllllllllllllllllll");
    v.push("llllllllllllll  lllllllllllllllllll");
    v.push("llllllllllllll  lllllllllllllllllll");
    v.push("llllllllllllll  lllllllllllllllllll");
    v.push("`'ccllllllllll  lllllllllllllllllll");
    v.push("       `' \\*::  :ccllllllllllllllll");
    v.push("                       ````''*::cll");
    v.push("                                 ``");
    proof {
        assert(v.deep_view() =~~= spec_windows10_art());
    }
    v
}

fn windows11_art() -> (r: Vec<&'static str>)
    ensures
        r.deep_view() == spec_windows11_art(),
{
    let mut v: Vec<&'static str> = Vec::new();
    v.push("################  ################");
    v.push("################  ################");
    v.push("################  ################");
    v.push("################  ################");
    v.push("################  ################");
    v.push("################  ################");
    v.push("################  ################");
    v.push("");
    v.push("################  ################");
    v.push("################  ################");
    v.push("################  ################");
    v.push("################  ################");
    v.push("################  ################");
    v.push("################  ################");
    v.push("################  ################");
    proof {
        assert(v.deep_view() =~~= spec_windows11_art());
    }
    v
}

fn macos_art() -> (r: Vec<&'static str>)
    ensures
        r.deep_view() == spec_macos_art(),
{
    let mut v: Vec<&'static str> = Vec::new();
    v.push("                    c.'");
    v.push("                 ,xNMM.");
    v.push("               .OMMMMo");
    v.push("               lMM\"");
    v.push("     .;loddo:.  .olloddol;.");
    v.push("   cKMMMMMMMMMMNWMMMMMMMMMM0:");
    v.push(" .KMMMMMMMMMMMMMMMMMMMMMMMWd.");
    v.push(" XMMMMMMMMMMMMMMMMMMMMMMMX.");
    v.push(";MMMMMMMMMMMMMMMMMMMMMMMM:");
    v.push(":MMMMMMMMMMMMMMMMMMMMMMMM:");
    v.push(".MMMMMMMMMMMMMMMMMMMMMMMMMX.");
    v.push(" kMMMMMMMMMMMMMMMMMMMMMMMMWd.");
    v.push(" 'XMMMMMMMMMMMMMMMMMMMMMMMMMMk");
    v.push("  'XMMMMMMMMMMMMMMMMMMMMMMMMK.");
    v.push("    kMMMMMMMMMMMMMMMMMMMMMMd");
    v.push("     ;KMMMMMMMWXXWMMMMMMMk.");
    v.push("       \"cooc*\"    \"*coo'\"");
    proof {
        assert(v.deep_view() =~~= spec_macos_art());
    }
    v
}

fn fallback_art() -> (r: Vec<&'static str>)
    ensures
        r.deep_view() == spec_fallback_art(),
{
    let mut v: Vec<&'static str> = Vec::new();
    v.push("   .---.");
    v.push("  /     \\");
    v.push(" | .   . |");
    v.push("  \\  ~  /");
    v.push("   \\_/");
    v.push("  (   )");
    v.push("   ( )");
    proof {
        assert(v.deep_view() =~~= spec_fallback_art());
    }
    v
}

/// Returns the logo lines and primary color for the given distribution
/// slug; unknown slugs get the placeholder with a cyan primary color.
pub fn get_logo(slug: &str) -> (r: (Vec<String>, LogoColor))
    ensures
        r.0.deep_view() == spec_logo_lines(spec_normalize_slug(slug@)),
        r.1 == spec_logo_color(spec_normalize_slug(slug@)),
{
    let n = normalize_slug(slug);
    let nc = chars_of(n.as_str());
    let art: (Vec<&'static str>, LogoColor) = if eq_chars(&nc, &chars_of("arch")) || eq_chars(
        &nc,
        &chars_of("archlinux"),
    ) {
        (arch_art(), LogoColor::Cyan)
    } else if eq_chars(&nc, &chars_of("debian")) {
        (debian_art(), LogoColor::Red)
    } else if eq_chars(&nc, &chars_of("ubuntu")) {
        (ubuntu_art(), LogoColor::Red)
    } else if eq_chars(&nc, &chars_of("fedora")) {
        (fedora_art(), LogoColor::Blue)
    } else if eq_chars(&nc, &chars_of("linuxmint")) || eq_chars(&nc, &chars_of("mint")) {
        (mint_art(), LogoColor::Green)
    } else if eq_chars(&nc, &chars_of("windows10")) || eq_chars(&nc, &chars_of("windows8"))
        || eq_chars(&nc, &chars_of("windows")) {
        (windows10_art(), LogoColor::BrightBlue)
    } else if eq_chars(&nc, &chars_of("windows11")) {
        (windows11_art(), LogoColor::BrightBlue)
    } else if eq_chars(&nc, &chars_of("macos")) || eq_chars(&nc, &chars_of("darwin")) || eq_chars(
        &nc,
        &chars_of("apple"),
    ) || eq_chars(&nc, &chars_of("mac")) {
        (macos_art(), LogoColor::BrightWhite)
    } else if contains_chars(&nc, &chars_of("arch")) {
        (arch_art(), LogoColor::Cyan)
    } else if contains_chars(&nc, &chars_of("ubuntu")) {
        (ubuntu_art(), LogoColor::Red)
    } else if contains_chars(&nc, &chars_of("debian")) {
        (debian_art(), LogoColor::Red)
    } else if contains_chars(&nc, &chars_of("fedora")) {
        (fedora_art(), LogoColor::Blue)
    } else if contains_chars(&nc, &chars_of("mint")) {
        (mint_art(), LogoColor::Green)
    } else if contains_chars(&nc, &chars_of("windows")) {
        (windows10_art(), LogoColor::BrightBlue)
    } else if contains_chars(&nc, &chars_of("mac")) || contains_chars(&nc, &chars_of("darwin")) {
        (macos_art(), LogoColor::BrightWhite)
    } else {
        (fallback_art(), LogoColor::Cyan)
    };
    (lines_of(&art.0), art.1)
}

/// The exactly supported slug names.
pub fn supported_slugs() -> (r: Vec<&'static str>)
    ensures
        r.deep_view() == seq![
            "arch"@,
            "debian"@,
            "ubuntu"@,
            "fedora"@,
            "mint"@,
            "windows"@,
            "windows10"@,
            "windows11"@,
            "macos"@,
            "fallback"@,
        ],
{
    let mut v: Vec<&'static str> = Vec::new();
    v.push("arch");
    v.push("debian");
    v.push("ubuntu");
    v.push("fedora");
    v.push("mint");
    v.push("windows");
    v.push("windows10");
    v.push("windows11");
    v.push("macos");
    v.push("fallback");
    proof {
        assert(v.deep_view() =~~= seq![
            "arch"@,
            "debian"@,
            "ubuntu"@,
            "fedora"@,
            "mint"@,
            "windows"@,
            "windows10"@,
            "windows11"@,
            "macos"@,
            "fallback"@,
        ]);
    }
    v
}

} // verus!
