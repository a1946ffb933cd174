//! GPU name normalization and parsing of vendor listing output: strips
//! revision suffixes, extracts bracketed marketing names, removes corporate
//! noise words, normalizes the vendor prefix, and prefers a dedicated GPU
//! among several candidates.

use vstd::prelude::*;

use crate::text::{
    chars_of, contains_chars, eq_chars, lower_seq, rfind_chars, seq_contains, seq_starts_with,
    spec_collapse, spec_join, spec_replace, spec_rfind, spec_trim, starts_with_chars, string_of,
    subvec, to_lower_chars, trim_chars, collapse_chars, extend_chars, replace_chars, join_parts,
    find_char, find_char_from,
};

verus! {

/// `s` with a trailing `"(rev ...)"` suffix removed (everything from the
/// last `"(rev "` on), trimmed.
pub open spec fn spec_strip_rev(s: Seq<char>) -> Seq<char> {
    let i = spec_rfind(s, "(rev "@);
    if i >= 0 {
        spec_trim(s.subrange(0, i))
    } else {
        s
    }
}

/// The content of the last `[...]` group of `s`, trimmed; nothing when there
/// is no such group or it is blank.
pub open spec fn spec_last_bracketed(s: Seq<char>) -> Option<Seq<char>> {
    let start = spec_rfind(s, "["@);
    if start < 0 {
        None
    } else {
        let rest = s.subrange(start + 1, s.len() as int);
        let end = find_char_from(rest, ']', 0);
        if end < 0 {
            None
        } else {
            let inner = spec_trim(rest.subrange(0, end));
            if inner.len() == 0 {
                None
            } else {
                Some(inner)
            }
        }
    }
}

/// `s` with corporate noise words removed, double spaces reduced once, and
/// the result trimmed.
pub open spec fn spec_remove_noise(s: Seq<char>) -> Seq<char> {
    let none = Seq::<char>::empty();
    let t1 = spec_replace(s, "Corporation"@, none);
    let t2 = spec_replace(t1, "Inc."@, none);
    let t3 = spec_replace(t2, "Co."@, none);
    let t4 = spec_replace(t3, "Ltd."@, none);
    let t5 = spec_replace(t4, "Limited"@, none);
    let t6 = spec_replace(t5, "Advanced Micro Devices, "@, none);
    let t7 = spec_replace(t6, "Advanced Micro Devices"@, none);
    let t8 = spec_replace(t7, "  "@, " "@);
    spec_trim(t8)
}

/// The vendor prefix rule: prepend `NVIDIA`, `AMD` or `Intel` when the raw
/// or cleaned name implies that vendor and the cleaned name does not already
/// start with it.
pub open spec fn spec_vendor_prefix(cleaned: Seq<char>, raw: Seq<char>) -> Seq<char> {
    let lc = lower_seq(cleaned);
    let lr = lower_seq(raw);
    if (seq_contains(lr, "nvidia"@) || seq_contains(lc, "geforce"@) || seq_contains(lc, "rtx"@)
        || seq_contains(lc, "gtx"@)) && !seq_starts_with(lc, "nvidia"@) {
        "NVIDIA "@ + spec_trim(cleaned)
    } else if (seq_contains(lr, "advanced micro devices"@) || seq_contains(lr, "ati"@)
        || seq_contains(lc, "radeon"@) || seq_contains(lc, "navi"@)) && !seq_starts_with(
        lc,
        "amd"@,
    ) {
        "AMD "@ + spec_trim(cleaned)
    } else if (seq_contains(lr, "intel"@) || seq_contains(lc, "arc"@) || seq_contains(lc, "iris"@)
        || seq_contains(lc, "uhd"@) || seq_contains(lc, "hd graphics"@)) && !seq_starts_with(
        lc,
        "intel"@,
    ) {
        "Intel "@ + spec_trim(cleaned)
    } else {
        spec_trim(cleaned)
    }
}

/// What `clean_gpu_name` returns for a raw vendor string.
pub open spec fn spec_clean_gpu_name(raw: Seq<char>) -> Seq<char> {
    let s = spec_strip_rev(spec_trim(raw));
    let cleaned = match spec_last_bracketed(s) {
        Some(b) => b,
        None => spec_remove_noise(s),
    };
    spec_collapse(spec_trim(spec_vendor_prefix(cleaned, raw)))
}

fn last_bracketed(s: &Vec<char>) -> (r: Option<Vec<char>>)
    ensures
        match r {
            Some(b) => spec_last_bracketed(s@) == Some(b@),
            None => spec_last_bracketed(s@) is None,
        },
{
    proof {
        reveal_strlit("[");
    }
    let open = chars_of("[");
    let start = match rfind_chars(s, &open) {
        Some(i) => i,
        None => {
            return None;
        },
    };
    let n = s.len();
    assert(start < n);
    let rest = subvec(s, start + 1, n);
    let end = match find_char(&rest, ']', 0) {
        Some(e) => e,
        None => {
            return None;
        },
    };
    let pre = subvec(&rest, 0, end);
    let inner = trim_chars(&pre);
    if inner.len() == 0 {
        None
    } else {
        Some(inner)
    }
}

fn remove_noise(s: &Vec<char>) -> (r: Vec<char>)
    ensures
        r@ == spec_remove_noise(s@),
{
    let empty: Vec<char> = Vec::new();
    let one_space = chars_of(" ");
    let t1 = replace_chars(s, &chars_of("Corporation"), &empty);
    let t2 = replace_chars(&t1, &chars_of("Inc."), &empty);
    let t3 = replace_chars(&t2, &chars_of("Co."), &empty);
    let t4 = replace_chars(&t3, &chars_of("Ltd."), &empty);
    let t5 = replace_chars(&t4, &chars_of("Limited"), &empty);
    let t6 = replace_chars(&t5, &chars_of("Advanced Micro Devices, "), &empty);
    let t7 = replace_chars(&t6, &chars_of("Advanced Micro Devices"), &empty);
    let t8 = replace_chars(&t7, &chars_of("  "), &one_space);
    trim_chars(&t8)
}

fn vendor_prefix(cleaned: &Vec<char>, raw: &Vec<char>) -> (r: Vec<char>)
    ensures
        r@ == spec_vendor_prefix(cleaned@, raw@),
{
    let lc = to_lower_chars(cleaned);
    let lr = to_lower_chars(raw);
    let trimmed = trim_chars(cleaned);
    if (contains_chars(&lr, &chars_of("nvidia")) || contains_chars(&lc, &chars_of("geforce"))
        || contains_chars(&lc, &chars_of("rtx")) || contains_chars(&lc, &chars_of("gtx")))
        && !starts_with_chars(&lc, &chars_of("nvidia")) {
        let mut out = chars_of("NVIDIA ");
        extend_chars(&mut out, &trimmed);
        out
    } else if (contains_chars(&lr, &chars_of("advanced micro devices")) || contains_chars(
        &lr,
        &chars_of("ati"),
    ) || contains_chars(&lc, &chars_of("radeon")) || contains_chars(&lc, &chars_of("navi")))
        && !starts_with_chars(&lc, &chars_of("amd")) {
        let mut out = chars_of("AMD ");
        extend_chars(&mut out, &trimmed);
        out
    } else if (contains_chars(&lr, &chars_of("intel")) || contains_chars(&lc, &chars_of("arc"))
        || contains_chars(&lc, &chars_of("iris")) || contains_chars(&lc, &chars_of("uhd"))
        || contains_chars(&lc, &chars_of("hd graphics"))) && !starts_with_chars(
        &lc,
        &chars_of("intel"),
    ) {
        let mut out = chars_of("Intel ");
        extend_chars(&mut out, &trimmed);
        out
    } else {
        trimmed
    }
}

/// Universal GPU name cleaner for vendor listing strings: removes a
/// `(rev ...)` suffix, extracts the marketing name from the last bracket
/// group, removes noise words, and normalizes the vendor prefix.
pub fn clean_gpu_name(raw: &str) -> (r: String)
    ensures
        r@ == spec_clean_gpu_name(raw@),
{
    let rawc = chars_of(raw);
    let s0 = trim_chars(&rawc);
    let rev_pat = chars_of("(rev ");
    let s1 = match rfind_chars(&s0, &rev_pat) {
        Some(i) => {
            let pre = subvec(&s0, 0, i);
            trim_chars(&pre)
        },
        None => s0,
    };
    let cleaned = match last_bracketed(&s1) {
        Some(b) => b,
        None => remove_noise(&s1),
    };
    let vp = vendor_prefix(&cleaned, &rawc);
    let vt = trim_chars(&vp);
    let out = collapse_chars(&vt);
    string_of(&out)
}

/// Whether a candidate GPU name is too generic to report.
pub open spec fn spec_is_generic(s: Seq<char>) -> bool {
    let lower = lower_seq(s);
    lower.len() == 0 || lower == "gpu"@ || seq_contains(lower, "generic"@) || seq_contains(
        lower,
        "unknown"@,
    ) || lower.len() < 4
}

/// Whether a candidate GPU name is too generic to report (empty, `"gpu"`,
/// containing `generic`/`unknown`, or shorter than four characters).
pub fn is_generic(s: &str) -> (r: bool)
    ensures
        r == spec_is_generic(s@),
{
    let cs = chars_of(s);
    let lower = to_lower_chars(&cs);
    if lower.len() == 0 || lower.len() < 4 {
        return true;
    }
    eq_chars(&lower, &chars_of("gpu")) || contains_chars(&lower, &chars_of("generic"))
        || contains_chars(&lower, &chars_of("unknown"))
}

/// Whether a thermal label names a sensor or subsystem rather than a device.
pub open spec fn spec_is_sensor_label(s: Seq<char>) -> bool {
    let lower = lower_seq(s);
    seq_contains(lower, "junction"@) || seq_contains(lower, "edge"@) || seq_contains(
        lower,
        "mem"@,
    ) || seq_contains(lower, "sensor"@) || seq_contains(lower, "fan"@) || seq_contains(
        lower,
        "temp"@,
    ) || seq_contains(lower, "power"@)
}

/// Whether a thermal label names a sensor or subsystem (junction, edge,
/// mem, sensor, fan, temp, power) rather than a device.
pub fn is_sensor_or_subsystem_label(s: &str) -> (r: bool)
    ensures
        r == spec_is_sensor_label(s@),
{
    let cs = chars_of(s);
    let lower = to_lower_chars(&cs);
    contains_chars(&lower, &chars_of("junction")) || contains_chars(&lower, &chars_of("edge"))
        || contains_chars(&lower, &chars_of("mem")) || contains_chars(&lower, &chars_of("sensor"))
        || contains_chars(&lower, &chars_of("fan")) || contains_chars(&lower, &chars_of("temp"))
        || contains_chars(&lower, &chars_of("power"))
}

/// Whether a GPU name carries one of the integrated-graphics markers.
pub open spec fn spec_is_integrated(s: Seq<char>) -> bool {
    seq_contains(s, "Intel UHD"@) || seq_contains(s, "Intel HD"@) || seq_contains(
        s,
        "Intel Graphics"@,
    ) || seq_contains(s, "AMD Radeon Graphics"@) || seq_contains(s, "Mesa"@)
}

fn is_integrated(s: &Vec<char>) -> (r: bool)
    ensures
        r == spec_is_integrated(s@),
{
    contains_chars(s, &chars_of("Intel UHD")) || contains_chars(s, &chars_of("Intel HD"))
        || contains_chars(s, &chars_of("Intel Graphics")) || contains_chars(
        s,
        &chars_of("AMD Radeon Graphics"),
    ) || contains_chars(s, &chars_of("Mesa"))
}

/// The index of the first name without an integrated marker, or -1.
pub open spec fn spec_first_dedicated(gpus: Seq<Seq<char>>, i: int) -> int
    decreases gpus.len() - i,
{
    if i < 0 || i >= gpus.len() {
        -1
    } else if !spec_is_integrated(gpus[i]) {
        i
    } else {
        spec_first_dedicated(gpus, i + 1)
    }
}

/// Consecutive duplicates removed, keeping one of each run.
pub open spec fn spec_dedup(s: Seq<Seq<char>>) -> Seq<Seq<char>>
    decreases s.len(),
{
    if s.len() <= 1 {
        s
    } else if s[0] == s[1] {
        spec_dedup(s.drop_first())
    } else {
        seq![s[0]] + spec_dedup(s.drop_first())
    }
}

/// What `prefer_dedicated_or_join` returns: nothing for an empty list, the
/// first dedicated entry when one exists, else the deduplicated list joined
/// with `", "`.
pub open spec fn spec_prefer_dedicated(gpus: Seq<Seq<char>>) -> Option<Seq<char>> {
    if gpus.len() == 0 {
        None
    } else {
        let d = spec_first_dedicated(gpus, 0);
        if d >= 0 {
            Some(gpus[d])
        } else {
            Some(spec_join(spec_dedup(gpus), ", "@))
        }
    }
}

fn dedup_parts(gpus: &Vec<Vec<char>>) -> (r: Vec<Vec<char>>)
    ensures
        r.deep_view() == spec_dedup(gpus.deep_view()),
{
    let mut out: Vec<Vec<char>> = Vec::new();
    let n = gpus.len();
    let mut i: usize = n;
    proof {
        assert(gpus.deep_view().subrange(n as int, n as int) =~= Seq::<Seq<char>>::empty());
        assert(out.deep_view() =~~= spec_dedup(gpus.deep_view().subrange(n as int, n as int)));
    }
    while i > 0
        invariant
            i <= n,
            n == gpus@.len(),
            gpus.deep_view().len() == n,
            out.deep_view() == spec_dedup(gpus.deep_view().subrange(i as int, n as int)),
        decreases i,
    {
        let ghost g = gpus.deep_view();
        let ghost suf = g.subrange(i - 1, n as int);
        proof {
            assert(suf.drop_first() =~= g.subrange(i as int, n as int));
            assert(g[i - 1] == gpus@[i - 1]@);
            if i < n {
                assert(g[i as int] == gpus@[i as int]@);
            }
        }
        if i < n && eq_chars(&gpus[i - 1], &gpus[i]) {
            proof {
                assert(suf[0] == suf[1]);
                assert(out.deep_view() =~~= spec_dedup(suf));
            }
        } else {
            let item = subvec(&gpus[i - 1], 0, gpus[i - 1].len());
            out.insert(0, item);
            proof {
                if i < n {
                    assert(suf[0] != suf[1]);
                    assert(out.deep_view() =~~= seq![suf[0]] + spec_dedup(suf.drop_first()));
                } else {
                    assert(suf.len() == 1);
                    assert(out.deep_view() =~~= suf);
                }
                assert(out.deep_view() =~~= spec_dedup(suf));
            }
        }
        i -= 1;
    }
    proof {
        assert(gpus.deep_view().subrange(0, n as int) =~= gpus.deep_view());
    }
    out
}

/// Prefers a dedicated GPU among the candidates; joins the deduplicated
/// list with `", "` when every candidate looks integrated.
pub fn prefer_dedicated_or_join(gpus: &Vec<Vec<char>>) -> (r: Option<Vec<char>>)
    ensures
        match r {
            Some(v) => spec_prefer_dedicated(gpus.deep_view()) == Some(v@),
            None => spec_prefer_dedicated(gpus.deep_view()) is None,
        },
{
    if gpus.len() == 0 {
        return None;
    }
    let n = gpus.len();
    let mut i: usize = 0;
    while i < n
        invariant
            i <= n,
            n == gpus@.len(),
            gpus.deep_view().len() == n,
            spec_first_dedicated(gpus.deep_view(), 0) == spec_first_dedicated(
                gpus.deep_view(),
                i as int,
            ),
        decreases n - i,
    {
        proof {
            assert(gpus.deep_view()[i as int] == gpus@[i as int]@);
        }
        if !is_integrated(&gpus[i]) {
            proof {
                assert(spec_first_dedicated(gpus.deep_view(), i as int) == i);
            }
            return Some(subvec(&gpus[i], 0, gpus[i].len()));
        }
        i += 1;
    }
    proof {
        assert(spec_first_dedicated(gpus.deep_view(), n as int) == -1);
    }
    let deduped = dedup_parts(gpus);
    let sep = chars_of(", ");
    Some(join_parts(&deduped, &sep))
}

} // verus!
