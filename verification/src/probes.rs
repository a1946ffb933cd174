//! The fact probes' pure composition layer: each function builds the
//! display row of one module from plain values handed in by the host
//! probes, with an exact contract.

use vstd::prelude::*;

use crate::bar::{bar, spec_bar, CURRENT_BAR_STYLE};
use crate::item::InfoItem;
use crate::numfmt::{dec_seq, format_bytes, spec_format_bytes, u64_to_dec};
use crate::sys;
use crate::text::{
    chars_of, contains_chars, join_parts, lower_seq, seq_contains, spec_collapse, spec_join,
    to_lower_chars, collapse_chars, string_of,
};

verus! {

/// The view of an optional string.
pub open spec fn opt_view(o: Option<String>) -> Option<Seq<char>> {
    match o {
        Some(s) => Some(s@),
        None => None,
    }
}

/// The `user@host` header value; an unknown host reads `unknown`.
pub open spec fn spec_user_host_value(user: Seq<char>, host: Option<Seq<char>>) -> Seq<char> {
    user + "@"@ + (match host {
        Some(h) => h,
        None => "unknown"@,
    })
}

/// Builds the header row `user@host` with an empty label.
pub fn compose_user_host(user: &str, host: &Option<String>) -> (r: InfoItem)
    ensures
        r.label@ == Seq::<char>::empty(),
        r.value@ == spec_user_host_value(user@, opt_view(*host)),
{
    let mut v = String::from_str(user);
    v.append("@");
    match host {
        Some(h) => v.append(h.as_str()),
        None => v.append("unknown"),
    }
    proof {
        assert(v@ =~= spec_user_host_value(user@, opt_view(*host)));
    }
    InfoItem { label: String::new(), value: v }
}

/// The `user@host` header row for the calling user and machine.
pub fn user_host() -> (r: InfoItem)
    ensures
        r.label@ == Seq::<char>::empty(),
{
    let user = match sys::whoami_username() {
        Some(u) => u,
        None => String::from_str("unknown"),
    };
    let host = sys::whoami_hostname();
    compose_user_host(user.as_str(), &host)
}

/// The OS value: the long name, or `name version`, or `unknown`, with the
/// architecture appended unless it already occurs (case-insensitively).
pub open spec fn spec_os_value(
    long: Option<Seq<char>>,
    name: Option<Seq<char>>,
    ver: Option<Seq<char>>,
    arch: Seq<char>,
) -> Seq<char> {
    let os = match long {
        Some(l) => l,
        None => match name {
            Some(n) => match ver {
                Some(v) => n + " "@ + v,
                None => n,
            },
            None => "unknown"@,
        },
    };
    if arch.len() == 0 || seq_contains(lower_seq(os), lower_seq(arch)) {
        os
    } else {
        os + " "@ + arch
    }
}

/// Builds the OS row from the reported name pieces.
pub fn compose_os(
    long: &Option<String>,
    name: &Option<String>,
    ver: &Option<String>,
    arch: &str,
) -> (r: InfoItem)
    ensures
        r.label@ == "OS"@,
        r.value@ == spec_os_value(opt_view(*long), opt_view(*name), opt_view(*ver), arch@),
{
    let os: String = match long {
        Some(l) => l.clone(),
        None => match name {
            Some(n) => match ver {
                Some(v) => {
                    let mut s = n.clone();
                    s.append(" ");
                    s.append(v.as_str());
                    proof {
                        assert(s@ =~= n@ + " "@ + v@);
                    }
                    s
                },
                None => n.clone(),
            },
            None => String::from_str("unknown"),
        },
    };
    let osc = chars_of(os.as_str());
    let archc = chars_of(arch);
    let os_lower = to_lower_chars(&osc);
    let arch_lower = to_lower_chars(&archc);
    if arch.is_empty() || contains_chars(&os_lower, &arch_lower) {
        InfoItem { label: String::from_str("OS"), value: os }
    } else {
        let mut v = os;
        v.append(" ");
        v.append(arch);
        proof {
            assert(v@ =~= spec_os_value(opt_view(*long), opt_view(*name), opt_view(*ver), arch@));
        }
        InfoItem { label: String::from_str("OS"), value: v }
    }
}

/// The OS row for the running system.
pub fn os() -> (r: InfoItem)
    ensures
        r.label@ == "OS"@,
{
    let long = sys::sysinfo_long_os_version();
    let name = sys::sysinfo_os_name();
    let ver = sys::sysinfo_os_version();
    let arch = sys::sysinfo_cpu_arch();
    compose_os(&long, &name, &ver, arch.as_str())
}

/// The kernel row for a reported kernel version string.
pub fn compose_kernel(version: String) -> (r: InfoItem)
    ensures
        r.label@ == "Kernel"@,
        r.value@ == version@,
{
    InfoItem { label: String::from_str("Kernel"), value: version }
}

/// The kernel row for the running system.
pub fn kernel() -> (r: InfoItem)
    ensures
        r.label@ == "Kernel"@,
{
    compose_kernel(sys::sysinfo_kernel_long_version())
}

/// The human form of an uptime: days, hours and minutes, dropping leading
/// zero units.
pub open spec fn spec_format_uptime(secs: nat) -> Seq<char> {
    let d = secs / 86400;
    let h = (secs % 86400) / 3600;
    let m = (secs % 3600) / 60;
    if d > 0 {
        dec_seq(d) + "d "@ + dec_seq(h) + "h "@ + dec_seq(m) + "m"@
    } else if h > 0 {
        dec_seq(h) + "h "@ + dec_seq(m) + "m"@
    } else {
        dec_seq(m) + "m"@
    }
}

/// Formats an uptime in seconds.
pub fn format_uptime(secs: u64) -> (r: String)
    ensures
        r@ == spec_format_uptime(secs as nat),
{
    let d = secs / 86400;
    let h = (secs % 86400) / 3600;
    let m = (secs % 3600) / 60;
    if d > 0 {
        let mut s = u64_to_dec(d);
        s.append("d ");
        s.append(u64_to_dec(h).as_str());
        s.append("h ");
        s.append(u64_to_dec(m).as_str());
        s.append("m");
        proof {
            assert(s@ =~= spec_format_uptime(secs as nat));
        }
        s
    } else if h > 0 {
        let mut s = u64_to_dec(h);
        s.append("h ");
        s.append(u64_to_dec(m).as_str());
        s.append("m");
        proof {
            assert(s@ =~= spec_format_uptime(secs as nat));
        }
        s
    } else {
        let mut s = u64_to_dec(m);
        s.append("m");
        proof {
            assert(s@ =~= spec_format_uptime(secs as nat));
        }
        s
    }
}

/// The uptime row for a boot age in seconds.
pub fn compose_uptime(secs: u64) -> (r: InfoItem)
    ensures
        r.label@ == "Uptime"@,
        r.value@ == spec_format_uptime(secs as nat),
{
    InfoItem { label: String::from_str("Uptime"), value: format_uptime(secs) }
}

/// The uptime row for the running system.
pub fn uptime() -> (r: InfoItem)
    ensures
        r.label@ == "Uptime"@,
{
    compose_uptime(sys::sysinfo_uptime())
}

/// The desktop environment value: the current-desktop variable, else the
/// session variable, else `N/A`.
pub open spec fn spec_de_value(xdg: Option<Seq<char>>, session: Option<Seq<char>>) -> Seq<char> {
    match xdg {
        Some(x) => x,
        None => match session {
            Some(s) => s,
            None => "N/A"@,
        },
    }
}

/// The desktop environment row from the two environment values.
pub fn de_wm(xdg: &Option<String>, session: &Option<String>) -> (r: InfoItem)
    ensures
        r.label@ == "DE/WM"@,
        r.value@ == spec_de_value(opt_view(*xdg), opt_view(*session)),
{
    let v: String = match xdg {
        Some(x) => x.clone(),
        None => match session {
            Some(s) => s.clone(),
            None => String::from_str("N/A"),
        },
    };
    InfoItem { label: String::from_str("DE/WM"), value: v }
}

/// The memory value: used and total, with an optional usage bar.
pub open spec fn spec_memory_value(
    used: nat,
    total: nat,
    unit_lower: Seq<char>,
    show_bar: bool,
) -> Seq<char> {
    let base = spec_format_bytes(used, unit_lower) + " / "@ + spec_format_bytes(total, unit_lower);
    if show_bar && total > 0 {
        base + " ["@ + spec_bar(used, total, crate::BAR_WIDTH as nat, CURRENT_BAR_STYLE) + "]"@
    } else {
        base
    }
}

/// The memory row from used and total bytes.
pub fn memory(used: u64, total: u64, show_bar: bool, unit_type: &str) -> (r: InfoItem)
    ensures
        r.label@ == "Memory"@,
        r.value@ == spec_memory_value(used as nat, total as nat, lower_seq(unit_type@), show_bar),
{
    let mut v = format_bytes(used, unit_type);
    v.append(" / ");
    v.append(format_bytes(total, unit_type).as_str());
    if show_bar && total > 0 {
        v.append(" [");
        v.append(bar(used, total, crate::BAR_WIDTH).as_str());
        v.append("]");
    }
    proof {
        assert(v@ =~= spec_memory_value(used as nat, total as nat, lower_seq(unit_type@), show_bar));
    }
    InfoItem { label: String::from_str("Memory"), value: v }
}

/// The swap value: used and total with the usage percentage.
pub open spec fn spec_swap_value(used: nat, total: nat, unit_lower: Seq<char>) -> Seq<char> {
    let pct = if total > 0 {
        crate::disk::spec_pct(used, total)
    } else {
        0
    };
    spec_format_bytes(used, unit_lower) + " / "@ + spec_format_bytes(total, unit_lower) + " ("@
        + dec_seq(pct) + "%)"@
}

/// The swap row from used and total bytes.
pub fn swap(used: u64, total: u64, unit_type: &str) -> (r: InfoItem)
    requires
        used <= total || total == 0,
    ensures
        r.label@ == "Swap"@,
        r.value@ == spec_swap_value(used as nat, total as nat, lower_seq(unit_type@)),
{
    let pct: u64 = if total > 0 {
        crate::disk::pct_of(used, total)
    } else {
        0
    };
    let mut v = format_bytes(used, unit_type);
    v.append(" / ");
    v.append(format_bytes(total, unit_type).as_str());
    v.append(" (");
    v.append(u64_to_dec(pct).as_str());
    v.append("%)");
    proof {
        assert(v@ =~= spec_swap_value(used as nat, total as nat, lower_seq(unit_type@)));
    }
    InfoItem { label: String::from_str("Swap"), value: v }
}

/// The identity of the first CPU, when one is reported.
#[derive(Debug)]
pub struct CpuIdent {
    pub brand: String,
    pub name: String,
    pub freq_mhz: u64,
}

/// The plain CPU facts the CPU row reads.
#[derive(Debug)]
pub struct CpuFacts {
    pub ident: Option<CpuIdent>,
    pub usage_pct: u64,
    pub temp_tenths: Option<u64>,
}

/// A temperature in tenths of a degree, as ` (T.D°C)`.
pub open spec fn spec_temp_suffix(tenths: nat) -> Seq<char> {
    " ("@ + dec_seq(tenths / 10) + "."@ + dec_seq(tenths % 10) + "°C)"@
}

fn temp_suffix(tenths: u64) -> (r: String)
    ensures
        r@ == spec_temp_suffix(tenths as nat),
{
    let mut s = String::from_str(" (");
    s.append(u64_to_dec(tenths / 10).as_str());
    s.append(".");
    s.append(u64_to_dec(tenths % 10).as_str());
    s.append("°C)");
    proof {
        assert(s@ =~= spec_temp_suffix(tenths as nat));
    }
    s
}

/// The displayed CPU model name: the collapsed brand when it is non-empty
/// and differs from the collapsed name, else the collapsed name.
pub open spec fn spec_cpu_name(ident: Option<CpuIdent>) -> Seq<char> {
    match ident {
        Some(ci) => {
            let b = spec_collapse(ci.brand@);
            let n = spec_collapse(ci.name@);
            if b.len() > 0 && b != n {
                b
            } else {
                n
            }
        },
        None => "N/A"@,
    }
}

/// The frequency display: `X.YGHz` at or above 1000 MHz, else `NMHz`, `?`
/// when no CPU is reported.
pub open spec fn spec_freq_str(ident: Option<CpuIdent>) -> Seq<char> {
    match ident {
        Some(ci) => {
            if ci.freq_mhz >= 1000 {
                let t = ((ci.freq_mhz + 50) / 100) as nat;
                dec_seq(t / 10) + "."@ + dec_seq(t % 10) + "GHz"@
            } else {
                dec_seq(ci.freq_mhz as nat) + "MHz"@
            }
        },
        None => "?"@,
    }
}

/// The CPU value: model name and optional temperature; with the bar, also
/// the usage bar, percentage and frequency.
pub open spec fn spec_cpu_value(
    ident: Option<CpuIdent>,
    usage_pct: nat,
    temp_tenths: Option<u64>,
    show_bar: bool,
) -> Seq<char> {
    let nt = spec_cpu_name(ident) + (match temp_tenths {
        Some(t) => spec_temp_suffix(t as nat),
        None => Seq::<char>::empty(),
    });
    if !show_bar {
        nt
    } else {
        let usage = if usage_pct > 100 {
            100nat
        } else {
            usage_pct
        };
        spec_bar(usage, 100, crate::BAR_WIDTH as nat, CURRENT_BAR_STYLE) + " "@ + dec_seq(usage)
            + "% @ "@ + spec_freq_str(ident) + "  "@ + nt
    }
}

/// The CPU row from the plain CPU facts.
pub fn cpu(facts: &CpuFacts, show_bar: bool) -> (r: InfoItem)
    ensures
        r.label@ == "CPU"@,
        r.value@ == spec_cpu_value(facts.ident, facts.usage_pct as nat, facts.temp_tenths, show_bar),
{
    let name: String = match &facts.ident {
        Some(ci) => {
            let bc = chars_of(ci.brand.as_str());
            let nc = chars_of(ci.name.as_str());
            let b = collapse_chars(&bc);
            let n = collapse_chars(&nc);
            if b.len() > 0 && !crate::text::eq_chars(&b, &n) {
                string_of(&b)
            } else {
                string_of(&n)
            }
        },
        None => String::from_str("N/A"),
    };
    let mut nt = name;
    match &facts.temp_tenths {
        Some(t) => {
            nt.append(temp_suffix(*t).as_str());
        },
        None => {},
    }
    if !show_bar {
        proof {
            assert(nt@ =~= spec_cpu_value(
                facts.ident,
                facts.usage_pct as nat,
                facts.temp_tenths,
                show_bar,
            ));
        }
        return InfoItem { label: String::from_str("CPU"), value: nt };
    }
    let usage: u64 = if facts.usage_pct > 100 {
        100
    } else {
        facts.usage_pct
    };
    let mut v = bar(usage, 100, crate::BAR_WIDTH);
    v.append(" ");
    v.append(u64_to_dec(usage).as_str());
    v.append("% @ ");
    let freq: String = match &facts.ident {
        Some(ci) => {
            if ci.freq_mhz >= 1000 {
                let t128: u128 = ((ci.freq_mhz as u128) + 50) / 100;
                proof {
                    vstd::arithmetic::div_mod::lemma_multiply_divide_lt(
                        (ci.freq_mhz as int) + 50,
                        100,
                        0x1_0000_0000_0000_0000,
                    );
                }
                let t: u64 = t128 as u64;
                let mut f = u64_to_dec(t / 10);
                f.append(".");
                f.append(u64_to_dec(t % 10).as_str());
                f.append("GHz");
                proof {
                    assert(f@ =~= spec_freq_str(facts.ident));
                }
                f
            } else {
                let mut f = u64_to_dec(ci.freq_mhz);
                f.append("MHz");
                proof {
                    assert(f@ =~= spec_freq_str(facts.ident));
                }
                f
            }
        },
        None => String::from_str("?"),
    };
    v.append(freq.as_str());
    v.append("  ");
    v.append(nt.as_str());
    proof {
        assert(v@ =~= spec_cpu_value(
            facts.ident,
            facts.usage_pct as nat,
            facts.temp_tenths,
            show_bar,
        ));
    }
    InfoItem { label: String::from_str("CPU"), value: v }
}

/// The GPU value: the detected name (or `Generic GPU`) with an optional
/// temperature suffix.
pub open spec fn spec_gpu_value(name: Option<Seq<char>>, temp_tenths: Option<u64>) -> Seq<char> {
    let n = match name {
        Some(s) => s,
        None => "Generic GPU"@,
    };
    match temp_tenths {
        Some(t) => n + spec_temp_suffix(t as nat),
        None => n,
    }
}

/// The GPU row from a detected name and temperature.
pub fn gpu_item(name: &Option<String>, temp_tenths: &Option<u64>) -> (r: InfoItem)
    ensures
        r.label@ == "GPU"@,
        r.value@ == spec_gpu_value(opt_view(*name), *temp_tenths),
{
    let mut v: String = match name {
        Some(s) => s.clone(),
        None => String::from_str("Generic GPU"),
    };
    match temp_tenths {
        Some(t) => {
            v.append(temp_suffix(*t).as_str());
        },
        None => {},
    }
    InfoItem { label: String::from_str("GPU"), value: v }
}

/// The currently playing track, when a media player is active.
#[derive(Debug)]
pub struct MediaFacts {
    pub artist: String,
    pub title: String,
}

/// One reported display.
#[derive(Clone, Copy, Debug, PartialEq, Eq, Structural)]
pub struct ResolutionFact {
    pub width: u32,
    pub height: u32,
    pub hz: Option<u32>,
}

/// One display's entry: `WxH`, with ` @ NHz` when a refresh rate is known.
pub open spec fn spec_res_entry(f: ResolutionFact) -> Seq<char> {
    dec_seq(f.width as nat) + "x"@ + dec_seq(f.height as nat) + (match f.hz {
        Some(h) => " @ "@ + dec_seq(h as nat) + "Hz"@,
        None => Seq::<char>::empty(),
    })
}

/// The entries of every reported display, in order.
pub open spec fn spec_res_entries(list: Seq<ResolutionFact>) -> Seq<Seq<char>>
    decreases list.len(),
{
    if list.len() == 0 {
        Seq::empty()
    } else {
        seq![spec_res_entry(list[0])] + spec_res_entries(list.drop_first())
    }
}

/// The resolution value: the entries joined with `", "`, or `—` when no
/// display is reported.
pub open spec fn spec_resolution_value(list: Seq<ResolutionFact>) -> Seq<char> {
    if list.len() == 0 {
        "—"@
    } else {
        spec_join(spec_res_entries(list), ", "@)
    }
}

fn res_entry(f: &ResolutionFact) -> (r: Vec<char>)
    ensures
        r@ == spec_res_entry(*f),
{
    let mut s = u64_to_dec(f.width as u64);
    s.append("x");
    s.append(u64_to_dec(f.height as u64).as_str());
    match f.hz {
        Some(h) => {
            s.append(" @ ");
            s.append(u64_to_dec(h as u64).as_str());
            s.append("Hz");
        },
        None => {},
    }
    proof {
        assert(s@ =~= spec_res_entry(*f));
    }
    chars_of(s.as_str())
}

/// The resolution row from the reported displays.
pub fn resolution(list: &Vec<ResolutionFact>) -> (r: InfoItem)
    ensures
        r.label@ == "Resolution"@,
        r.value@ == spec_resolution_value(list@),
{
    if list.len() == 0 {
        return InfoItem { label: String::from_str("Resolution"), value: String::from_str("—") };
    }
    let mut parts: Vec<Vec<char>> = Vec::new();
    let mut i: usize = list.len();
    proof {
        assert(list@.skip(i as int) =~= Seq::<ResolutionFact>::empty());
        assert(parts.deep_view() =~~= spec_res_entries(list@.skip(i as int)));
    }
    while i > 0
        invariant
            i <= list@.len(),
            parts.deep_view() == spec_res_entries(list@.skip(i as int)),
        decreases i,
    {
        i -= 1;
        parts.insert(0, res_entry(&list[i]));
        proof {
            let su = list@.skip(i as int);
            assert(su.drop_first() =~= list@.skip(i + 1));
            assert(su[0] == list@[i as int]);
            assert(parts.deep_view() =~~= spec_res_entries(su));
        }
    }
    proof {
        assert(list@.skip(0) =~= list@);
    }
    let sep = chars_of(", ");
    let joined = join_parts(&parts, &sep);
    InfoItem { label: String::from_str("Resolution"), value: string_of(&joined) }
}

/// Counts of installed packages per package manager; a missing manager
/// contributes nothing.
#[derive(Clone, Copy, Debug, PartialEq, Eq, Structural)]
pub struct PackageCounts {
    pub pacman: Option<u32>,
    pub dpkg: Option<u32>,
    pub rpm: Option<u32>,
    pub flatpak: Option<u32>,
    pub snap: Option<u32>,
}

/// One package part, `N (manager)`.
pub open spec fn spec_pkg_part(n: nat, manager: Seq<char>) -> Seq<char> {
    dec_seq(n) + " ("@ + manager + ")"@
}

/// The ordered parts of the packages value.
pub open spec fn spec_pkg_parts(c: PackageCounts) -> Seq<Seq<char>> {
    (match c.pacman {
        Some(n) => seq![spec_pkg_part(n as nat, "pacman"@)],
        None => Seq::<Seq<char>>::empty(),
    }) + (match c.dpkg {
        Some(n) => seq![spec_pkg_part(n as nat, "dpkg"@)],
        None => Seq::<Seq<char>>::empty(),
    }) + (match c.rpm {
        Some(n) => seq![spec_pkg_part(n as nat, "rpm"@)],
        None => Seq::<Seq<char>>::empty(),
    }) + (match c.flatpak {
        Some(n) => seq![spec_pkg_part(n as nat, "flatpak"@)],
        None => Seq::<Seq<char>>::empty(),
    }) + (match c.snap {
        Some(n) => seq![spec_pkg_part(n as nat, "snap"@)],
        None => Seq::<Seq<char>>::empty(),
    })
}

/// The packages value: the parts joined with `", "`, or `—` when no
/// manager was found.
pub open spec fn spec_packages_value(c: PackageCounts) -> Seq<char> {
    let parts = spec_pkg_parts(c);
    if parts.len() == 0 {
        "—"@
    } else {
        spec_join(parts, ", "@)
    }
}

fn pkg_part(n: u32, manager: &str) -> (r: Vec<char>)
    ensures
        r@ == spec_pkg_part(n as nat, manager@),
{
    let mut s = u64_to_dec(n as u64);
    s.append(" (");
    s.append(manager);
    s.append(")");
    proof {
        assert(s@ =~= spec_pkg_part(n as nat, manager@));
    }
    chars_of(s.as_str())
}

/// The packages row from the per-manager counts.
pub fn packages(c: &PackageCounts) -> (r: InfoItem)
    ensures
        r.label@ == "Packages"@,
        r.value@ == spec_packages_value(*c),
{
    let mut parts: Vec<Vec<char>> = Vec::new();
    match c.pacman {
        Some(n) => parts.push(pkg_part(n, "pacman")),
        None => {},
    }
    match c.dpkg {
        Some(n) => parts.push(pkg_part(n, "dpkg")),
        None => {},
    }
    match c.rpm {
        Some(n) => parts.push(pkg_part(n, "rpm")),
        None => {},
    }
    match c.flatpak {
        Some(n) => parts.push(pkg_part(n, "flatpak")),
        None => {},
    }
    match c.snap {
        Some(n) => parts.push(pkg_part(n, "snap")),
        None => {},
    }
    proof {
        assert(parts.deep_view() =~~= spec_pkg_parts(*c));
    }
    if parts.len() == 0 {
        InfoItem { label: String::from_str("Packages"), value: String::from_str("—") }
    } else {
        let sep = chars_of(", ");
        let joined = join_parts(&parts, &sep);
        InfoItem { label: String::from_str("Packages"), value: string_of(&joined) }
    }
}

/// One duration part: `1 unit` or `N units`.
pub open spec fn spec_duration_part(n: nat, sing: Seq<char>, plur: Seq<char>) -> Seq<char> {
    if n == 1 {
        "1 "@ + sing
    } else {
        dec_seq(n) + " "@ + plur
    }
}

/// The non-zero parts of a years/months/days duration, in order.
pub open spec fn spec_duration_parts(y: nat, mo: nat, d: nat) -> Seq<Seq<char>> {
    (if y > 0 {
        seq![spec_duration_part(y, "year"@, "years"@)]
    } else {
        Seq::<Seq<char>>::empty()
    }) + (if mo > 0 {
        seq![spec_duration_part(mo, "month"@, "months"@)]
    } else {
        Seq::<Seq<char>>::empty()
    }) + (if d > 0 {
        seq![spec_duration_part(d, "day"@, "days"@)]
    } else {
        Seq::<Seq<char>>::empty()
    })
}

/// The elapsed time between two instants as years (365 days), months
/// (30 days) and days, or `Less than a day`.
pub open spec fn spec_format_duration_since(now_secs: nat, created_secs: nat) -> Seq<char> {
    let secs = if created_secs > now_secs {
        0nat
    } else {
        (now_secs - created_secs) as nat
    };
    let days = secs / 86400;
    let y = days / 365;
    let rem = days % 365;
    let mo = rem / 30;
    let d = rem % 30;
    let parts = spec_duration_parts(y, mo, d);
    if parts.len() == 0 {
        "Less than a day"@
    } else {
        spec_join(parts, ", "@)
    }
}

fn duration_part(n: u64, sing: &str, plur: &str) -> (r: Vec<char>)
    ensures
        r@ == spec_duration_part(n as nat, sing@, plur@),
{
    if n == 1 {
        let mut s = String::from_str("1 ");
        s.append(sing);
        chars_of(s.as_str())
    } else {
        let mut s = u64_to_dec(n);
        s.append(" ");
        s.append(plur);
        proof {
            assert(s@ =~= dec_seq(n as nat) + " "@ + plur@);
        }
        chars_of(s.as_str())
    }
}

/// Formats the elapsed time from `created_secs` to `now_secs`.
pub fn format_duration_since(now_secs: u64, created_secs: u64) -> (r: String)
    ensures
        r@ == spec_format_duration_since(now_secs as nat, created_secs as nat),
{
    let secs: u64 = if created_secs > now_secs {
        0
    } else {
        now_secs - created_secs
    };
    let days = secs / 86400;
    let y = days / 365;
    let rem = days % 365;
    let mo = rem / 30;
    let d = rem % 30;
    let mut parts: Vec<Vec<char>> = Vec::new();
    if y > 0 {
        parts.push(duration_part(y, "year", "years"));
    }
    if mo > 0 {
        parts.push(duration_part(mo, "month", "months"));
    }
    if d > 0 {
        parts.push(duration_part(d, "day", "days"));
    }
    proof {
        assert(parts.deep_view() =~~= spec_duration_parts(y as nat, mo as nat, d as nat));
    }
    if parts.len() == 0 {
        String::from_str("Less than a day")
    } else {
        let sep = chars_of(", ");
        let joined = join_parts(&parts, &sep);
        string_of(&joined)
    }
}

/// The OS-age row: the formatted age of the installation, `Unknown` when no
/// creation time is available.
pub fn os_age(created_secs: &Option<u64>, now_secs: u64) -> (r: InfoItem)
    ensures
        r.label@ == "OS Age"@,
        r.value@ == (match *created_secs {
            Some(c) => spec_format_duration_since(now_secs as nat, c as nat),
            None => "Unknown"@,
        }),
{
    let v: String = match created_secs {
        Some(c) => format_duration_since(now_secs, *c),
        None => String::from_str("Unknown"),
    };
    InfoItem { label: String::from_str("OS Age"), value: v }
}

/// One palette row: the colored blocks for the SGR codes `lo..hi`.
pub open spec fn spec_palette_row(lo: nat, hi: nat) -> Seq<char>
    decreases hi - lo,
{
    if lo >= hi {
        Seq::empty()
    } else {
        "\u{1b}["@ + dec_seq(lo) + "m██ \u{1b}[0m"@ + spec_palette_row(lo + 1, hi)
    }
}

fn palette_row(lo: u64, hi: u64) -> (r: String)
    requires
        lo <= hi,
    ensures
        r@ == spec_palette_row(lo as nat, hi as nat),
{
    let mut s = String::new();
    let mut i: u64 = lo;
    proof {
        assert(Seq::<char>::empty() + spec_palette_row(lo as nat, hi as nat) =~= spec_palette_row(
            lo as nat,
            hi as nat,
        ));
    }
    while i < hi
        invariant
            lo <= i <= hi,
            s@ + spec_palette_row(i as nat, hi as nat) == spec_palette_row(lo as nat, hi as nat),
        decreases hi - i,
    {
        let ghost before = s@;
        s.append("\u{1b}[");
        s.append(u64_to_dec(i).as_str());
        s.append("m██ \u{1b}[0m");
        proof {
            assert(s@ + spec_palette_row((i + 1) as nat, hi as nat) =~= before + spec_palette_row(
                i as nat,
                hi as nat,
            ));
        }
        i += 1;
    }
    proof {
        assert(spec_palette_row(hi as nat, hi as nat) == Seq::<char>::empty());
        assert(s@ =~= s@ + Seq::<char>::empty());
    }
    s
}

/// What the palette rows are: the standard block row (codes 30–37) and the
/// bright one (90–97) with color, or two plain block rows without.
pub open spec fn spec_palette(no_color: bool) -> Seq<Seq<char>> {
    if no_color {
        seq!["██ ██ ██ ██ ██ ██ ██ ██"@, "██ ██ ██ ██ ██ ██ ██ ██"@]
    } else {
        seq![spec_palette_row(30, 38), spec_palette_row(90, 98)]
    }
}

/// Builds the two palette rows: 8 standard and 8 bright colored blocks, or
/// plain blocks when color is disabled.
pub fn get_color_palette(no_color: bool) -> (r: Vec<String>)
    ensures
        r.deep_view() == spec_palette(no_color),
{
    let mut out: Vec<String> = Vec::new();
    if no_color {
        out.push(String::from_str("██ ██ ██ ██ ██ ██ ██ ██"));
        out.push(String::from_str("██ ██ ██ ██ ██ ██ ██ ██"));
    } else {
        out.push(palette_row(30, 38));
        out.push(palette_row(90, 98));
    }
    proof {
        assert(out.deep_view() =~~= spec_palette(no_color));
    }
    out
}

} // verus!
