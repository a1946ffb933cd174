//! The layout engine: dispatches each configured layout key to its probe
//! composer, accumulates (key, label, value) rows in layout order, and
//! reduces rows to JSON-ready pairs.

use vstd::prelude::*;

use crate::config::AppConfig;
use crate::disk::{spec_disk_rows, DiskFact};
use crate::item::{item_view, items_sorted, items_view, InfoItem};
use crate::parsers::{
    get_gpu_name, get_theme_info, shell, spec_get_gpu_name, spec_shell_value, spec_terminal_value,
    spec_terminal_font_value, spec_theme_info_values, terminal, terminal_font,
};
use crate::probes::{
    compose_os, compose_user_host, compose_uptime, cpu, de_wm, get_color_palette, gpu_item, memory,
    opt_view, os_age, packages, resolution, spec_cpu_value, spec_de_value,
    spec_format_duration_since, spec_format_uptime, spec_gpu_value, spec_memory_value,
    spec_os_value, spec_packages_value, spec_palette, spec_resolution_value, spec_swap_value,
    spec_user_host_value, swap, CpuFacts, MediaFacts, PackageCounts, ResolutionFact,
};
use crate::text::{chars_of, eq_str, lower_seq, spec_trim, string_of, trim_chars};

verus! {

/// A memory-like quantity: used and total bytes.
#[derive(Clone, Copy, Debug, PartialEq, Eq, Structural)]
pub struct MemFacts {
    pub used: u64,
    pub total: u64,
}

/// Every externally gathered plain value the layout engine reads. The
/// caller fills it from the host; the engine turns it into rows.
#[derive(Debug)]
pub struct ProbeData {
    pub user: String,
    pub host: Option<String>,
    pub os_long: Option<String>,
    pub os_name: Option<String>,
    pub os_version: Option<String>,
    pub arch: String,
    pub kernel_version: String,
    pub uptime_secs: Option<u64>,
    pub shell_path: Option<String>,
    pub shell_version_output: Option<String>,
    pub xdg_desktop: Option<String>,
    pub desktop_session: Option<String>,
    pub cpu: Option<CpuFacts>,
    pub memory: Option<MemFacts>,
    pub swap: Option<MemFacts>,
    pub lspci_mm_output: Option<String>,
    pub gpu_fallback_name: Option<String>,
    pub gpu_temp_tenths: Option<u64>,
    pub disks: Vec<DiskFact>,
    pub term_program: Option<String>,
    pub has_alacritty: bool,
    pub has_kitty: bool,
    pub parent_names: Vec<String>,
    pub gsettings_font: Option<String>,
    pub packages: PackageCounts,
    pub resolutions: Vec<ResolutionFact>,
    pub os_created_secs: Option<u64>,
    pub now_secs: u64,
    pub gtk3_settings: Option<String>,
    pub gtk4_settings: Option<String>,
    pub gtk_theme_env: Option<String>,
    pub media: Option<MediaFacts>,
    pub local_ip: Option<String>,
}

/// One row of the report: layout key, display label, value.
#[derive(Debug)]
pub struct Row {
    pub key: String,
    pub label: String,
    pub value: String,
}

/// The view of a row: its three character sequences.
pub open spec fn row_view(r: Row) -> (Seq<char>, Seq<char>, Seq<char>) {
    (r.key@, r.label@, r.value@)
}

/// The views of a row vector.
pub open spec fn rows_view(v: Seq<Row>) -> Seq<(Seq<char>, Seq<char>, Seq<char>)> {
    v.map_values(|r: Row| row_view(r))
}

/// The GPU name used for the `gpu` row: the parsed listing name, else the
/// caller's fallback name.
pub open spec fn spec_gpu_chosen_name(data: ProbeData) -> Option<Seq<char>> {
    match spec_get_gpu_name(opt_view(data.lspci_mm_output)) {
        Some(n) => Some(n),
        None => opt_view(data.gpu_fallback_name),
    }
}

/// The clamped swap usage: sysinfo can momentarily report more used than
/// total; the display clamps at the total.
pub open spec fn spec_clamp(used: u64, total: u64) -> u64 {
    if used > total {
        total
    } else {
        used
    }
}

/// The exact rows of one layout key, for every key but `disk` (whose rows
/// are ordered by the sort and pinned by `fetch_module_post`).
pub open spec fn spec_rows_exact(
    key: Seq<char>,
    config: AppConfig,
    data: ProbeData,
    no_color: bool,
) -> Seq<(Seq<char>, Seq<char>, Seq<char>)> {
    let ul = lower_seq(config.general.unit_type@);
    if key == "user_host"@ {
        seq![(key, Seq::<char>::empty(), spec_user_host_value(data.user@, opt_view(data.host)))]
    } else if key == "os"@ {
        seq![
            (
                key,
                "OS"@,
                spec_os_value(
                    opt_view(data.os_long),
                    opt_view(data.os_name),
                    opt_view(data.os_version),
                    data.arch@,
                ),
            ),
        ]
    } else if key == "kernel"@ {
        seq![(key, "Kernel"@, data.kernel_version@)]
    } else if key == "uptime"@ {
        match data.uptime_secs {
            Some(s) => seq![(key, "Uptime"@, spec_format_uptime(s as nat))],
            None => Seq::empty(),
        }
    } else if key == "shell"@ {
        seq![
            (
                key,
                "Shell"@,
                spec_shell_value(opt_view(data.shell_path), opt_view(data.shell_version_output)),
            ),
        ]
    } else if key == "de"@ {
        seq![
            (
                key,
                "DE/WM"@,
                spec_de_value(opt_view(data.xdg_desktop), opt_view(data.desktop_session)),
            ),
        ]
    } else if key == "cpu"@ {
        match data.cpu {
            Some(f) => seq![
                (
                    key,
                    "CPU"@,
                    spec_cpu_value(
                        f.ident,
                        f.usage_pct as nat,
                        f.temp_tenths,
                        config.general.show_cpu_bar,
                    ),
                ),
            ],
            None => Seq::empty(),
        }
    } else if key == "gpu"@ {
        seq![(key, "GPU"@, spec_gpu_value(spec_gpu_chosen_name(data), data.gpu_temp_tenths))]
    } else if key == "memory"@ {
        match data.memory {
            Some(m) => seq![
                (
                    key,
                    "Memory"@,
                    spec_memory_value(
                        m.used as nat,
                        m.total as nat,
                        ul,
                        config.general.show_memory_bar,
                    ),
                ),
            ],
            None => Seq::empty(),
        }
    } else if key == "terminal"@ {
        seq![
            (
                key,
                "Terminal"@,
                spec_terminal_value(
                    opt_view(data.term_program),
                    data.has_alacritty,
                    data.has_kitty,
                    data.parent_names.deep_view(),
                ),
            ),
        ]
    } else if key == "terminal_font"@ {
        seq![(key, "Terminal Font"@, spec_terminal_font_value(opt_view(data.gsettings_font)))]
    } else if key == "packages"@ {
        seq![(key, "Packages"@, spec_packages_value(data.packages))]
    } else if key == "resolution"@ {
        seq![(key, "Resolution"@, spec_resolution_value(data.resolutions@))]
    } else if key == "swap"@ {
        match data.swap {
            Some(m) => seq![
                (
                    key,
                    "Swap"@,
                    spec_swap_value(spec_clamp(m.used, m.total) as nat, m.total as nat, ul),
                ),
            ],
            None => Seq::empty(),
        }
    } else if key == "os_age"@ {
        seq![
            (
                key,
                "OS Age"@,
                match data.os_created_secs {
                    Some(c) => spec_format_duration_since(data.now_secs as nat, c as nat),
                    None => "Unknown"@,
                },
            ),
        ]
    } else if key == "theme"@ {
        let vals = spec_theme_info_values(
            opt_view(data.gtk3_settings),
            opt_view(data.gtk4_settings),
            opt_view(data.gtk_theme_env),
        );
        seq![(key, "Theme"@, vals.0), (key, "Icons"@, vals.1), (key, "Font"@, vals.2)]
    } else if key == "media"@ {
        match data.media {
            Some(m) => seq![(key, "Media"@, "🎵 "@ + m.artist@ + " - "@ + m.title@)],
            None => Seq::empty(),
        }
    } else if key == "local_ip"@ {
        match data.local_ip {
            Some(ip) => seq![(key, "Local IP"@, ip@)],
            None => Seq::empty(),
        }
    } else if key == "palette"@ {
        let rows = spec_palette(no_color);
        seq![(key, Seq::<char>::empty(), rows[0]), (key, Seq::<char>::empty(), rows[1])]
    } else {
        Seq::empty()
    }
}

/// Whether a layout key is one the engine knows.
pub open spec fn spec_known_key(key: Seq<char>) -> bool {
    key == "user_host"@ || key == "os"@ || key == "kernel"@ || key == "uptime"@ || key == "shell"@
        || key == "de"@ || key == "cpu"@ || key == "gpu"@ || key == "memory"@ || key == "disk"@
        || key == "terminal"@ || key == "terminal_font"@ || key == "packages"@ || key
        == "resolution"@ || key == "swap"@ || key == "os_age"@ || key == "theme"@ || key
        == "media"@ || key == "local_ip"@ || key == "palette"@
}

/// What `fetch_module` returns for one key: exactly the specified rows,
/// except for `disk`, whose rows are the relevant mounts sorted root-first
/// (pinned up to the order of rows with equal labels).
pub open spec fn fetch_module_post(
    key: Seq<char>,
    config: AppConfig,
    data: ProbeData,
    no_color: bool,
    r: Seq<(Seq<char>, Seq<char>, Seq<char>)>,
) -> bool {
    if key == "disk"@ {
        let unsorted = spec_disk_rows(
            data.disks@,
            config.general.show_disk_bar,
            "Disk"@,
            lower_seq(config.general.unit_type@),
        );
        &&& r.map_values(|t: (Seq<char>, Seq<char>, Seq<char>)| (t.1, t.2)).to_multiset()
            == unsorted.to_multiset()
        &&& items_sorted(r.map_values(|t: (Seq<char>, Seq<char>, Seq<char>)| (t.1, t.2)))
        &&& forall|i: int| 0 <= i < r.len() ==> (#[trigger] r[i]).0 == "disk"@
    } else {
        r == spec_rows_exact(key, config, data, no_color)
    }
}

/// An unknown layout key yields no rows.
pub proof fn lemma_unknown_key_empty(
    key: Seq<char>,
    config: AppConfig,
    data: ProbeData,
    no_color: bool,
    r: Seq<(Seq<char>, Seq<char>, Seq<char>)>,
)
    requires
        !spec_known_key(key),
        fetch_module_post(key, config, data, no_color, r),
    ensures
        r == Seq::<(Seq<char>, Seq<char>, Seq<char>)>::empty(),
{
}

fn row3(key: &str, it: InfoItem) -> (r: Row)
    ensures
        row_view(r) == (key@, it.label@, it.value@),
{
    Row { key: String::from_str(key), label: it.label, value: it.value }
}

/// Fetches the rows of one layout key from the gathered data.
pub fn fetch_module(key: &str, config: &AppConfig, data: &ProbeData, no_color: bool) -> (r: Vec<
    Row,
>)
    ensures
        fetch_module_post(key@, *config, *data, no_color, rows_view(r@)),
{
    let mut out: Vec<Row> = Vec::new();
    let unit = &config.general.unit_type;
    if eq_str(key, "disk") {
        let items = crate::disk::get(
            &data.disks,
            config.general.show_disk_bar,
            "Disk",
            unit.as_str(),
        );
        let ghost items0 = items@;
        let mut i: usize = 0;
        while i < items.len()
            invariant
                i <= items@.len(),
                items@ == items0,
                out@.len() == i,
                forall|j: int| 0 <= j < i ==> #[trigger] row_view(out@[j]) == (
                    "disk"@,
                    item_view(items0[j]).0,
                    item_view(items0[j]).1,
                ),
                key@ == "disk"@,
            decreases items.len() - i,
        {
            let it = crate::item::clone_item(&items[i]);
            out.push(Row { key: String::from_str("disk"), label: it.label, value: it.value });
            i += 1;
        }
        proof {
            let rv = rows_view(out@);
            let pairs = rv.map_values(|t: (Seq<char>, Seq<char>, Seq<char>)| (t.1, t.2));
            assert(pairs =~= items_view(items0));
            assert(fetch_module_post(key@, *config, *data, no_color, rv));
        }
        return out;
    }
    if eq_str(key, "user_host") {
        let it = compose_user_host(data.user.as_str(), &data.host);
        out.push(row3(key, it));
    } else if eq_str(key, "os") {
        let it = compose_os(&data.os_long, &data.os_name, &data.os_version, data.arch.as_str());
        out.push(row3(key, it));
    } else if eq_str(key, "kernel") {
        let it = crate::probes::compose_kernel(data.kernel_version.clone());
        out.push(row3(key, it));
    } else if eq_str(key, "uptime") {
        match data.uptime_secs {
            Some(s) => {
                let it = compose_uptime(s);
                out.push(row3(key, it));
            },
            None => {},
        }
    } else if eq_str(key, "shell") {
        let it = shell(&data.shell_path, &data.shell_version_output);
        out.push(row3(key, it));
    } else if eq_str(key, "de") {
        let it = de_wm(&data.xdg_desktop, &data.desktop_session);
        out.push(row3(key, it));
    } else if eq_str(key, "cpu") {
        match &data.cpu {
            Some(f) => {
                let it = cpu(f, config.general.show_cpu_bar);
                out.push(row3(key, it));
            },
            None => {},
        }
    } else if eq_str(key, "gpu") {
        let parsed = get_gpu_name(&data.lspci_mm_output);
        let name: Option<String> = match parsed {
            Some(n) => Some(n),
            None => crate::config::clone_opt_string(&data.gpu_fallback_name),
        };
        let it = gpu_item(&name, &data.gpu_temp_tenths);
        proof {
            assert(opt_view(name) == spec_gpu_chosen_name(*data));
        }
        out.push(row3(key, it));
    } else if eq_str(key, "memory") {
        match data.memory {
            Some(m) => {
                let it = memory(m.used, m.total, config.general.show_memory_bar, unit.as_str());
                out.push(row3(key, it));
            },
            None => {},
        }
    } else if eq_str(key, "terminal") {
        let it = terminal(
            &data.term_program,
            data.has_alacritty,
            data.has_kitty,
            &data.parent_names,
        );
        out.push(row3(key, it));
    } else if eq_str(key, "terminal_font") {
        let it = terminal_font(&data.gsettings_font);
        out.push(row3(key, it));
    } else if eq_str(key, "packages") {
        let it = packages(&data.packages);
        out.push(row3(key, it));
    } else if eq_str(key, "resolution") {
        let it = resolution(&data.resolutions);
        out.push(row3(key, it));
    } else if eq_str(key, "swap") {
        match data.swap {
            Some(m) => {
                let used = if m.used > m.total {
                    m.total
                } else {
                    m.used
                };
                let it = swap(used, m.total, unit.as_str());
                out.push(row3(key, it));
            },
            None => {},
        }
    } else if eq_str(key, "os_age") {
        let it = os_age(&data.os_created_secs, data.now_secs);
        out.push(row3(key, it));
    } else if eq_str(key, "theme") {
        let items = get_theme_info(&data.gtk3_settings, &data.gtk4_settings, &data.gtk_theme_env);
        let mut items = items;
        let it2 = items.pop().unwrap();
        let it1 = items.pop().unwrap();
        let it0 = items.pop().unwrap();
        out.push(row3(key, it0));
        out.push(row3(key, it1));
        out.push(row3(key, it2));
    } else if eq_str(key, "media") {
        match &data.media {
            Some(m) => {
                let mut v = String::from_str("🎵 ");
                v.append(m.artist.as_str());
                v.append(" - ");
                v.append(m.title.as_str());
                proof {
                    assert(v@ =~= "🎵 "@ + m.artist@ + " - "@ + m.title@);
                }
                out.push(row3(key, InfoItem { label: String::from_str("Media"), value: v }));
            },
            None => {},
        }
    } else if eq_str(key, "local_ip") {
        match &data.local_ip {
            Some(ip) => {
                out.push(
                    row3(key, InfoItem { label: String::from_str("Local IP"), value: ip.clone() }),
                );
            },
            None => {},
        }
    } else if eq_str(key, "palette") {
        let rows = get_color_palette(no_color);
        proof {
            assert(rows.deep_view().len() == 2);
            assert(rows@.len() == 2);
            assert(rows.deep_view()[0] == rows@[0]@);
            assert(rows.deep_view()[1] == rows@[1]@);
        }
        let r1 = rows[1].clone();
        let r0 = rows[0].clone();
        out.push(row3(key, InfoItem { label: String::new(), value: r0 }));
        out.push(row3(key, InfoItem { label: String::new(), value: r1 }));
    }
    proof {
        assert(rows_view(out@) =~~= spec_rows_exact(key@, *config, *data, no_color));
    }
    out
}

/// What `collect_lines` returns: the concatenation, in layout order, of
/// each non-blank trimmed key's rows.
pub open spec fn collect_post(
    keys: Seq<Seq<char>>,
    config: AppConfig,
    data: ProbeData,
    no_color: bool,
    r: Seq<(Seq<char>, Seq<char>, Seq<char>)>,
) -> bool
    decreases keys.len(),
{
    if keys.len() == 0 {
        r.len() == 0
    } else {
        let k = spec_trim(keys[0]);
        if k.len() == 0 {
            collect_post(keys.drop_first(), config, data, no_color, r)
        } else {
            exists|c: int|
                0 <= c <= r.len() && fetch_module_post(
                    k,
                    config,
                    data,
                    no_color,
                    #[trigger] r.subrange(0, c),
                ) && collect_post(keys.drop_first(), config, data, no_color, r.subrange(
                    c,
                    r.len() as int,
                ))
        }
    }
}

fn collect_from(layout: &Vec<String>, i: usize, config: &AppConfig, data: &ProbeData,
    no_color: bool) -> (r: Vec<Row>)
    requires
        i <= layout@.len(),
    ensures
        collect_post(
            layout.deep_view().subrange(i as int, layout.deep_view().len() as int),
            *config,
            *data,
            no_color,
            rows_view(r@),
        ),
    decreases layout@.len() - i,
{
    if i >= layout.len() {
        let r: Vec<Row> = Vec::new();
        proof {
            assert(layout.deep_view().subrange(i as int, layout.deep_view().len() as int).len()
                == 0);
        }
        return r;
    }
    proof {
        assert(layout.deep_view()[i as int] == layout@[i as int]@);
    }
    let kc = chars_of(layout[i].as_str());
    let kt = trim_chars(&kc);
    let rest = collect_from(layout, i + 1, config, data, no_color);
    let ghost keys = layout.deep_view().subrange(i as int, layout.deep_view().len() as int);
    proof {
        assert(keys.drop_first() =~= layout.deep_view().subrange(
            i + 1,
            layout.deep_view().len() as int,
        ));
        assert(keys[0] == layout@[i as int]@);
    }
    if kt.len() == 0 {
        return rest;
    }
    let ks = string_of(&kt);
    let mut seg = fetch_module(ks.as_str(), config, data, no_color);
    let ghost seg_v = rows_view(seg@);
    let ghost rest_v = rows_view(rest@);
    let mut rest_mut = rest;
    let ghost seg0 = seg@;
    seg.append(&mut rest_mut);
    proof {
        assert(rows_view(seg@) =~= seg_v + rest_v);
    }
    proof {
        let total = rows_view(seg@);
        assert(total == seg_v + rest_v);
        assert(total.subrange(0, seg_v.len() as int) =~= seg_v);
        assert(total.subrange(seg_v.len() as int, total.len() as int) =~= rest_v);
        assert(fetch_module_post(spec_trim(keys[0]), *config, *data, no_color, total.subrange(
            0,
            seg_v.len() as int,
        )));
        assert(collect_post(keys, *config, *data, no_color, total));
    }
    seg
}

/// Collects all rows in layout order; blank keys are skipped and unknown
/// keys contribute nothing.
pub fn collect_lines(config: &AppConfig, data: &ProbeData, no_color: bool) -> (r: Vec<Row>)
    ensures
        collect_post(config.layout.deep_view(), *config, *data, no_color, rows_view(r@)),
{
    let r = collect_from(&config.layout, 0, config, data, no_color);
    proof {
        assert(config.layout.deep_view().subrange(0, config.layout.deep_view().len() as int)
            =~= config.layout.deep_view());
    }
    r
}

/// An unknown, non-blank key anywhere in the layout neither adds rows nor
/// changes the rows of the keys around it.
pub proof fn lemma_unknown_layout_key(
    keys1: Seq<Seq<char>>,
    k: Seq<char>,
    keys2: Seq<Seq<char>>,
    config: AppConfig,
    data: ProbeData,
    no_color: bool,
    r: Seq<(Seq<char>, Seq<char>, Seq<char>)>,
)
    requires
        spec_trim(k).len() > 0,
        !spec_known_key(spec_trim(k)),
    ensures
        collect_post(keys1 + seq![k] + keys2, config, data, no_color, r) == collect_post(
            keys1 + keys2,
            config,
            data,
            no_color,
            r,
        ),
    decreases keys1.len(),
{
    if keys1.len() == 0 {
        assert(keys1 + seq![k] + keys2 =~= seq![k] + keys2);
        assert(keys1 + keys2 =~= keys2);
        let kk = seq![k] + keys2;
        assert(kk[0] == k);
        assert(kk.drop_first() =~= keys2);
        // Forward: any decomposition forces the unknown key's segment empty.
        if collect_post(kk, config, data, no_color, r) {
            let c = choose|c: int|
                0 <= c <= r.len() && fetch_module_post(
                    spec_trim(k),
                    config,
                    data,
                    no_color,
                    #[trigger] r.subrange(0, c),
                ) && collect_post(keys2, config, data, no_color, r.subrange(c, r.len() as int));
            assert(r.subrange(0, c) == Seq::<(Seq<char>, Seq<char>, Seq<char>)>::empty());
            assert(c == 0);
            assert(r.subrange(0, r.len() as int) =~= r);
            assert(collect_post(keys2, config, data, no_color, r));
        }
        if collect_post(keys2, config, data, no_color, r) {
            assert(r.subrange(0, 0) =~= Seq::<(Seq<char>, Seq<char>, Seq<char>)>::empty());
            assert(fetch_module_post(spec_trim(k), config, data, no_color, r.subrange(0, 0)));
            assert(r.subrange(0, r.len() as int) =~= r);
            assert(collect_post(kk, config, data, no_color, r));
        }
    } else {
        let a = keys1 + seq![k] + keys2;
        let b = keys1 + keys2;
        assert(a[0] == keys1[0]);
        assert(b[0] == keys1[0]);
        assert(a.drop_first() =~= keys1.drop_first() + seq![k] + keys2);
        assert(b.drop_first() =~= keys1.drop_first() + keys2);
        let k0 = spec_trim(keys1[0]);
        if k0.len() == 0 {
            lemma_unknown_layout_key(keys1.drop_first(), k, keys2, config, data, no_color, r);
        } else {
            assert forall|c: int|
                0 <= c <= r.len() && fetch_module_post(
                    k0,
                    config,
                    data,
                    no_color,
                    #[trigger] r.subrange(0, c),
                ) implies (collect_post(a.drop_first(), config, data, no_color, r.subrange(
                c,
                r.len() as int,
            )) == collect_post(b.drop_first(), config, data, no_color, r.subrange(
                c,
                r.len() as int,
            ))) by {
                lemma_unknown_layout_key(
                    keys1.drop_first(),
                    k,
                    keys2,
                    config,
                    data,
                    no_color,
                    r.subrange(c, r.len() as int),
                );
            }
            assert(collect_post(a, config, data, no_color, r) == collect_post(
                b,
                config,
                data,
                no_color,
                r,
            ));
        }
    }
}

} // verus!
