//! End-to-end scenarios: collecting rows by layout, JSON reduction, disk
//! ordering, tree output, and side-by-side composition.

use novafetch::config::AppConfig;
use novafetch::disk::{DiskFact, DiskMedium};
use novafetch::json::{lines_to_json, JsonVal};
use novafetch::logos::{get_logo, normalize_slug};
use novafetch::probes::{CpuFacts, PackageCounts};
use novafetch::render::compose_lines;
use novafetch::rows::{collect_lines, fetch_module, MemFacts, ProbeData};
use novafetch::theme::ThemeManager;
use novafetch::tree::build_tree_output;

fn empty_data() -> ProbeData {
    ProbeData {
        user: "user".to_string(),
        host: Some("host".to_string()),
        os_long: Some("Test OS 1.0".to_string()),
        os_name: None,
        os_version: None,
        arch: "x86_64".to_string(),
        kernel_version: "6.1.0-test".to_string(),
        uptime_secs: Some(3660),
        shell_path: Some("/bin/bash".to_string()),
        shell_version_output: None,
        xdg_desktop: None,
        desktop_session: None,
        cpu: None,
        memory: None,
        swap: None,
        lspci_mm_output: None,
        gpu_fallback_name: None,
        gpu_temp_tenths: None,
        disks: Vec::new(),
        term_program: None,
        has_alacritty: false,
        has_kitty: false,
        parent_names: Vec::new(),
        gsettings_font: None,
        packages: PackageCounts { pacman: None, dpkg: None, rpm: None, flatpak: None, snap: None },
        resolutions: Vec::new(),
        os_created_secs: None,
        now_secs: 0,
        gtk3_settings: None,
        gtk4_settings: None,
        gtk_theme_env: None,
        media: None,
        local_ip: None,
    }
}

fn config_with_layout(keys: &[&str]) -> AppConfig {
    let mut c = AppConfig::default();
    c.layout = keys.iter().map(|k| k.to_string()).collect();
    c
}

#[test]
fn s1_three_line_report_without_color() {
    let config = config_with_layout(&["user_host", "os", "kernel"]);
    let data = empty_data();
    let rows = collect_lines(&config, &data, true);
    assert_eq!(rows.len(), 3);
    assert_eq!(rows[0].label, "");
    assert_eq!(rows[0].value, "user@host");
    assert_eq!(rows[1].label, "OS");
    assert_eq!(rows[1].value, "Test OS 1.0 x86_64");
    assert_eq!(rows[2].label, "Kernel");
    assert_eq!(rows[2].value, "6.1.0-test");
    // Flat formatting: header bare, others "label<sep>value".
    let sep = &config.general.separator;
    let line1 = format!("{}{}{}", rows[1].label, sep, rows[1].value);
    assert_eq!(line1, "OS: Test OS 1.0 x86_64");
}

#[test]
fn s2_memory_row_without_bar_in_iec() {
    let mut config = config_with_layout(&["memory"]);
    config.general.show_memory_bar = false;
    config.general.unit_type = "iec".to_string();
    let mut data = empty_data();
    data.memory = Some(MemFacts { used: 2 * 1024 * 1024 * 1024, total: 8 * 1024 * 1024 * 1024 });
    let rows = collect_lines(&config, &data, true);
    assert_eq!(rows.len(), 1);
    assert_eq!(rows[0].label, "Memory");
    assert_eq!(rows[0].value, "2.00 GiB / 8.00 GiB");
}

#[test]
fn s3_json_keys_for_memory_and_swap() {
    let config = config_with_layout(&["memory", "swap"]);
    let mut data = empty_data();
    data.memory = Some(MemFacts { used: 1024, total: 2048 });
    data.swap = Some(MemFacts { used: 0, total: 4096 });
    let rows = collect_lines(&config, &data, true);
    let pairs = lines_to_json(&rows, &config, &data.memory, &data.swap);
    let keys: Vec<&str> = pairs.iter().map(|p| p.key.as_str()).collect();
    assert_eq!(keys.len(), 6);
    assert!(keys.contains(&"Memory"));
    assert!(keys.contains(&"Swap"));
    assert!(keys.contains(&"memory_used_bytes"));
    assert!(keys.contains(&"memory_total_bytes"));
    assert!(keys.contains(&"swap_used_bytes"));
    assert!(keys.contains(&"swap_total_bytes"));
    for p in pairs.iter() {
        match (&p.key, &p.val) {
            (k, JsonVal::N(n)) if k == "memory_used_bytes" => assert_eq!(*n, 1024),
            (k, JsonVal::N(n)) if k == "memory_total_bytes" => assert_eq!(*n, 2048),
            (k, JsonVal::N(n)) if k == "swap_total_bytes" => assert_eq!(*n, 4096),
            _ => {}
        }
    }
}

#[test]
fn s4_arch_logo_alone_composes_with_margin() {
    let (lines, _color) = get_logo("arch");
    let info: Vec<String> = Vec::new();
    let out = compose_lines(&lines, &info, 4);
    assert_eq!(out.len(), 7);
    // The widest line is 14 columns; each row is padded to it plus 4 spaces.
    assert_eq!(out[0], format!("      /\\{}", " ".repeat(6 + 4)));
    assert_eq!(out[6], format!("/_-''    ''-_\\{}", " ".repeat(4)));
}

#[test]
fn s5_gradient_header_wraps_each_codepoint() {
    let mut config = AppConfig::default();
    config.theme.mode = "gradient".to_string();
    let tm = ThemeManager::new(&config, false);
    let label = tm.format_label("user_host", "ab");
    // Two truecolor introducers and a final reset.
    assert_eq!(label.matches("\u{1b}[38;2;").count(), 2);
    assert!(label.ends_with("\u{1b}[0m"));
}

fn disk(mount: &str, total: u64, avail: u64) -> DiskFact {
    DiskFact {
        mount: mount.to_string(),
        device_name: "sda1".to_string(),
        fs: "ext4".to_string(),
        kind: DiskMedium::Ssd,
        total_space: total,
        available_space: avail,
    }
}

#[test]
fn disk_ordering_root_first_then_lexicographic() {
    let disks = vec![
        disk("/home", 1000, 500),
        disk("/tmp", 1000, 500),
        disk("/", 1000, 500),
        disk("/snap/foo", 1000, 500),
    ];
    let rows = novafetch::disk::get(&disks, false, "Disk", "standard");
    assert_eq!(rows.len(), 2);
    assert_eq!(rows[0].label, "Disk (/, ext4)");
    assert_eq!(rows[1].label, "Disk (/home, ext4)");
}

#[test]
fn disk_loop_devices_only_on_real_media() {
    let mut loopdev = disk("/mnt/img", 10, 5);
    loopdev.device_name = "loop3".to_string();
    loopdev.kind = DiskMedium::Other;
    let rows = novafetch::disk::get(&vec![loopdev], false, "Disk", "standard");
    assert_eq!(rows.len(), 0);
}

#[test]
fn unknown_layout_key_is_skipped() {
    let with_unknown = config_with_layout(&["os", "bogus_module", "kernel"]);
    let without = config_with_layout(&["os", "kernel"]);
    let data = empty_data();
    let a = collect_lines(&with_unknown, &data, true);
    let b = collect_lines(&without, &data, true);
    assert_eq!(a.len(), b.len());
    for (x, y) in a.iter().zip(b.iter()) {
        assert_eq!(x.key, y.key);
        assert_eq!(x.label, y.label);
        assert_eq!(x.value, y.value);
    }
}

#[test]
fn fetch_module_cpu_without_snapshot_yields_nothing() {
    let config = config_with_layout(&["cpu"]);
    let data = empty_data();
    let rows = fetch_module("cpu", &config, &data, true);
    assert_eq!(rows.len(), 0);
}

#[test]
fn fetch_module_gpu_uses_fallback_name() {
    let config = AppConfig::default();
    let mut data = empty_data();
    data.gpu_fallback_name = None;
    let rows = fetch_module("gpu", &config, &data, true);
    assert_eq!(rows.len(), 1);
    assert_eq!(rows[0].value, "Generic GPU");
}

#[test]
fn gpu_name_parsed_from_machine_listing() {
    let out = "00:02.0 \"VGA compatible controller\" \"Intel Corporation\" \"UHD Graphics 620\"\n";
    let name = novafetch::parsers::get_gpu_name(&Some(out.to_string()));
    assert_eq!(name.unwrap(), "Intel UHD Graphics 620");
}

#[test]
fn tree_output_groups_and_palette() {
    let config = config_with_layout(&["os", "uptime", "palette"]);
    let data = empty_data();
    let rows = collect_lines(&config, &data, true);
    let tm = ThemeManager::new(&config, true);
    let lines = build_tree_output(&rows, &tm, true);
    // Software header (24 wide), one row, blank; Status header, one row,
    // blank; two palette rows.
    assert_eq!(lines.len(), 8);
    assert_eq!(lines[0], "────────Software────────");
    assert_eq!(lines[1], " OS: Test OS 1.0 x86_64");
    assert_eq!(lines[2], "");
    assert_eq!(lines[3], "─────────Status─────────");
    assert_eq!(lines[4], " Uptime: 1h 1m");
    assert_eq!(lines[5], "");
    assert_eq!(lines[6], "██ ██ ██ ██ ██ ██ ██ ██");
    assert_eq!(lines[7], "██ ██ ██ ██ ██ ██ ██ ██");
}

#[test]
fn tree_branch_glyphs_first_middle_last() {
    let config = config_with_layout(&["os", "kernel", "shell"]);
    let data = empty_data();
    let rows = collect_lines(&config, &data, true);
    let tm = ThemeManager::new(&config, true);
    let lines = build_tree_output(&rows, &tm, true);
    assert_eq!(lines[0], "────────Software────────");
    assert!(lines[1].starts_with(" OS: "));
    assert!(lines[2].starts_with(" ├─ Kernel: "));
    assert!(lines[3].starts_with(" └─ Shell: "));
}

#[test]
fn composer_line_count_is_longer_column() {
    let logo: Vec<String> = vec!["aa".to_string(), "b".to_string()];
    let info: Vec<String> = vec!["x".to_string(), "y".to_string(), "z".to_string()];
    let out = compose_lines(&logo, &info, 2);
    assert_eq!(out.len(), 3);
    assert_eq!(out[0], "aa  x");
    assert_eq!(out[1], "b   y");
    assert_eq!(out[2], "    z");
}

#[test]
fn normalize_and_family_fallback() {
    assert_eq!(normalize_slug("Arch Linux"), "archlinux");
    let (arch_lines, _) = get_logo("Arch Linux");
    let (arch_exact, _) = get_logo("arch");
    assert_eq!(arch_lines, arch_exact);
    let (kubuntu, _) = get_logo("kubuntu");
    let (ubuntu, _) = get_logo("ubuntu");
    assert_eq!(kubuntu, ubuntu);
    let (unknown, _) = get_logo("plan9");
    assert_eq!(unknown.len(), 7);
}

#[test]
fn palette_rows_colored_and_plain() {
    let colored = novafetch::probes::get_color_palette(false);
    assert_eq!(colored.len(), 2);
    assert!(colored[0].starts_with("\u{1b}[30m██ \u{1b}[0m"));
    assert!(colored[1].starts_with("\u{1b}[90m██ \u{1b}[0m"));
    let plain = novafetch::probes::get_color_palette(true);
    assert_eq!(plain[0], "██ ██ ██ ██ ██ ██ ██ ██");
}

#[test]
fn cpu_row_with_bar_and_temperature() {
    let config = AppConfig::default();
    let mut data = empty_data();
    data.cpu = Some(CpuFacts {
        ident: Some(novafetch::probes::CpuIdent {
            brand: "Test  CPU   9000".to_string(),
            name: "cpu0".to_string(),
            freq_mhz: 3500,
        }),
        usage_pct: 42,
        temp_tenths: Some(615),
    });
    let mut cfg = config;
    cfg.general.show_cpu_bar = true;
    let rows = fetch_module("cpu", &cfg, &data, true);
    assert_eq!(rows.len(), 1);
    assert!(rows[0].value.contains("42% @ 3.5GHz"));
    assert!(rows[0].value.contains("Test CPU 9000 (61.5°C)"));
}

#[test]
fn swap_row_shows_percentage() {
    let config = config_with_layout(&["swap"]);
    let mut data = empty_data();
    data.swap = Some(MemFacts { used: 1024, total: 4096 });
    let rows = collect_lines(&config, &data, true);
    assert_eq!(rows.len(), 1);
    assert_eq!(rows[0].value, "1.00 KB / 4.00 KB (25%)");
}

#[test]
fn packages_row_joins_counts() {
    let c = PackageCounts {
        pacman: Some(1234),
        dpkg: None,
        rpm: None,
        flatpak: Some(12),
        snap: None,
    };
    let it = novafetch::probes::packages(&c);
    assert_eq!(it.value, "1234 (pacman), 12 (flatpak)");
    let none = PackageCounts { pacman: None, dpkg: None, rpm: None, flatpak: None, snap: None };
    assert_eq!(novafetch::probes::packages(&none).value, "—");
}

#[test]
fn empty_layout_yields_no_rows() {
    let config = config_with_layout(&[]);
    let data = empty_data();
    let rows = collect_lines(&config, &data, true);
    assert_eq!(rows.len(), 0);
}

#[test]
fn duplicate_layout_keys_yield_duplicate_rows() {
    let config = config_with_layout(&["kernel", "kernel"]);
    let data = empty_data();
    let rows = collect_lines(&config, &data, true);
    assert_eq!(rows.len(), 2);
    assert_eq!(rows[0].value, rows[1].value);
}

#[test]
fn blank_layout_keys_are_skipped() {
    let config = config_with_layout(&["  ", "kernel", ""]);
    let data = empty_data();
    let rows = collect_lines(&config, &data, true);
    assert_eq!(rows.len(), 1);
}

#[test]
fn json_duplicate_labels_keep_the_last_value() {
    let config = config_with_layout(&["kernel"]);
    let rows = vec![
        novafetch::rows::Row {
            key: "kernel".to_string(),
            label: "Kernel".to_string(),
            value: "first".to_string(),
        },
        novafetch::rows::Row {
            key: "kernel".to_string(),
            label: "Kernel".to_string(),
            value: "second".to_string(),
        },
    ];
    let pairs = lines_to_json(&rows, &config, &None, &None);
    assert_eq!(pairs.len(), 1);
    match &pairs[0].val {
        JsonVal::S(s) => assert_eq!(s, "second"),
        _ => panic!("expected a string value"),
    }
}
