//! Configuration round trip and the probe-output parsers.

use novafetch::config::AppConfig;
use novafetch::configtext::{parse_config, serialize_config};
use novafetch::parsers::{
    clean_terminal_name, count_lines_skip_header, count_nonempty_lines, count_package_lines,
    get_shell_version, is_likely_terminal, parse_settings_content, shell, terminal, terminal_font,
};
use novafetch::probes::{resolution, ResolutionFact};

fn assert_structurally_equal(a: &AppConfig, b: &AppConfig) {
    assert_eq!(a.general.separator, b.general.separator);
    assert_eq!(a.general.use_nerd_fonts, b.general.use_nerd_fonts);
    assert_eq!(a.general.align_values, b.general.align_values);
    assert_eq!(a.general.unit_type, b.general.unit_type);
    assert_eq!(a.general.show_memory_bar, b.general.show_memory_bar);
    assert_eq!(a.general.show_cpu_bar, b.general.show_cpu_bar);
    assert_eq!(a.general.show_disk_bar, b.general.show_disk_bar);
    assert_eq!(a.general.image_path, b.general.image_path);
    assert_eq!(a.general.image_width, b.general.image_width);
    assert_eq!(a.theme.mode, b.theme.mode);
    assert_eq!(a.theme.primary_color, b.theme.primary_color);
    assert_eq!(a.theme.secondary_color, b.theme.secondary_color);
    assert_eq!(a.theme.text_color, b.theme.text_color);
    assert_eq!(a.ascii.distro_override, b.ascii.distro_override);
    assert_eq!(a.ascii.print_ascii, b.ascii.print_ascii);
    assert_eq!(a.layout, b.layout);
}

#[test]
fn config_round_trip_of_defaults() {
    let def = AppConfig::default();
    let text = serialize_config(&def);
    let back = parse_config(&text);
    assert_structurally_equal(&def, &back);
}

#[test]
fn config_round_trip_with_options_set() {
    let mut c = AppConfig::default();
    c.general.use_nerd_fonts = true;
    c.general.unit_type = "iec".to_string();
    c.general.image_path = Some("/tmp/logo.png".to_string());
    c.general.image_width = Some(48);
    c.theme.mode = "gradient".to_string();
    c.ascii.distro_override = Some("arch".to_string());
    c.ascii.print_ascii = false;
    c.layout = vec!["memory".to_string(), "swap".to_string()];
    let text = serialize_config(&c);
    let back = parse_config(&text);
    assert_structurally_equal(&c, &back);
}

#[test]
fn missing_sections_are_redefaulted() {
    let def = AppConfig::default();
    let back = parse_config("");
    assert_structurally_equal(&def, &back);
    let partial = parse_config("[theme]\nmode = \"gradient\"\n");
    assert_eq!(partial.theme.mode, "gradient");
    assert_eq!(partial.general.unit_type, def.general.unit_type);
    assert_eq!(partial.layout, def.layout);
}

#[test]
fn malformed_values_are_ignored() {
    let def = AppConfig::default();
    let back = parse_config("[general]\nshow_memory_bar = maybe\nunit_type = unquoted\n");
    assert_structurally_equal(&def, &back);
}

#[test]
fn unknown_keys_are_ignored() {
    let def = AppConfig::default();
    let back = parse_config("[general]\nfrobnicate = \"yes\"\n[nonsense]\nx = 1\n");
    assert_structurally_equal(&def, &back);
}

#[test]
fn theme_settings_parse() {
    let content = "[Settings]\ngtk-theme-name = \"Adwaita\"\ngtk-icon-theme-name=Papirus\ngtk-font-name = \"Cantarell 11\"\n";
    let (theme, icons, font) = parse_settings_content(content);
    assert_eq!(theme, "Adwaita");
    assert_eq!(icons, "Papirus");
    assert_eq!(font, "Cantarell 11");
}

#[test]
fn theme_env_fallback_when_unknown() {
    let rows = novafetch::parsers::get_theme_info(&None, &None, &Some("Nord ".to_string()));
    assert_eq!(rows[0].value, "Nord");
    assert_eq!(rows[1].value, "Unknown");
}

#[test]
fn shell_version_token() {
    let v = get_shell_version("GNU bash, version 5.1.16(1)-release (x86_64-pc-linux-gnu)");
    let s: String = v.into_iter().collect();
    assert_eq!(s, "5.1.16");
}

#[test]
fn shell_row_name_and_version() {
    let it = shell(
        &Some("/usr/bin/zsh".to_string()),
        &Some("zsh 5.9 (x86_64-pc-linux-gnu)".to_string()),
    );
    assert_eq!(it.label, "Shell");
    assert_eq!(it.value, "zsh 5.9");
    let bare = shell(&None, &None);
    assert_eq!(bare.value, "unknown");
}

#[test]
fn terminal_detection_order() {
    let it = terminal(&Some("WezTerm".to_string()), true, true, &Vec::new());
    assert_eq!(it.value, "WezTerm");
    let it = terminal(&None, true, false, &Vec::new());
    assert_eq!(it.value, "Alacritty");
    let parents = vec!["bash".to_string(), "kitty-wrapped-".to_string()];
    let it = terminal(&None, false, false, &parents);
    assert_eq!(it.value, "kitty-wrapped");
    let it = terminal(&None, false, false, &vec!["init".to_string()]);
    assert_eq!(it.value, "—");
}

#[test]
fn terminal_name_checks() {
    assert!(is_likely_terminal("gnome-terminal-server"));
    assert!(is_likely_terminal("st"));
    assert!(!is_likely_terminal("bash"));
    assert_eq!(clean_terminal_name("  foot  "), "foot");
    assert_eq!(clean_terminal_name(""), "—");
}

#[test]
fn terminal_font_unquoting() {
    let it = terminal_font(&Some("'JetBrains Mono 11'\n".to_string()));
    assert_eq!(it.value, "JetBrains Mono 11");
    let it = terminal_font(&None);
    assert_eq!(it.value, "Unknown (Terminal-specific)");
    let it = terminal_font(&Some("''".to_string()));
    assert_eq!(it.value, "Unknown (Terminal-specific)");
}

#[test]
fn line_counters() {
    assert_eq!(count_nonempty_lines("a\nb\n\n  \nc\n"), 3);
    assert_eq!(count_lines_skip_header("NAME  VER\nfoo 1\nbar 2\n"), 2);
    assert_eq!(count_lines_skip_header(""), 0);
    assert_eq!(
        count_package_lines("Package: a\nVersion: 1\n\nPackage: b\nStatus: ok\n"),
        2
    );
}

#[test]
fn resolution_rows() {
    let list = vec![
        ResolutionFact { width: 1920, height: 1080, hz: Some(144) },
        ResolutionFact { width: 2560, height: 1440, hz: None },
    ];
    let it = resolution(&list);
    assert_eq!(it.value, "1920x1080 @ 144Hz, 2560x1440");
    let empty = resolution(&Vec::new());
    assert_eq!(empty.value, "—");
}

#[test]
fn os_value_arch_suffix() {
    let it = novafetch::probes::compose_os(
        &Some("Arch Linux".to_string()),
        &None,
        &None,
        "x86_64",
    );
    assert_eq!(it.value, "Arch Linux x86_64");
    let it = novafetch::probes::compose_os(
        &Some("Windows 11 x86_64 Pro".to_string()),
        &None,
        &None,
        "x86_64",
    );
    assert_eq!(it.value, "Windows 11 x86_64 Pro");
    let it = novafetch::probes::compose_os(&None, &Some("Debian".to_string()), &Some("12".to_string()), "");
    assert_eq!(it.value, "Debian 12");
}

#[test]
fn user_host_unknown_host() {
    let it = novafetch::probes::compose_user_host("alice", &None);
    assert_eq!(it.label, "");
    assert_eq!(it.value, "alice@unknown");
}

#[test]
fn de_value_fallbacks() {
    let it = novafetch::probes::de_wm(&None, &Some("plasma".to_string()));
    assert_eq!(it.value, "plasma");
    let it = novafetch::probes::de_wm(&None, &None);
    assert_eq!(it.value, "N/A");
}
