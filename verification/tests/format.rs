//! Byte formatting, bars, widths, gradients, GPU cleanup, and durations.

use novafetch::bar::{bar, bar_with_style, BarStyle};
use novafetch::gpu::clean_gpu_name;
use novafetch::gradient::create_gradient_text;
use novafetch::numfmt::{format_bytes, u64_to_dec, u64_to_pad2};
use novafetch::probes::{format_duration_since, format_uptime};
use novafetch::width::display_width;

#[test]
fn format_bytes_zero_is_zero_b() {
    assert_eq!(format_bytes(0, "standard"), "0 B");
    assert_eq!(format_bytes(0, "iec"), "0 B");
    assert_eq!(format_bytes(0, "si"), "0 B");
}

#[test]
fn format_bytes_iec_kib() {
    assert_eq!(format_bytes(1024, "iec"), "1.00 KiB");
}

#[test]
fn format_bytes_si_kb() {
    assert_eq!(format_bytes(1000, "si"), "1.00 KB");
}

#[test]
fn format_bytes_standard_mb() {
    assert_eq!(format_bytes(1024 * 1024, "standard"), "1.00 MB");
}

#[test]
fn format_bytes_fractional() {
    assert_eq!(format_bytes(1536, "iec"), "1.50 KiB");
    assert_eq!(format_bytes(1073741824, "standard"), "1.00 GB");
}

#[test]
fn decimal_rendering() {
    assert_eq!(u64_to_dec(0), "0");
    assert_eq!(u64_to_dec(12345), "12345");
    assert_eq!(u64_to_pad2(7), "07");
    assert_eq!(u64_to_pad2(42), "42");
}

#[test]
fn bar_empty_and_full() {
    assert_eq!(bar_with_style(0, 10, 10, BarStyle::Classic), "[░░░░░░░░░░]");
    assert_eq!(bar_with_style(10, 10, 10, BarStyle::Classic), "[██████████]");
}

#[test]
fn bar_degenerate_cases() {
    assert_eq!(bar_with_style(5, 0, 10, BarStyle::Classic), "");
    assert_eq!(bar_with_style(5, 10, 0, BarStyle::Classic), "");
}

#[test]
fn bar_minimal_has_no_brackets() {
    assert_eq!(bar_with_style(3, 5, 5, BarStyle::Minimal), "●●●○○");
}

#[test]
fn bar_visible_length_is_width() {
    let b = bar_with_style(3, 7, 10, BarStyle::Round);
    // Bracketed styles add exactly two columns around the ten glyphs.
    assert_eq!(display_width(&b), 12);
    let m = bar_with_style(3, 7, 10, BarStyle::Minimal);
    assert_eq!(display_width(&m), 10);
}

#[test]
fn bar_default_style_matches_round() {
    assert_eq!(bar(5, 10, 10), bar_with_style(5, 10, 10, BarStyle::Round));
}

#[test]
fn display_width_ignores_ansi() {
    assert_eq!(display_width("\u{1b}[31mABC\u{1b}[0m"), 3);
}

#[test]
fn display_width_counts_multibyte_as_one() {
    assert_eq!(display_width("π"), 1);
}

#[test]
fn display_width_gradient_round_trip() {
    let g = create_gradient_text("hello", (255, 0, 0), (0, 0, 255));
    assert_eq!(display_width(&g), 5);
}

#[test]
fn gradient_empty_is_empty() {
    assert_eq!(create_gradient_text("", (1, 2, 3), (4, 5, 6)), "");
}

#[test]
fn gradient_single_char_gets_end_color() {
    assert_eq!(create_gradient_text("x", (0, 0, 0), (10, 20, 30)), "\u{1b}[38;2;10;20;30mx\u{1b}[0m");
}

#[test]
fn gradient_wraps_every_codepoint() {
    let g = create_gradient_text("ab", (0, 0, 0), (2, 2, 2));
    assert_eq!(g, "\u{1b}[38;2;0;0;0ma\u{1b}[38;2;2;2;2mb\u{1b}[0m");
}

#[test]
fn gpu_cleanup_amd() {
    assert_eq!(
        clean_gpu_name("Advanced Micro Devices, Inc. [Radeon RX 6700 XT] (rev c0)"),
        "AMD Radeon RX 6700 XT"
    );
}

#[test]
fn gpu_cleanup_nvidia() {
    assert_eq!(
        clean_gpu_name("NVIDIA Corporation GA102 [GeForce RTX 3080]"),
        "NVIDIA GeForce RTX 3080"
    );
}

#[test]
fn os_age_four_hundred_days() {
    let day = 86400u64;
    assert_eq!(format_duration_since(400 * day, 0), "1 year, 1 month, 5 days");
}

#[test]
fn os_age_less_than_a_day() {
    assert_eq!(format_duration_since(3600, 0), "Less than a day");
}

#[test]
fn os_age_plural_forms() {
    let day = 86400u64;
    assert_eq!(format_duration_since(2 * 365 * day + 61 * day, 0), "2 years, 2 months, 1 day");
}

#[test]
fn uptime_formats() {
    assert_eq!(format_uptime(90061), "1d 1h 1m");
    assert_eq!(format_uptime(3660), "1h 1m");
    assert_eq!(format_uptime(120), "2m");
}

#[test]
fn format_bytes_largest_value() {
    assert_eq!(format_bytes(u64::MAX, "iec"), "16777216.00 TiB");
}

#[test]
fn bar_rounds_to_nearest() {
    // 1/3 of ten cells rounds to three filled glyphs.
    assert_eq!(bar_with_style(1, 3, 10, BarStyle::Retro), "[###.......]");
    // Half a cell rounds up.
    assert_eq!(bar_with_style(1, 20, 10, BarStyle::Retro), "[#.........]");
}

#[test]
fn display_width_unterminated_escape_consumes_rest() {
    assert_eq!(display_width("ab\u{1b}[31"), 2);
    assert_eq!(display_width("\u{1b}x"), 2);
}
