//! Theming manager: formats labels (optional Nerd Font icon, gradient or
//! solid primary color) and values (text color).

use vstd::prelude::*;

use crate::config::{AppConfig, GeneralConfig, Rgb, ThemeConfig};
use crate::gradient::{ansi_fg, create_gradient_text, spec_ansi_fg, spec_ansi_reset, spec_gradient};
use crate::text::{eq_str, lower_seq, to_lower_str};

verus! {

/// The Nerd Font icon glyph for a layout key; empty when the key has none.
pub open spec fn spec_nerd_icon(key: Seq<char>) -> Seq<char> {
    if key == "user_host"@ {
        "\u{f007}"@
    } else if key == "os"@ {
        "\u{f17c}"@
    } else if key == "kernel"@ {
        "\u{f109}"@
    } else if key == "uptime"@ {
        "\u{f017}"@
    } else if key == "shell"@ {
        "\u{f489}"@
    } else if key == "de"@ {
        "\u{f1e6}"@
    } else if key == "cpu"@ {
        "\u{f0e4}"@
    } else if key == "gpu"@ {
        "\u{f108}"@
    } else if key == "memory"@ {
        "\u{f2db}"@
    } else if key == "disk"@ {
        "\u{f0a0}"@
    } else if key == "terminal"@ {
        "\u{f120}"@
    } else if key == "terminal_font"@ {
        "\u{f031}"@
    } else if key == "packages"@ {
        "\u{f187}"@
    } else if key == "resolution"@ {
        "\u{f108}"@
    } else if key == "swap"@ {
        "\u{f2db}"@
    } else if key == "os_age"@ {
        "\u{f073}"@
    } else if key == "media"@ {
        "\u{f001}"@
    } else if key == "local_ip"@ {
        "\u{f0ac}"@
    } else {
        ""@
    }
}

/// The Nerd Font icon glyph for a layout key.
pub fn nerd_icon_for_key(key: &str) -> (r: &'static str)
    ensures
        r@ == spec_nerd_icon(key@),
{
    if eq_str(key, "user_host") {
        "\u{f007}"
    } else if eq_str(key, "os") {
        "\u{f17c}"
    } else if eq_str(key, "kernel") {
        "\u{f109}"
    } else if eq_str(key, "uptime") {
        "\u{f017}"
    } else if eq_str(key, "shell") {
        "\u{f489}"
    } else if eq_str(key, "de") {
        "\u{f1e6}"
    } else if eq_str(key, "cpu") {
        "\u{f0e4}"
    } else if eq_str(key, "gpu") {
        "\u{f108}"
    } else if eq_str(key, "memory") {
        "\u{f2db}"
    } else if eq_str(key, "disk") {
        "\u{f0a0}"
    } else if eq_str(key, "terminal") {
        "\u{f120}"
    } else if eq_str(key, "terminal_font") {
        "\u{f031}"
    } else if eq_str(key, "packages") {
        "\u{f187}"
    } else if eq_str(key, "resolution") {
        "\u{f108}"
    } else if eq_str(key, "swap") {
        "\u{f2db}"
    } else if eq_str(key, "os_age") {
        "\u{f073}"
    } else if eq_str(key, "media") {
        "\u{f001}"
    } else if eq_str(key, "local_ip") {
        "\u{f0ac}"
    } else {
        ""
    }
}

/// The ANSI truecolor foreground sequence for `rgb`.
pub fn ansi_rgb(rgb: Rgb) -> (s: String)
    ensures
        s@ == spec_ansi_fg(rgb.r as nat, rgb.g as nat, rgb.b as nat),
{
    ansi_fg(rgb.r, rgb.g, rgb.b)
}

/// Formats labels and values under one configuration.
#[derive(Debug)]
pub struct ThemeManager {
    pub general: GeneralConfig,
    pub theme: ThemeConfig,
    pub no_color: bool,
}

/// What `format_label` returns: the text unchanged without color; else the
/// icon-prefixed label, either gradient-colored or wrapped in the solid
/// primary color.
pub open spec fn spec_format_label(tm: ThemeManager, key: Seq<char>, text: Seq<char>) -> Seq<
    char,
> {
    if tm.no_color {
        text
    } else {
        let labeled = if tm.general.use_nerd_fonts && spec_nerd_icon(key).len() > 0 {
            spec_nerd_icon(key) + " "@ + text
        } else {
            text
        };
        if lower_seq(tm.theme.mode@) == "gradient"@ {
            spec_gradient(
                labeled,
                (tm.theme.primary_color.r as nat, tm.theme.primary_color.g as nat, tm.theme.primary_color.b as nat),
                (tm.theme.secondary_color.r as nat, tm.theme.secondary_color.g as nat, tm.theme.secondary_color.b as nat),
            )
        } else {
            spec_ansi_fg(
                tm.theme.primary_color.r as nat,
                tm.theme.primary_color.g as nat,
                tm.theme.primary_color.b as nat,
            ) + labeled + spec_ansi_reset()
        }
    }
}

/// What `format_value` returns: the text unchanged without color, else the
/// text wrapped in the text color.
pub open spec fn spec_format_value(tm: ThemeManager, value: Seq<char>) -> Seq<char> {
    if tm.no_color {
        value
    } else {
        spec_ansi_fg(
            tm.theme.text_color.r as nat,
            tm.theme.text_color.g as nat,
            tm.theme.text_color.b as nat,
        ) + value + spec_ansi_reset()
    }
}

fn clone_general(g: &GeneralConfig) -> (r: GeneralConfig)
    ensures
        r == *g,
{
    let image_path = crate::config::clone_opt_string(&g.image_path);
    GeneralConfig {
        separator: g.separator.clone(),
        use_nerd_fonts: g.use_nerd_fonts,
        align_values: g.align_values,
        unit_type: g.unit_type.clone(),
        show_memory_bar: g.show_memory_bar,
        show_cpu_bar: g.show_cpu_bar,
        show_disk_bar: g.show_disk_bar,
        image_path,
        image_width: g.image_width,
    }
}

fn clone_theme(t: &ThemeConfig) -> (r: ThemeConfig)
    ensures
        r == *t,
{
    ThemeConfig {
        mode: t.mode.clone(),
        primary_color: t.primary_color,
        secondary_color: t.secondary_color,
        text_color: t.text_color,
    }
}

impl ThemeManager {
    /// A manager for the given configuration.
    pub fn new(config: &AppConfig, no_color: bool) -> (r: Self)
        ensures
            r.general == config.general,
            r.theme == config.theme,
            r.no_color == no_color,
    {
        Self {
            general: clone_general(&config.general),
            theme: clone_theme(&config.theme),
            no_color,
        }
    }

    /// Format a label: optional Nerd icon, then gradient or solid primary
    /// color; unchanged when color is disabled.
    pub fn format_label(&self, key: &str, text: &str) -> (r: String)
        ensures
            r@ == spec_format_label(*self, key@, text@),
    {
        if self.no_color {
            return String::from_str(text);
        }
        let labeled: String = if self.general.use_nerd_fonts {
            let icon = nerd_icon_for_key(key);
            if !icon.is_empty() {
                let mut l = String::from_str(icon);
                l.append(" ");
                l.append(text);
                proof {
                    assert(l@ =~= spec_nerd_icon(key@) + " "@ + text@);
                }
                l
            } else {
                String::from_str(text)
            }
        } else {
            String::from_str(text)
        };
        let mode_lower = to_lower_str(self.theme.mode.as_str());
        if eq_str(mode_lower.as_str(), "gradient") {
            create_gradient_text(
                labeled.as_str(),
                self.theme.primary_color.tuple(),
                self.theme.secondary_color.tuple(),
            )
        } else {
            let mut s = ansi_rgb(self.theme.primary_color);
            s.append(labeled.as_str());
            s.append("\u{1b}[0m");
            proof {
                assert(s@ =~= spec_format_label(*self, key@, text@));
            }
            s
        }
    }

    /// Format a value in the text color; unchanged when color is disabled.
    pub fn format_value(&self, value: &str) -> (r: String)
        ensures
            r@ == spec_format_value(*self, value@),
    {
        if self.no_color {
            return String::from_str(value);
        }
        let mut s = ansi_rgb(self.theme.text_color);
        s.append(value);
        s.append("\u{1b}[0m");
        proof {
            assert(s@ =~= spec_format_value(*self, value@));
        }
        s
    }
}

} // verus!
