//! Configuration data: the per-module switches of the flat table, and the
//! bundle (general, theme, ascii, layout) that drives one invocation.

use vstd::prelude::*;

verus! {

/// One module's switch and display label.
#[derive(Debug)]
pub struct ModuleConfig {
    pub enabled: bool,
    pub label: String,
}

/// Whether `m` has the given switch and label.
pub open spec fn mc_is(m: ModuleConfig, enabled: bool, label: Seq<char>) -> bool {
    m.enabled == enabled && m.label@ == label
}

impl ModuleConfig {
    /// A module switch with the given label.
    pub fn new(enabled: bool, label: &str) -> (r: Self)
        ensures
            mc_is(r, enabled, label@),
    {
        Self { enabled, label: String::from_str(label) }
    }
}

/// The default for boolean options that start enabled.
pub fn default_true() -> (r: bool)
    ensures
        r,
{
    true
}

/// The default unit type.
pub fn default_unit_type() -> (r: String)
    ensures
        r@ == "standard"@,
{
    String::from_str("standard")
}

/// Default switch for the header row module.
pub fn default_user_host() -> (r: ModuleConfig)
    ensures
        mc_is(r, true, ""@),
{
    ModuleConfig::new(true, "")
}

/// Default switch for the OS module.
pub fn default_os() -> (r: ModuleConfig)
    ensures
        mc_is(r, true, "OS"@),
{
    ModuleConfig::new(true, "OS")
}

/// Default switch for the kernel module.
pub fn default_kernel() -> (r: ModuleConfig)
    ensures
        mc_is(r, true, "Kernel"@),
{
    ModuleConfig::new(true, "Kernel")
}

/// Default switch for the uptime module.
pub fn default_uptime() -> (r: ModuleConfig)
    ensures
        mc_is(r, true, "Uptime"@),
{
    ModuleConfig::new(true, "Uptime")
}

/// Default switch for the shell module.
pub fn default_shell() -> (r: ModuleConfig)
    ensures
        mc_is(r, true, "Shell"@),
{
    ModuleConfig::new(true, "Shell")
}

/// Default switch for the desktop-environment module.
pub fn default_de() -> (r: ModuleConfig)
    ensures
        mc_is(r, true, "DE"@),
{
    ModuleConfig::new(true, "DE")
}

/// Default switch for the CPU module.
pub fn default_cpu() -> (r: ModuleConfig)
    ensures
        mc_is(r, true, "CPU"@),
{
    ModuleConfig::new(true, "CPU")
}

/// Default switch for the GPU module.
pub fn default_gpu() -> (r: ModuleConfig)
    ensures
        mc_is(r, true, "GPU"@),
{
    ModuleConfig::new(true, "GPU")
}

/// Default switch for the memory module.
pub fn default_memory() -> (r: ModuleConfig)
    ensures
        mc_is(r, true, "Memory"@),
{
    ModuleConfig::new(true, "Memory")
}

/// Default switch for the disk module.
pub fn default_disk() -> (r: ModuleConfig)
    ensures
        mc_is(r, true, "Disk"@),
{
    ModuleConfig::new(true, "Disk")
}

/// Default switch for the terminal module.
pub fn default_terminal() -> (r: ModuleConfig)
    ensures
        mc_is(r, true, "Terminal"@),
{
    ModuleConfig::new(true, "Terminal")
}

/// Default switch for the terminal-font module.
pub fn default_terminal_font() -> (r: ModuleConfig)
    ensures
        mc_is(r, true, "Terminal Font"@),
{
    ModuleConfig::new(true, "Terminal Font")
}

/// Default switch for the packages module.
pub fn default_packages() -> (r: ModuleConfig)
    ensures
        mc_is(r, true, "Packages"@),
{
    ModuleConfig::new(true, "Packages")
}

/// Default switch for the resolution module.
pub fn default_resolution() -> (r: ModuleConfig)
    ensures
        mc_is(r, true, "Resolution"@),
{
    ModuleConfig::new(true, "Resolution")
}

/// Default switch for the swap module.
pub fn default_swap() -> (r: ModuleConfig)
    ensures
        mc_is(r, true, "Swap"@),
{
    ModuleConfig::new(true, "Swap")
}

/// Default switch for the OS-age module.
pub fn default_os_age() -> (r: ModuleConfig)
    ensures
        mc_is(r, true, "OS Age"@),
{
    ModuleConfig::new(true, "OS Age")
}

/// Named colors for the flat rendering path.
#[derive(Debug)]
pub struct ColorConfig {
    pub ascii: String,
    pub key: String,
    pub value: String,
}

/// Default color for ASCII art.
pub fn default_ascii_color() -> (r: String)
    ensures
        r@ == "cyan"@,
{
    String::from_str("cyan")
}

/// Default color for labels.
pub fn default_key_color() -> (r: String)
    ensures
        r@ == "yellow"@,
{
    String::from_str("yellow")
}

/// Default color for values.
pub fn default_value_color() -> (r: String)
    ensures
        r@ == "white"@,
{
    String::from_str("white")
}

impl Default for ColorConfig {
    /// The default color names.
    fn default() -> (r: Self)
        ensures
            r.ascii@ == "cyan"@,
            r.key@ == "yellow"@,
            r.value@ == "white"@,
    {
        Self {
            ascii: default_ascii_color(),
            key: default_key_color(),
            value: default_value_color(),
        }
    }
}

/// The flat per-module configuration table.
#[derive(Debug)]
pub struct Config {
    pub user_host: ModuleConfig,
    pub os: ModuleConfig,
    pub kernel: ModuleConfig,
    pub uptime: ModuleConfig,
    pub shell: ModuleConfig,
    pub de: ModuleConfig,
    pub cpu: ModuleConfig,
    pub gpu: ModuleConfig,
    pub memory: ModuleConfig,
    pub disk: ModuleConfig,
    pub terminal: ModuleConfig,
    pub terminal_font: ModuleConfig,
    pub packages: ModuleConfig,
    pub resolution: ModuleConfig,
    pub swap: ModuleConfig,
    pub os_age: ModuleConfig,
    pub unit_type: String,
    pub show_memory_bar: bool,
    pub show_disk_bar: bool,
    pub colors: ColorConfig,
}

impl Default for Config {
    /// Every module enabled under its usual label, standard units, bars on.
    fn default() -> (r: Self)
        ensures
            mc_is(r.user_host, true, ""@),
            mc_is(r.os, true, "OS"@),
            mc_is(r.kernel, true, "Kernel"@),
            mc_is(r.uptime, true, "Uptime"@),
            mc_is(r.shell, true, "Shell"@),
            mc_is(r.de, true, "DE"@),
            mc_is(r.cpu, true, "CPU"@),
            mc_is(r.gpu, true, "GPU"@),
            mc_is(r.memory, true, "Memory"@),
            mc_is(r.disk, true, "Disk"@),
            mc_is(r.terminal, true, "Terminal"@),
            mc_is(r.terminal_font, true, "Terminal Font"@),
            mc_is(r.packages, true, "Packages"@),
            mc_is(r.resolution, true, "Resolution"@),
            mc_is(r.swap, true, "Swap"@),
            mc_is(r.os_age, true, "OS Age"@),
            r.unit_type@ == "standard"@,
            r.show_memory_bar,
            r.show_disk_bar,
            r.colors.ascii@ == "cyan"@,
            r.colors.key@ == "yellow"@,
            r.colors.value@ == "white"@,
    {
        Self {
            user_host: default_user_host(),
            os: default_os(),
            kernel: default_kernel(),
            uptime: default_uptime(),
            shell: default_shell(),
            de: default_de(),
            cpu: default_cpu(),
            gpu: default_gpu(),
            memory: default_memory(),
            disk: default_disk(),
            terminal: default_terminal(),
            terminal_font: default_terminal_font(),
            packages: default_packages(),
            resolution: default_resolution(),
            swap: default_swap(),
            os_age: default_os_age(),
            unit_type: default_unit_type(),
            show_memory_bar: true,
            show_disk_bar: true,
            colors: ColorConfig::default(),
        }
    }
}

/// An RGB color triple.
#[derive(Clone, Copy, Debug, PartialEq, Eq, Structural)]
pub struct Rgb {
    pub r: u8,
    pub g: u8,
    pub b: u8,
}

impl Rgb {
    /// This color as a channel triple.
    pub fn tuple(self) -> (t: (u8, u8, u8))
        ensures
            t.0 == self.r && t.1 == self.g && t.2 == self.b,
    {
        (self.r, self.g, self.b)
    }
}

/// General presentation options.
#[derive(Debug)]
pub struct GeneralConfig {
    pub separator: String,
    pub use_nerd_fonts: bool,
    pub align_values: bool,
    pub unit_type: String,
    pub show_memory_bar: bool,
    pub show_cpu_bar: bool,
    pub show_disk_bar: bool,
    pub image_path: Option<String>,
    pub image_width: Option<u32>,
}

/// Colors and the label coloring mode.
#[derive(Debug)]
pub struct ThemeConfig {
    pub mode: String,
    pub primary_color: Rgb,
    pub secondary_color: Rgb,
    pub text_color: Rgb,
}

/// ASCII-logo options.
#[derive(Debug)]
pub struct AsciiConfig {
    pub distro_override: Option<String>,
    pub print_ascii: bool,
}

/// The configuration bundle of one invocation.
#[derive(Debug)]
pub struct AppConfig {
    pub general: GeneralConfig,
    pub theme: ThemeConfig,
    pub ascii: AsciiConfig,
    pub layout: Vec<String>,
}

/// The default layout order.
pub open spec fn spec_default_layout() -> Seq<Seq<char>> {
    seq![
        "user_host"@,
        "os"@,
        "kernel"@,
        "uptime"@,
        "shell"@,
        "de"@,
        "cpu"@,
        "gpu"@,
        "memory"@,
        "disk"@,
        "swap"@,
        "packages"@,
        "terminal"@,
        "theme"@,
        "os_age"@,
        "palette"@,
    ]
}

/// What the general section defaults to.
pub open spec fn general_is_default(g: GeneralConfig) -> bool {
    &&& g.separator@ == ": "@
    &&& !g.use_nerd_fonts
    &&& !g.align_values
    &&& g.unit_type@ == "standard"@
    &&& g.show_memory_bar
    &&& !g.show_cpu_bar
    &&& g.show_disk_bar
    &&& g.image_path is None
    &&& g.image_width is None
}

/// What the theme section defaults to.
pub open spec fn theme_is_default(t: ThemeConfig) -> bool {
    &&& t.mode@ == "solid"@
    &&& t.primary_color == (Rgb { r: 137, g: 180, b: 250 })
    &&& t.secondary_color == (Rgb { r: 203, g: 166, b: 247 })
    &&& t.text_color == (Rgb { r: 205, g: 214, b: 244 })
}

/// What the ascii section defaults to.
pub open spec fn ascii_is_default(a: AsciiConfig) -> bool {
    a.distro_override is None && a.print_ascii
}

/// Whether a whole bundle holds the default values.
pub open spec fn app_config_is_default(c: AppConfig) -> bool {
    &&& general_is_default(c.general)
    &&& theme_is_default(c.theme)
    &&& ascii_is_default(c.ascii)
    &&& c.layout.deep_view() == spec_default_layout()
}

impl Default for GeneralConfig {
    fn default() -> (r: Self)
        ensures
            general_is_default(r),
    {
        Self {
            separator: String::from_str(": "),
            use_nerd_fonts: false,
            align_values: false,
            unit_type: String::from_str("standard"),
            show_memory_bar: true,
            show_cpu_bar: false,
            show_disk_bar: true,
            image_path: None,
            image_width: None,
        }
    }
}

impl Default for ThemeConfig {
    fn default() -> (r: Self)
        ensures
            theme_is_default(r),
    {
        Self {
            mode: String::from_str("solid"),
            primary_color: Rgb { r: 137, g: 180, b: 250 },
            secondary_color: Rgb { r: 203, g: 166, b: 247 },
            text_color: Rgb { r: 205, g: 214, b: 244 },
        }
    }
}

impl Default for AsciiConfig {
    fn default() -> (r: Self)
        ensures
            ascii_is_default(r),
    {
        Self { distro_override: None, print_ascii: true }
    }
}

/// The default layout order, as owned strings.
pub fn default_layout() -> (r: Vec<String>)
    ensures
        r.deep_view() == spec_default_layout(),
{
    let mut v: Vec<String> = Vec::new();
    v.push(String::from_str("user_host"));
    v.push(String::from_str("os"));
    v.push(String::from_str("kernel"));
    v.push(String::from_str("uptime"));
    v.push(String::from_str("shell"));
    v.push(String::from_str("de"));
    v.push(String::from_str("cpu"));
    v.push(String::from_str("gpu"));
    v.push(String::from_str("memory"));
    v.push(String::from_str("disk"));
    v.push(String::from_str("swap"));
    v.push(String::from_str("packages"));
    v.push(String::from_str("terminal"));
    v.push(String::from_str("theme"));
    v.push(String::from_str("os_age"));
    v.push(String::from_str("palette"));
    proof {
        assert(v.deep_view() =~= spec_default_layout());
    }
    v
}

impl Default for AppConfig {
    fn default() -> (r: Self)
        ensures
            app_config_is_default(r),
    {
        Self {
            general: GeneralConfig::default(),
            theme: ThemeConfig::default(),
            ascii: AsciiConfig::default(),
            layout: default_layout(),
        }
    }
}

/// A field-exact copy of an optional string.
pub fn clone_opt_string(s: &Option<String>) -> (r: Option<String>)
    ensures
        r == *s,
{
    match s {
        Some(v) => Some(v.clone()),
        None => None,
    }
}

} // verus!
