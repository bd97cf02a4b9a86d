//! Configuration values: which modules are enabled, their settings, and the display order.
//!
//! Reading the configuration document is left to the caller; this module holds the
//! parsed values and the decisions made from them.

use vstd::prelude::*;
use crate::text::{contains_str, copy_strings, views};

verus! {

/// The whole configuration.
#[derive(Debug, Clone)]
pub struct Config {
    pub modules: ModulesConfig,
    pub notifications: NotificationsConfig,
}

/// Per-module configuration and the display order.
#[derive(Debug, Clone)]
pub struct ModulesConfig {
    /// Module display order; modules not listed come after the listed ones.
    pub order: Vec<String>,
    pub tray: TrayModuleConfig,
    pub battery: Option<BatteryModuleConfig>,
    pub clock: Option<ClockModuleConfig>,
    pub system: Option<SystemModuleConfig>,
    pub network: Option<NetworkModuleConfig>,
    pub weather: Option<WeatherModuleConfig>,
    pub pipewire: Option<PipewireModuleConfig>,
    pub power_profiles: Option<PowerProfilesModuleConfig>,
    pub scripts: Vec<ScriptModuleConfig>,
}

#[derive(Debug, Clone)]
pub struct TrayModuleConfig {
    pub enabled: bool,
}

#[derive(Debug, Clone)]
pub struct BatteryModuleConfig {
    pub enabled: bool,
    /// Percentage at or below which a low-battery notification is sent.
    pub low_threshold: u8,
    /// Percentage at or below which a critical-battery notification is sent.
    pub critical_threshold: u8,
    /// Whether to notify when the battery is fully charged.
    pub notify_full_charge: bool,
    pub low_sound: Option<String>,
    pub critical_sound: Option<String>,
    pub full_sound: Option<String>,
}

#[derive(Debug, Clone)]
pub struct ClockModuleConfig {
    pub enabled: bool,
    /// Time format (strftime).
    pub format: String,
    /// Date format for the tooltip (strftime).
    pub date_format: String,
}

#[derive(Debug, Clone)]
pub struct SystemModuleConfig {
    pub enabled: bool,
    pub show_cpu: bool,
    pub show_memory: bool,
    pub show_temperature: bool,
    pub interval_seconds: u64,
}

#[derive(Debug, Clone)]
pub struct NetworkModuleConfig {
    pub enabled: bool,
    /// Interface to monitor; empty means the default route's interface.
    pub interface: String,
    pub show_ip: bool,
    pub show_speed: bool,
    pub interval_seconds: u64,
}

#[derive(Debug, Clone)]
pub struct WeatherModuleConfig {
    pub enabled: bool,
    /// City name; empty means located by address.
    pub location: String,
    pub interval_seconds: u64,
    /// "celsius" or "fahrenheit".
    pub units: String,
}

#[derive(Debug, Clone)]
pub struct PipewireModuleConfig {
    pub enabled: bool,
    pub show_volume: bool,
    /// Maximum volume percentage (100 normal, above allows boost).
    pub max_volume: u32,
    /// Volume change per scroll step, in percent.
    pub scroll_step: u32,
}

#[derive(Debug, Clone)]
pub struct PowerProfilesModuleConfig {
    pub enabled: bool,
}

#[derive(Debug, Clone)]
pub struct ScriptModuleConfig {
    /// Unique name of the script module.
    pub name: String,
    /// Shell command to run.
    pub command: String,
    pub interval_seconds: u64,
    pub icon: Option<String>,
    pub tooltip: Option<String>,
}

#[derive(Debug, Clone)]
pub struct NotificationsConfig {
    pub enabled: bool,
    /// Timeout in milliseconds; 0 means no timeout.
    pub timeout_ms: u32,
}

impl Default for Config {
    fn default() -> (r: Config)
        ensures
            views(r.modules.order@) == seq!["tray"@],
            r.modules.tray.enabled,
            r.modules.battery is None,
            r.modules.clock is None,
            r.modules.system is None,
            r.modules.network is None,
            r.modules.weather is None,
            r.modules.pipewire is None,
            r.modules.power_profiles is None,
            r.modules.scripts@.len() == 0,
            r.notifications.enabled,
            r.notifications.timeout_ms == 5000,
    {
        Config { modules: ModulesConfig::default(), notifications: NotificationsConfig::default() }
    }
}

impl Default for ModulesConfig {
    fn default() -> (r: ModulesConfig)
        ensures
            views(r.order@) == seq!["tray"@],
            r.tray.enabled,
            r.battery is None,
            r.clock is None,
            r.system is None,
            r.network is None,
            r.weather is None,
            r.pipewire is None,
            r.power_profiles is None,
            r.scripts@.len() == 0,
    {
        let mut order: Vec<String> = Vec::new();
        order.push(String::from_str("tray"));
        assert(views(order@) =~= seq!["tray"@]);
        ModulesConfig {
            order,
            tray: TrayModuleConfig::default(),
            battery: None,
            clock: None,
            system: None,
            network: None,
            weather: None,
            pipewire: None,
            power_profiles: None,
            scripts: Vec::new(),
        }
    }
}

impl Default for TrayModuleConfig {
    fn default() -> (r: TrayModuleConfig)
        ensures
            r.enabled,
    {
        TrayModuleConfig { enabled: true }
    }
}

impl Default for BatteryModuleConfig {
    fn default() -> (r: BatteryModuleConfig)
        ensures
            r.enabled,
            r.low_threshold == 20,
            r.critical_threshold == 10,
            !r.notify_full_charge,
            r.low_sound is None,
            r.critical_sound is None,
            r.full_sound is None,
    {
        BatteryModuleConfig {
            enabled: true,
            low_threshold: 20,
            critical_threshold: 10,
            notify_full_charge: false,
            low_sound: None,
            critical_sound: None,
            full_sound: None,
        }
    }
}

impl Default for ClockModuleConfig {
    fn default() -> (r: ClockModuleConfig)
        ensures
            r.enabled,
            r.format@ == "%H:%M"@,
            r.date_format@ == "%A, %B %d, %Y"@,
    {
        ClockModuleConfig {
            enabled: true,
            format: String::from_str("%H:%M"),
            date_format: String::from_str("%A, %B %d, %Y"),
        }
    }
}

impl Default for SystemModuleConfig {
    fn default() -> (r: SystemModuleConfig)
        ensures
            r.enabled,
            r.show_cpu,
            r.show_memory,
            !r.show_temperature,
            r.interval_seconds == 5,
    {
        SystemModuleConfig {
            enabled: true,
            show_cpu: true,
            show_memory: true,
            show_temperature: false,
            interval_seconds: 5,
        }
    }
}

impl Default for NetworkModuleConfig {
    fn default() -> (r: NetworkModuleConfig)
        ensures
            r.enabled,
            r.interface@ == Seq::<char>::empty(),
            !r.show_ip,
            r.show_speed,
            r.interval_seconds == 2,
    {
        NetworkModuleConfig {
            enabled: true,
            interface: String::new(),
            show_ip: false,
            show_speed: true,
            interval_seconds: 2,
        }
    }
}

impl Default for WeatherModuleConfig {
    fn default() -> (r: WeatherModuleConfig)
        ensures
            r.enabled,
            r.location@ == Seq::<char>::empty(),
            r.interval_seconds == 1800,
            r.units@ == "celsius"@,
    {
        WeatherModuleConfig {
            enabled: true,
            location: String::new(),
            interval_seconds: 1800,
            units: String::from_str("celsius"),
        }
    }
}

impl Default for PipewireModuleConfig {
    fn default() -> (r: PipewireModuleConfig)
        ensures
            r.enabled,
            r.show_volume,
            r.max_volume == 100,
            r.scroll_step == 5,
    {
        PipewireModuleConfig { enabled: true, show_volume: true, max_volume: 100, scroll_step: 5 }
    }
}

impl Default for PowerProfilesModuleConfig {
    fn default() -> (r: PowerProfilesModuleConfig)
        ensures
            r.enabled,
    {
        PowerProfilesModuleConfig { enabled: true }
    }
}

impl Default for NotificationsConfig {
    fn default() -> (r: NotificationsConfig)
        ensures
            r.enabled,
            r.timeout_ms == 5000,
    {
        NotificationsConfig { enabled: true, timeout_ms: 5000 }
    }
}

/// `name` when `on`, else nothing.
pub open spec fn named_if(on: bool, name: Seq<char>) -> Seq<Seq<char>> {
    if on { seq![name] } else { Seq::empty() }
}

/// The module name of a script entry: `script:{name}`.
pub open spec fn script_module_name(s: ScriptModuleConfig) -> Seq<char> {
    "script:"@ + s.name@
}

/// The modules that the configuration enables, in canonical order: tray, battery, clock,
/// system, weather, network, pipewire, power_profiles, then one per script entry.
pub open spec fn enabled_names(c: Config) -> Seq<Seq<char>> {
    let m = c.modules;
    named_if(m.tray.enabled, "tray"@)
        + named_if(m.battery matches Some(b) && b.enabled, "battery"@)
        + named_if(m.clock matches Some(b) && b.enabled, "clock"@)
        + named_if(m.system matches Some(b) && b.enabled, "system"@)
        + named_if(m.weather matches Some(b) && b.enabled, "weather"@)
        + named_if(m.network matches Some(b) && b.enabled, "network"@)
        + named_if(m.pipewire matches Some(b) && b.enabled, "pipewire"@)
        + named_if(m.power_profiles matches Some(b) && b.enabled, "power_profiles"@)
        + m.scripts@.map_values(|s: ScriptModuleConfig| script_module_name(s))
}

/// `acc` followed by each of `names` that is not already present, in order.
pub open spec fn extend_order(acc: Seq<Seq<char>>, names: Seq<Seq<char>>) -> Seq<Seq<char>>
    decreases names.len(),
{
    if names.len() == 0 {
        acc
    } else {
        let a = extend_order(acc, names.drop_last());
        if a.contains(names.last()) { a } else { a.push(names.last()) }
    }
}

fn push_if(v: &mut Vec<String>, on: bool, name: &str)
    ensures
        views(final(v)@) == views(old(v)@) + named_if(on, name@),
{
    if on {
        v.push(name.to_owned());
        assert(views(v@) =~= views(old(v)@) + named_if(on, name@));
    } else {
        assert(views(v@) =~= views(old(v)@) + named_if(on, name@));
    }
}

impl Config {
    /// The names of the modules that this configuration enables, in canonical order.
    pub fn enabled_modules(&self) -> (r: Vec<String>)
        ensures
            views(r@) == enabled_names(*self),
    {
        let m = &self.modules;
        let mut v: Vec<String> = Vec::new();
        push_if(&mut v, m.tray.enabled, "tray");
        push_if(&mut v, match &m.battery { Some(b) => b.enabled, None => false }, "battery");
        push_if(&mut v, match &m.clock { Some(b) => b.enabled, None => false }, "clock");
        push_if(&mut v, match &m.system { Some(b) => b.enabled, None => false }, "system");
        push_if(&mut v, match &m.weather { Some(b) => b.enabled, None => false }, "weather");
        push_if(&mut v, match &m.network { Some(b) => b.enabled, None => false }, "network");
        push_if(&mut v, match &m.pipewire { Some(b) => b.enabled, None => false }, "pipewire");
        push_if(&mut v, match &m.power_profiles { Some(b) => b.enabled, None => false }, "power_profiles");
        let ghost fixed = views(v@);
        let scripts = &m.scripts;
        let mut i: usize = 0;
        while i < scripts.len()
            invariant
                i <= scripts@.len(),
                scripts == m.scripts,
                views(v@) == fixed + scripts@.subrange(0, i as int).map_values(|s: ScriptModuleConfig| script_module_name(s)),
            decreases scripts@.len() - i,
        {
            let name = String::from_str("script:").concat(scripts[i].name.as_str());
            let ghost before = views(v@);
            v.push(name);
            proof {
                assert(views(v@) =~= before.push(name@));
                assert(scripts@.subrange(0, i as int + 1).map_values(|s: ScriptModuleConfig| script_module_name(s))
                    =~= scripts@.subrange(0, i as int).map_values(|s: ScriptModuleConfig| script_module_name(s)).push(script_module_name(scripts@[i as int])));
            }
            i = i + 1;
        }
        assert(scripts@.subrange(0, scripts@.len() as int) =~= scripts@);
        v
    }

    /// The display order: the configured order, followed by every enabled module it does
    /// not list, in canonical order.
    pub fn module_order(&self) -> (r: Vec<String>)
        ensures
            views(r@) == extend_order(views(self.modules.order@), enabled_names(*self)),
    {
        let names = self.enabled_modules();
        let mut order = copy_strings(&self.modules.order);
        let mut i: usize = 0;
        while i < names.len()
            invariant
                i <= names@.len(),
                views(names@) == enabled_names(*self),
                views(order@) == extend_order(views(self.modules.order@), views(names@).subrange(0, i as int)),
            decreases names@.len() - i,
        {
            let ghost before = views(order@);
            proof {
                assert(views(names@).subrange(0, i as int + 1).drop_last() =~= views(names@).subrange(0, i as int));
            }
            if !contains_str(&order, names[i].as_str()) {
                order.push(names[i].clone());
                assert(views(order@) =~= before.push(names@[i as int]@));
            }
            i = i + 1;
        }
        assert(views(names@).subrange(0, names@.len() as int) =~= views(names@));
        order
    }

    /// The text written as the configuration file when none exists.
    pub fn default_config_string() -> (r: String)
        ensures
            r@ == DEFAULT_CONFIG@,
    {
        String::from_str(DEFAULT_CONFIG)
    }
}

/// The configuration file written when none exists.
pub const DEFAULT_CONFIG: &'static str = r#"# WayTray Configuration
# See https://github.com/destructatron/waytray for documentation

[modules]
# Module display order (left to right)
# Modules not listed appear after these
order = ["tray"]

[modules.tray]
enabled = true

# Uncomment to enable battery module
# [modules.battery]
# enabled = true
# low_threshold = 20
# critical_threshold = 10
# notify_full_charge = false
# low_sound = "~/.config/waytray/sounds/low.wav"
# critical_sound = "~/.config/waytray/sounds/critical.wav"
# full_sound = "~/.config/waytray/sounds/full.wav"

# Uncomment to enable clock module
# [modules.clock]
# enabled = true
# format = "%H:%M"
# date_format = "%A, %B %d, %Y"

# Uncomment to enable system (CPU/memory/temperature) module
# [modules.system]
# enabled = true
# show_cpu = true
# show_memory = true
# show_temperature = false
# interval_seconds = 5

# Uncomment to enable weather module (uses wttr.in, no API key needed)
# [modules.weather]
# enabled = true
# location = ""           # Empty = auto-detect from IP
# units = "celsius"       # or "fahrenheit"
# interval_seconds = 1800 # 30 minutes

# Uncomment to enable network module
# [modules.network]
# enabled = true
# interface = ""          # Empty = auto-detect default route interface
# show_ip = false
# show_speed = true
# interval_seconds = 2

# Uncomment to enable pipewire/pulseaudio volume module
# [modules.pipewire]
# enabled = true
# show_volume = true      # Show volume percentage in label
# max_volume = 100        # Maximum volume (100 = normal, 150 = allow boost)
# scroll_step = 5         # Volume change per scroll step

# Uncomment to enable power profiles module (requires power-profiles-daemon)
# [modules.power_profiles]
# enabled = true

[notifications]
enabled = true
timeout_ms = 5000
"#;

} // verus!
