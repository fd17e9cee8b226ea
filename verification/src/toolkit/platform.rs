//! The platform query interface and the plain records it returns.
use vstd::prelude::*;

verus! {

/// Power source and battery level.
#[derive(Debug, Clone, PartialEq, Eq)]
pub struct PowerStatus {
    pub ac_online: bool,
    pub battery_percent: u8,
}

/// The battery level reported when it is not known.
pub const BATTERY_PERCENT_UNKNOWN: u8 = 255;

impl PowerStatus {
    /// Whether the battery level is the "unknown" marker.
    pub fn is_battery_percent_unknown(&self) -> (b: bool)
        ensures
            b == (self.battery_percent == BATTERY_PERCENT_UNKNOWN),
    {
        self.battery_percent == BATTERY_PERCENT_UNKNOWN
    }
}

impl Default for PowerStatus {
    fn default() -> (s: Self)
        ensures
            !s.ac_online && s.battery_percent == 0,
    {
        PowerStatus { ac_online: false, battery_percent: 0 }
    }
}

/// BIOS or board identification.
#[derive(Debug, Clone, PartialEq, Eq)]
pub struct SystemBiosInfo {
    pub manufacturer: String,
    pub product: String,
    pub model: String,
}

/// One storage drive and its space.
#[derive(Debug, Clone, PartialEq, Eq)]
pub struct DiskDriveInfo {
    pub path: String,
    pub total_bytes: u64,
    pub free_bytes: u64,
}

/// One network adapter and its addresses.
#[derive(Debug, Clone, PartialEq, Eq)]
pub struct NetworkAdapterInfo {
    pub name: String,
    pub description: String,
    pub ip_addresses: Vec<String>,
    /// "Wi-Fi", "Ethernet", "Bluetooth", "Virtual" or "Other".
    pub adapter_type: String,
    pub is_up: bool,
}

/// Whether a text is one of the documented adapter kinds: "Wi-Fi",
/// "Ethernet", "Bluetooth", "Virtual" or "Other".
pub open spec fn documented_adapter_type(t: Seq<char>) -> bool {
    t == "Wi-Fi"@ || t == "Ethernet"@ || t == "Bluetooth"@ || t == "Virtual"@ || t == "Other"@
}

/// The plain values of a `NetworkAdapterInfo`.
pub struct AdapterView {
    pub name: Seq<char>,
    pub description: Seq<char>,
    pub ip_addresses: Seq<Seq<char>>,
    pub adapter_type: Seq<char>,
    pub is_up: bool,
}

impl View for NetworkAdapterInfo {
    type V = AdapterView;

    open spec fn view(&self) -> AdapterView {
        AdapterView {
            name: self.name@,
            description: self.description@,
            ip_addresses: self.ip_addresses@.map_values(|s: String| s@),
            adapter_type: self.adapter_type@,
            is_up: self.is_up,
        }
    }
}

/// The views of a list of adapters.
pub open spec fn adapter_views(v: Seq<NetworkAdapterInfo>) -> Seq<AdapterView> {
    v.map_values(|a: NetworkAdapterInfo| a@)
}

/// A standard cross-platform query provider for system information and
/// hardware metrics, implemented once per platform.
pub trait PlatformProvider {
    /// Gets the current screen resolution as (width, height) pixels.
    fn get_system_screen_resolution() -> (i32, i32);

    /// Gets the console window DPI (default 96).
    fn get_console_window_dpi() -> u32;

    /// Queries the system accent color as (r, g, b) bytes.
    fn query_accent_color() -> (u8, u8, u8);

    /// Checks if a high-contrast accessibility theme is enabled.
    fn query_high_contrast() -> bool;

    /// Queries the operating system version string.
    fn query_os_version() -> String;

    /// Checks if dark mode is preferred.
    fn query_dark_mode() -> bool;

    /// Queries the power source and battery level, if available.
    fn query_power_status() -> Option<PowerStatus>;

    /// Queries BIOS or board identification, if available.
    fn query_bios_info() -> Option<SystemBiosInfo>;

    /// Queries the shell and terminal emulator names.
    fn query_shell_and_terminal() -> (String, String);

    /// Enumerates storage drives and their free space.
    fn query_disk_drives() -> Vec<DiskDriveInfo>;

    /// Gets the names of the installed graphics processors.
    fn query_gpu_names() -> Vec<String>;

    /// Enumerates network adapters and their IP addresses.
    fn query_network_adapters() -> Vec<NetworkAdapterInfo>;

    /// Lists connected displays.
    fn get_all_monitors() -> Vec<String>;
}

/// A vector of one string.
pub fn single_string(s: &str) -> (v: Vec<String>)
    ensures
        v@.len() == 1,
        v@[0]@ == s@,
{
    let mut v: Vec<String> = Vec::new();
    v.push(s.to_string());
    v
}

/// A drive record.
pub fn disk(path: &str, total_bytes: u64, free_bytes: u64) -> (d: DiskDriveInfo)
    ensures
        d.path@ == path@,
        d.total_bytes == total_bytes,
        d.free_bytes == free_bytes,
{
    DiskDriveInfo { path: path.to_string(), total_bytes, free_bytes }
}

/// An adapter record that is up and has one address.
pub fn adapter(name: &str, description: &str, ip: &str, adapter_type: &str) -> (a: NetworkAdapterInfo)
    ensures
        a.name@ == name@,
        a.description@ == description@,
        a.ip_addresses@.len() == 1,
        a.ip_addresses@[0]@ == ip@,
        a.adapter_type@ == adapter_type@,
        a.is_up,
{
    NetworkAdapterInfo {
        name: name.to_string(),
        description: description.to_string(),
        ip_addresses: single_string(ip),
        adapter_type: adapter_type.to_string(),
        is_up: true,
    }
}

} // verus!
