//! Platform stub for phones and tablets: fixed, safe values. (The OS name is
//! the one for builds that are neither Android nor iOS.)
use vstd::prelude::*;
use super::platform::{PowerStatus, SystemBiosInfo, DiskDriveInfo, NetworkAdapterInfo, PlatformProvider, single_string, disk, adapter};

verus! {

/// Placeholder for mobile-specific queries.
pub fn mobile_stub() {
}

/// The mobile platform.
pub struct MobilePlatform;

impl PlatformProvider for MobilePlatform {
    fn get_system_screen_resolution() -> (r: (i32, i32))
        ensures
            r == (1080i32, 2400i32),
    {
        (1080, 2400)
    }

    fn get_console_window_dpi() -> (d: u32)
        ensures
            d == 320,
    {
        320
    }

    fn query_accent_color() -> (c: (u8, u8, u8))
        ensures
            c == (103u8, 80u8, 164u8),
    {
        (103, 80, 164)
    }

    fn query_high_contrast() -> (b: bool)
        ensures
            !b,
    {
        false
    }

    fn query_os_version() -> (s: String)
        ensures
            s@ == "Mobile OS (Android/iOS)"@,
    {
        "Mobile OS (Android/iOS)".to_string()
    }

    fn query_dark_mode() -> (b: bool)
        ensures
            b,
    {
        true
    }

    fn query_power_status() -> (p: Option<PowerStatus>)
        ensures
            p == Some(PowerStatus { ac_online: false, battery_percent: 85 }),
    {
        Some(PowerStatus { ac_online: false, battery_percent: 85 })
    }

    fn query_bios_info() -> (b: Option<SystemBiosInfo>)
        ensures
            b is None,
    {
        None
    }

    fn query_shell_and_terminal() -> (st: (String, String))
        ensures
            st.0@ == "sh"@,
            st.1@ == "Mobile Terminal"@,
    {
        ("sh".to_string(), "Mobile Terminal".to_string())
    }

    fn query_disk_drives() -> (v: Vec<DiskDriveInfo>)
        ensures
            v@.len() == 1,
            v@[0].path@ == "/storage/emulated/0"@,
            v@[0].total_bytes == 128 * 1024 * 1024 * 1024,
            v@[0].free_bytes == 64 * 1024 * 1024 * 1024,
    {
        let mut v: Vec<DiskDriveInfo> = Vec::new();
        v.push(disk("/storage/emulated/0", 128 * 1024 * 1024 * 1024, 64 * 1024 * 1024 * 1024));
        v
    }

    fn query_gpu_names() -> (v: Vec<String>)
        ensures
            v@.len() == 1,
            v@[0]@ == "Mobile GPU (Vulkan/Metal)"@,
    {
        single_string("Mobile GPU (Vulkan/Metal)")
    }

    fn query_network_adapters() -> (v: Vec<NetworkAdapterInfo>)
        ensures
            v@.len() == 1,
            v@[0].name@ == "wlan0"@,
            v@[0].description@ == "Mobile Wi-Fi Connection"@,
            v@[0].ip_addresses@.len() == 1,
            v@[0].ip_addresses@[0]@ == "192.168.1.150"@,
            v@[0].adapter_type@ == "Wi-Fi"@,
            v@[0].is_up,
    {
        let mut v: Vec<NetworkAdapterInfo> = Vec::new();
        v.push(adapter("wlan0", "Mobile Wi-Fi Connection", "192.168.1.150", "Wi-Fi"));
        v
    }

    fn get_all_monitors() -> (v: Vec<String>)
        ensures
            v@.len() == 1,
            v@[0]@ == "Built-in Liquid Retina/AMOLED Screen"@,
    {
        single_string("Built-in Liquid Retina/AMOLED Screen")
    }
}

} // verus!
