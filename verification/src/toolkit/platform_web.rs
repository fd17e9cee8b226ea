//! Platform stub for browsers (WASM): fixed, safe values.
use vstd::prelude::*;
use super::platform::{PowerStatus, SystemBiosInfo, DiskDriveInfo, NetworkAdapterInfo, PlatformProvider, single_string, disk, adapter};

verus! {

/// Placeholder for web-specific queries.
pub fn web_stub() {
}

/// The browser platform.
pub struct WebPlatform;

impl PlatformProvider for WebPlatform {
    fn get_system_screen_resolution() -> (r: (i32, i32))
        ensures
            r == (1920i32, 1080i32),
    {
        (1920, 1080)
    }

    fn get_console_window_dpi() -> (d: u32)
        ensures
            d == 96,
    {
        96
    }

    fn query_accent_color() -> (c: (u8, u8, u8))
        ensures
            c == (0u8, 120u8, 215u8),
    {
        (0, 120, 215)
    }

    fn query_high_contrast() -> (b: bool)
        ensures
            !b,
    {
        false
    }

    fn query_os_version() -> (s: String)
        ensures
            s@ == "Web Browser (WASM)"@,
    {
        "Web Browser (WASM)".to_string()
    }

    fn query_dark_mode() -> (b: bool)
        ensures
            b,
    {
        true
    }

    fn query_power_status() -> (p: Option<PowerStatus>)
        ensures
            p is None,
    {
        None
    }

    fn query_bios_info() -> (b: Option<SystemBiosInfo>)
        ensures
            b is None,
    {
        None
    }

    fn query_shell_and_terminal() -> (st: (String, String))
        ensures
            st.0@ == "WebConsole"@,
            st.1@ == "Browser Tab"@,
    {
        ("WebConsole".to_string(), "Browser Tab".to_string())
    }

    fn query_disk_drives() -> (v: Vec<DiskDriveInfo>)
        ensures
            v@.len() == 1,
            v@[0].path@ == "LocalStorage"@,
            v@[0].total_bytes == 5 * 1024 * 1024,
            v@[0].free_bytes == 5 * 1024 * 1024,
    {
        let mut v: Vec<DiskDriveInfo> = Vec::new();
        v.push(disk("LocalStorage", 5 * 1024 * 1024, 5 * 1024 * 1024));
        v
    }

    fn query_gpu_names() -> (v: Vec<String>)
        ensures
            v@.len() == 1,
            v@[0]@ == "WebGL Context GPU"@,
    {
        single_string("WebGL Context GPU")
    }

    fn query_network_adapters() -> (v: Vec<NetworkAdapterInfo>)
        ensures
            v@.len() == 1,
            v@[0].name@ == "Browser Network Connection"@,
            v@[0].description@ == "WebSocket / HTTP Fetch"@,
            v@[0].ip_addresses@.len() == 1,
            v@[0].ip_addresses@[0]@ == "127.0.0.1"@,
            v@[0].adapter_type@ == "Other"@,
            v@[0].is_up,
    {
        let mut v: Vec<NetworkAdapterInfo> = Vec::new();
        v.push(adapter("Browser Network Connection", "WebSocket / HTTP Fetch", "127.0.0.1", "Other"));
        v
    }

    fn get_all_monitors() -> (v: Vec<String>)
        ensures
            v@.len() == 1,
            v@[0]@ == "Primary Browser Viewport"@,
    {
        single_string("Primary Browser Viewport")
    }
}

} // verus!
