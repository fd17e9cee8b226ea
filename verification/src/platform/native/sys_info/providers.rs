//! The platform the library answers for when no native provider is plugged in.
use vstd::prelude::*;
use crate::toolkit::platform::{
    PowerStatus, SystemBiosInfo, DiskDriveInfo, NetworkAdapterInfo, PlatformProvider,
    single_string, disk, adapter,
};

verus! {

/// The portable provider: the values the library gives on a host it has no
/// native support for, and when a native query finds nothing (a 1920x1080
/// screen at 96 DPI, "Generic OS", dark mode, no battery or BIOS data, `sh` in
/// `xterm`, one drive "/" with 50 GiB free of 100 GiB, no GPU names, a loopback
/// adapter, and one primary monitor).
pub struct FallbackPlatform;

/// The provider the library's own system queries use: the portable one, since
/// reading the host (files, commands, Win32 calls) happens outside the library,
/// which hands the readings to the verified builders and parsers.
pub type CurrentPlatform = FallbackPlatform;

impl PlatformProvider for FallbackPlatform {
    fn get_system_screen_resolution() -> (r: (i32, i32))
        ensures
            r == (1920i32, 1080i32),
    {
        (1920, 1080)
    }

    fn get_console_window_dpi() -> (d: u32)
        ensures
            d == 96,
    {
        96
    }

    fn query_accent_color() -> (c: (u8, u8, u8))
        ensures
            c == (0u8, 245u8, 255u8),
    {
        (0, 245, 255)
    }

    fn query_high_contrast() -> (b: bool)
        ensures
            !b,
    {
        false
    }

    fn query_os_version() -> (s: String)
        ensures
            s@ == "Generic OS"@,
    {
        "Generic OS".to_string()
    }

    fn query_dark_mode() -> (b: bool)
        ensures
            b,
    {
        true
    }

    fn query_power_status() -> (p: Option<PowerStatus>)
        ensures
            p is None,
    {
        None
    }

    fn query_bios_info() -> (b: Option<SystemBiosInfo>)
        ensures
            b is None,
    {
        None
    }

    fn query_shell_and_terminal() -> (st: (String, String))
        ensures
            st.0@ == "sh"@,
            st.1@ == "xterm"@,
    {
        ("sh".to_string(), "xterm".to_string())
    }

    fn query_disk_drives() -> (v: Vec<DiskDriveInfo>)
        ensures
            v@.len() == 1,
            v@[0].path@ == "/"@,
            v@[0].total_bytes == 100 * 1024 * 1024 * 1024,
            v@[0].free_bytes == 50 * 1024 * 1024 * 1024,
    {
        let mut v: Vec<DiskDriveInfo> = Vec::new();
        v.push(disk("/", 100 * 1024 * 1024 * 1024, 50 * 1024 * 1024 * 1024));
        v
    }

    fn query_gpu_names() -> (v: Vec<String>)
        ensures
            v@.len() == 0,
    {
        Vec::new()
    }

    fn query_network_adapters() -> (v: Vec<NetworkAdapterInfo>)
        ensures
            v@.len() == 1,
            v@[0].name@ == "lo"@,
            v@[0].description@ == "Loopback"@,
            v@[0].ip_addresses@.len() == 1,
            v@[0].ip_addresses@[0]@ == "127.0.0.1"@,
            v@[0].adapter_type@ == "Virtual"@,
            v@[0].is_up,
    {
        let mut v: Vec<NetworkAdapterInfo> = Vec::new();
        v.push(adapter("lo", "Loopback", "127.0.0.1", "Virtual"));
        v
    }

    fn get_all_monitors() -> (v: Vec<String>)
        ensures
            v@.len() == 1,
            v@[0]@ == "Primary: 1920x1080"@,
    {
        single_string("Primary: 1920x1080")
    }
}

} // verus!
