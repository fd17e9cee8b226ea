//! Platform stub for embedded boards: fixed, safe values.
use vstd::prelude::*;
use super::platform::{PowerStatus, SystemBiosInfo, DiskDriveInfo, NetworkAdapterInfo, PlatformProvider, single_string, disk, adapter};

verus! {

/// Placeholder for embedded-specific queries.
pub fn embedded_stub() {
}

/// The embedded platform.
pub struct EmbeddedPlatform;

impl PlatformProvider for EmbeddedPlatform {
    fn get_system_screen_resolution() -> (r: (i32, i32))
        ensures
            r == (320i32, 240i32),
    {
        (320, 240)
    }

    fn get_console_window_dpi() -> (d: u32)
        ensures
            d == 96,
    {
        96
    }

    fn query_accent_color() -> (c: (u8, u8, u8))
        ensures
            c == (0u8, 255u8, 0u8),
    {
        (0, 255, 0)
    }

    fn query_high_contrast() -> (b: bool)
        ensures
            !b,
    {
        false
    }

    fn query_os_version() -> (s: String)
        ensures
            s@ == "Embedded Bare-Metal / RTOS"@,
    {
        "Embedded Bare-Metal / RTOS".to_string()
    }

    fn query_dark_mode() -> (b: bool)
        ensures
            !b,
    {
        false
    }

    fn query_power_status() -> (p: Option<PowerStatus>)
        ensures
            p == Some(PowerStatus { ac_online: true, battery_percent: 100 }),
    {
        Some(PowerStatus { ac_online: true, battery_percent: 100 })
    }

    fn query_bios_info() -> (b: Option<SystemBiosInfo>)
        ensures
            b matches Some(i) && i.manufacturer@ == "Embedded MCU Board"@ && i.product@ == "STM32/ESP32 System"@ && i.model@ == "V1.0.0"@,
    {
        Some(
            SystemBiosInfo {
                manufacturer: "Embedded MCU Board".to_string(),
                product: "STM32/ESP32 System".to_string(),
                model: "V1.0.0".to_string(),
            },
        )
    }

    fn query_shell_and_terminal() -> (st: (String, String))
        ensures
            st.0@ == "none"@,
            st.1@ == "UART Serial Console"@,
    {
        ("none".to_string(), "UART Serial Console".to_string())
    }

    fn query_disk_drives() -> (v: Vec<DiskDriveInfo>)
        ensures
            v@.len() == 1,
            v@[0].path@ == "flash://"@,
            v@[0].total_bytes == 16 * 1024 * 1024,
            v@[0].free_bytes == 4 * 1024 * 1024,
    {
        let mut v: Vec<DiskDriveInfo> = Vec::new();
        v.push(disk("flash://", 16 * 1024 * 1024, 4 * 1024 * 1024));
        v
    }

    fn query_gpu_names() -> (v: Vec<String>)
        ensures
            v@.len() == 1,
            v@[0]@ == "SPI/I2C Framebuffer"@,
    {
        single_string("SPI/I2C Framebuffer")
    }

    fn query_network_adapters() -> (v: Vec<NetworkAdapterInfo>)
        ensures
            v@.len() == 1,
            v@[0].name@ == "eth0"@,
            v@[0].description@ == "Embedded MAC/PHY"@,
            v@[0].ip_addresses@.len() == 1,
            v@[0].ip_addresses@[0]@ == "192.168.0.10"@,
            v@[0].adapter_type@ == "Ethernet"@,
            v@[0].is_up,
    {
        let mut v: Vec<NetworkAdapterInfo> = Vec::new();
        v.push(adapter("eth0", "Embedded MAC/PHY", "192.168.0.10", "Ethernet"));
        v
    }

    fn get_all_monitors() -> (v: Vec<String>)
        ensures
            v@.len() == 1,
            v@[0]@ == "SPI TFT Screen"@,
    {
        single_string("SPI TFT Screen")
    }
}

} // verus!
