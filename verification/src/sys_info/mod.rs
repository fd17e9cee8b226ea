//! The first system-information interface of the library. On hosts without
//! native support it answers with the portable values of `FallbackPlatform`.
use vstd::prelude::*;
use crate::toolkit::platform::PlatformProvider;
use crate::platform::native::sys_info::providers::FallbackPlatform;

pub use crate::toolkit::platform::{PowerStatus, SystemBiosInfo, DiskDriveInfo};

pub mod linux;
pub use crate::toolkit::sys_info_glyphs::GlyphMap;

verus! {

pub fn get_system_screen_resolution() -> (r: (i32, i32))
    ensures
        r == (1920i32, 1080i32),
{
    FallbackPlatform::get_system_screen_resolution()
}

pub fn get_console_window_dpi() -> (d: u32)
    ensures
        d == 96,
{
    FallbackPlatform::get_console_window_dpi()
}

pub fn query_os_version() -> (s: String)
    ensures
        s@ == "Generic OS"@,
{
    FallbackPlatform::query_os_version()
}

pub fn query_dark_mode() -> (b: bool)
    ensures
        b,
{
    FallbackPlatform::query_dark_mode()
}

pub fn query_power_status() -> (p: Option<PowerStatus>)
    ensures
        p is None,
{
    FallbackPlatform::query_power_status()
}

pub fn query_bios_info() -> (b: Option<SystemBiosInfo>)
    ensures
        b is None,
{
    FallbackPlatform::query_bios_info()
}

pub fn query_shell_and_terminal() -> (st: (String, String))
    ensures
        st.0@ == "sh"@,
        st.1@ == "xterm"@,
{
    FallbackPlatform::query_shell_and_terminal()
}

pub fn query_disk_drives() -> (v: Vec<DiskDriveInfo>)
    ensures
        v@.len() == 1,
        v@[0].path@ == "/"@,
        v@[0].total_bytes == 100 * 1024 * 1024 * 1024,
        v@[0].free_bytes == 50 * 1024 * 1024 * 1024,
{
    FallbackPlatform::query_disk_drives()
}

} // verus!
