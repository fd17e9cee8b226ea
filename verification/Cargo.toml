[package]
name = "library"
version = "0.1.0"
edition = "2021"
publish = false

[dependencies]
sysinfo = "=0.30.13"
ratatui = { version = "=0.29.0", default-features = false }
winreg = "0.55"
windows-sys = { version = "0.59", features = ["Win32_Foundation", "Win32_Graphics_Dwm", "Win32_Graphics_Gdi", "Win32_UI_WindowsAndMessaging", "Win32_System_Console", "Win32_UI_HiDpi", "Win32_System_Power", "Win32_Storage_FileSystem", "Win32_UI_Accessibility"] }
