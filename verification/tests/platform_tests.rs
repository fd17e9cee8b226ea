use library::platform::native::monitors::{
    drm_monitor_entry, get_all_monitors, get_monitors_summary, monitors_from_drm, monitors_or_unknown,
    windows_monitor_entry, DrmConnector,
};
use library::platform::native::sys_info::{
    get_console_window_dpi, get_dashboard_info, get_system_screen_resolution, collect_local_ips,
    query_all_local_ips, memory_from_bytes, memory_from_meminfo, query_system_theme, MemoryFigures,
};
use library::platform::PowerStatus;
use library::platform::{
    CurrentPlatform, EmbeddedPlatform, MobilePlatform, NetworkAdapterInfo, PlatformProvider, WebPlatform,
};
use library::toolkit::sys_info_glyphs::GlyphMap;

#[test]
fn test_monitors_queries() {
    let summary = get_monitors_summary();
    assert!(!summary.is_empty());
    let all = get_all_monitors();
    assert!(!all.is_empty());
}

#[test]
fn test_sys_info_stubs() {
    let res = get_system_screen_resolution();
    assert!(res.0 > 0 && res.1 > 0);
    let dpi = get_console_window_dpi();
    assert!(dpi > 0);
}

#[test]
fn test_dashboard_info() {
    let info = get_dashboard_info();
    assert!(!info.os.is_empty());
}

#[test]
fn test_platform_provider_implementations() {
    // 1. CurrentPlatform
    let res = CurrentPlatform::get_system_screen_resolution();
    assert!(res.0 > 0 && res.1 > 0);
    let dpi = CurrentPlatform::get_console_window_dpi();
    assert!(dpi > 0);
    let _accent = CurrentPlatform::query_accent_color();
    let _hc = CurrentPlatform::query_high_contrast();
    let _os = CurrentPlatform::query_os_version();
    let _dark = CurrentPlatform::query_dark_mode();
    let _power = CurrentPlatform::query_power_status();
    let _bios = CurrentPlatform::query_bios_info();
    let _shell = CurrentPlatform::query_shell_and_terminal();
    let _disks = CurrentPlatform::query_disk_drives();
    let _gpus = CurrentPlatform::query_gpu_names();
    let _network = CurrentPlatform::query_network_adapters();
    let _monitors = CurrentPlatform::get_all_monitors();

    // 2. WebPlatform
    assert_eq!(WebPlatform::get_system_screen_resolution(), (1920, 1080));
    assert_eq!(WebPlatform::get_console_window_dpi(), 96);
    assert_eq!(WebPlatform::query_accent_color(), (0, 120, 215));
    assert_eq!(WebPlatform::query_os_version(), "Web Browser (WASM)");
    assert!(WebPlatform::query_dark_mode());
    assert!(WebPlatform::query_power_status().is_none());

    // 3. MobilePlatform
    assert_eq!(MobilePlatform::get_system_screen_resolution(), (1080, 2400));
    assert_eq!(MobilePlatform::get_console_window_dpi(), 320);
    assert_eq!(MobilePlatform::query_accent_color(), (103, 80, 164));
    assert!(MobilePlatform::query_dark_mode());
    let mobile_power = MobilePlatform::query_power_status().unwrap();
    assert!(!mobile_power.ac_online);
    assert_eq!(mobile_power.battery_percent, 85);

    // 4. EmbeddedPlatform
    assert_eq!(EmbeddedPlatform::get_system_screen_resolution(), (320, 240));
    assert_eq!(EmbeddedPlatform::get_console_window_dpi(), 96);
    assert_eq!(EmbeddedPlatform::query_accent_color(), (0, 255, 0));
    assert_eq!(EmbeddedPlatform::query_os_version(), "Embedded Bare-Metal / RTOS");
    assert!(!EmbeddedPlatform::query_dark_mode());
    let embedded_power = EmbeddedPlatform::query_power_status().unwrap();
    assert!(embedded_power.ac_online);
    assert_eq!(embedded_power.battery_percent, 100);
}

#[test]
fn test_glyph_map_load() {
    let glyphs = GlyphMap::load();
    assert!(!glyphs.status_ok.is_empty());
    assert!(!glyphs.status_err.is_empty());
    assert!(!glyphs.info.is_empty());
    assert!(!glyphs.warning.is_empty());
    assert!(!glyphs.cpu.is_empty());
    assert!(!glyphs.gpu.is_empty());
    assert!(!glyphs.memory.is_empty());
    assert!(!glyphs.disk.is_empty());
    assert!(!glyphs.package.is_empty());
    assert!(!glyphs.battery.is_empty());
    assert!(!glyphs.shell.is_empty());
    assert!(!glyphs.terminal.is_empty());
    assert!(!glyphs.network.is_empty());
    assert!(!glyphs.clipboard.is_empty());
    assert!(!glyphs.play.is_empty());
    assert!(!glyphs.play_empty.is_empty());
}

#[test]
fn fallback_monitor_is_the_primary_screen() {
    assert_eq!(get_all_monitors(), vec!["Primary: 1920x1080".to_string()]);
}

#[test]
fn drm_connected_connector_lists_its_first_mode() {
    let c = DrmConnector {
        name: Some("card0-HDMI-A-1".to_string()),
        status: "connected\n".to_string(),
        modes: Some("2560x1440\n1920x1080\n".to_string()),
    };
    assert_eq!(drm_monitor_entry(&c), Some("card0-HDMI-A-1: 2560x1440".to_string()));
}

#[test]
fn drm_disconnected_connector_is_skipped_and_unknowns_are_named() {
    let off = DrmConnector { name: Some("card0-DP-1".to_string()), status: "disconnected".to_string(), modes: None };
    assert_eq!(drm_monitor_entry(&off), None);
    let bare = DrmConnector { name: None, status: " connected ".to_string(), modes: None };
    assert_eq!(drm_monitor_entry(&bare), Some("Unknown: Unknown resolution".to_string()));
    let empty_modes = DrmConnector { name: Some("x".to_string()), status: "connected".to_string(), modes: Some(String::new()) };
    assert_eq!(drm_monitor_entry(&empty_modes), Some("x: Unknown resolution".to_string()));
}

#[test]
fn drm_monitors_fall_back_to_the_primary_screen() {
    let off = DrmConnector { name: Some("a".to_string()), status: "disconnected".to_string(), modes: None };
    assert_eq!(monitors_from_drm(&vec![off], 1280, 720), vec!["Primary: 1280x720".to_string()]);
    let on = DrmConnector { name: Some("b".to_string()), status: "connected".to_string(), modes: Some("800x600".to_string()) };
    assert_eq!(monitors_from_drm(&vec![on], 1280, 720), vec!["b: 800x600".to_string()]);
    assert_eq!(monitors_from_drm(&vec![], -1, 0), vec!["Primary: -1x0".to_string()]);
}

#[test]
fn windows_monitor_entry_labels_display_numbers() {
    assert_eq!(
        windows_monitor_entry("\\\\.\\DISPLAY1", 0, 0, 1920, 1080, 100),
        "Display 1: 1920x1080 (100% DPI)"
    );
    assert_eq!(windows_monitor_entry("Other", 100, 50, 0, 0, 150), "Display Other: 100x50 (150% DPI)");
    assert_eq!(windows_monitor_entry("\\\\.\\DISPLAY", 0, 0, 1, 1, 96), "\\\\.\\DISPLAY: 1x1 (96% DPI)");
    assert_eq!(monitors_or_unknown(vec![]), vec!["Unknown Display".to_string()]);
    assert_eq!(monitors_or_unknown(vec!["a".to_string()]), vec!["a".to_string()]);
}

fn adapter(name: &str, ips: &[&str]) -> NetworkAdapterInfo {
    NetworkAdapterInfo {
        name: name.to_string(),
        description: String::new(),
        ip_addresses: ips.iter().map(|s| s.to_string()).collect(),
        adapter_type: "Other".to_string(),
        is_up: true,
    }
}

#[test]
fn local_ips_are_unique_in_first_seen_order() {
    let adapters = vec![adapter("a", &["10.0.0.2", "fe80::1"]), adapter("b", &["10.0.0.2", "192.168.1.5"])];
    assert_eq!(
        collect_local_ips(&adapters, None),
        vec!["10.0.0.2".to_string(), "fe80::1".to_string(), "192.168.1.5".to_string()]
    );
    assert!(!query_all_local_ips().is_empty());
}

#[test]
fn memory_figures() {
    assert_eq!(
        memory_from_meminfo(16_000_000, 2_000_000, 8_000_000),
        MemoryFigures { used_mb: 7812, total_mb: 15625, pct_used: 8_000_000, pct_total: 16_000_000 }
    );
    assert_eq!(
        memory_from_meminfo(1000, 3000, 0),
        MemoryFigures { used_mb: 0, total_mb: 0, pct_used: 0, pct_total: 1000 }
    );
    assert_eq!(memory_from_meminfo(0, 5, 5), MemoryFigures { used_mb: 0, total_mb: 0, pct_used: 0, pct_total: 0 });
    assert_eq!(
        memory_from_bytes(3 * 1048576, 8 * 1048576),
        MemoryFigures { used_mb: 3, total_mb: 8, pct_used: 3 * 1048576, pct_total: 8 * 1048576 }
    );
}

#[test]
fn theme_and_battery_marker() {
    let t = query_system_theme();
    assert!(t.is_dark_mode);
    assert!(!t.is_high_contrast);
    assert_eq!(t.accent_color, (0, 245, 255));
    assert!(PowerStatus { ac_online: true, battery_percent: 255 }.is_battery_percent_unknown());
    assert!(!PowerStatus { ac_online: true, battery_percent: 100 }.is_battery_percent_unknown());
    assert_eq!(PowerStatus::default(), PowerStatus { ac_online: false, battery_percent: 0 });
}
