use library::platform::{DiskDriveInfo, PowerStatus};
use library::role::application::formatting::{
    detect_shell_and_terminal, format_battery, format_disks, format_gpu_names, format_uptime, get_battery_info,
    get_disks_info, get_formatted_uptime, get_gpu_names, hex_to_rgb, host_name_from,
};
use library::platform::native::sys_info::cpu_name;

#[test]
fn test_hex_to_rgb() {
    assert_eq!(hex_to_rgb("#ff0000"), (255, 0, 0));
    assert_eq!(hex_to_rgb("00ff00"), (0, 255, 0));
    assert_eq!(hex_to_rgb("invalid"), (0, 245, 255));
}

#[test]
fn test_formatting_helpers() {
    let host = host_name_from(None, None, None);
    assert!(!host.is_empty());

    let cpu = cpu_name("", Some(" Ryzen 7 ")).unwrap();
    assert!(!cpu.is_empty());

    let uptime = get_formatted_uptime();
    assert!(!uptime.is_empty());

    let battery = get_battery_info();
    assert!(!battery.is_empty());

    let disks = get_disks_info();
    assert!(!disks.is_empty());

    let gpu = get_gpu_names();
    assert!(!gpu.is_empty());

    let (shell, term) = detect_shell_and_terminal();
    assert!(!shell.is_empty());
    assert!(!term.is_empty());
}

#[test]
fn host_name_preference() {
    assert_eq!(host_name_from(Some("a".into()), Some("b".into()), None), "a");
    assert_eq!(host_name_from(None, Some("b".into()), Some("c".into())), "b");
    assert_eq!(host_name_from(None, None, Some("c".into())), "c");
    assert_eq!(host_name_from(None, None, None), "unknown");
}

#[test]
fn dashboard_lines() {
    assert_eq!(format_uptime(0), "0h 0m");
    assert_eq!(format_uptime(93784), "1d 2h 3m");
    assert_eq!(format_battery(&Some(PowerStatus { ac_online: true, battery_percent: 80 })), "80% (AC)");
    assert_eq!(format_battery(&Some(PowerStatus { ac_online: false, battery_percent: 5 })), "5% (Battery)");
    assert_eq!(format_battery(&None), "N/A");
    let d = vec![
        DiskDriveInfo { path: "C:\\".into(), total_bytes: 500 * 1073741824, free_bytes: 123 * 1073741824 + 5 },
        DiskDriveInfo { path: "D:\\".into(), total_bytes: 1073741823, free_bytes: 0 },
    ];
    assert_eq!(format_disks(&d), "C:\\: 123/500 GB free, D:\\: 0/0 GB free");
    assert_eq!(format_disks(&vec![]), "N/A");
    assert_eq!(format_gpu_names(&vec!["A".into(), "B".into()]), "A, B");
    assert_eq!(format_gpu_names(&vec![]), "Unknown GPU");
    assert_eq!(get_disks_info(), "/: 50/100 GB free");
}

#[test]
fn hex_colors_need_six_digits() {
    assert_eq!(hex_to_rgb("##D41020"), (0xd4, 0x10, 0x20));
    assert_eq!(hex_to_rgb("#abc"), (0, 245, 255));
    assert_eq!(hex_to_rgb("zz0000"), (0, 0, 0));
    assert_eq!(hex_to_rgb("00zz00"), (0, 245, 0));
}
