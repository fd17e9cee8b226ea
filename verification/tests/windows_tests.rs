use library::platform::PowerStatus;
use library::platform::native::sys_info::windows::{
    accent_from_colorization, adapter_subkey, adapters_from_ipconfig, bios_from_registry, console_dpi,
    dark_mode_from_registry, drive_roots, gpu_names_from_subkeys, high_contrast_from, os_version_from_registry,
    power_from_system_status, shell_and_terminal_from_processes,
};

fn s(v: &str) -> Option<String> {
    Some(v.to_string())
}

#[test]
fn colorization_to_accent() {
    assert_eq!(accent_from_colorization(0, 0xC40078D7), (0x00, 0x78, 0xD7));
    assert_eq!(accent_from_colorization(-1, 0xC40078D7), (0, 245, 255));
}

#[test]
fn small_windows_readings() {
    assert_eq!(console_dpi(true, 144), 144);
    assert_eq!(console_dpi(true, 0), 96);
    assert_eq!(console_dpi(false, 144), 96);
    assert!(high_contrast_from(1, 0x1));
    assert!(!high_contrast_from(1, 0x2));
    assert!(!high_contrast_from(0, 0x1));
    assert!(dark_mode_from_registry(Some(0)));
    assert!(!dark_mode_from_registry(Some(1)));
    assert!(dark_mode_from_registry(None));
    assert_eq!(power_from_system_status(1, 1, 73), Some(PowerStatus { ac_online: true, battery_percent: 73 }));
    assert_eq!(power_from_system_status(1, 0, 255), Some(PowerStatus { ac_online: false, battery_percent: 255 }));
    assert_eq!(power_from_system_status(0, 1, 73), None);
}

#[test]
fn bios_values_are_trimmed() {
    let b = bios_from_registry(true, s(" Dell Inc. "), None, s("0XYZ\n")).unwrap();
    assert_eq!(b.manufacturer, "Dell Inc.");
    assert_eq!(b.product, "");
    assert_eq!(b.model, "0XYZ");
    assert_eq!(bios_from_registry(false, s("x"), s("y"), s("z")), None);
}

#[test]
fn windows_version_line() {
    assert_eq!(
        os_version_from_registry(s("Windows 10 Pro"), s("22631"), s("23H2")),
        "Windows 11 Pro 23H2 (Build 22631)"
    );
    assert_eq!(os_version_from_registry(s("Windows 10 Pro"), s("19045"), s("22H2")), "Windows 10 Pro 22H2 (Build 19045)");
    assert_eq!(os_version_from_registry(s("Windows 10 Home Windows 10"), s("22000"), None), "Windows 11 Home Windows 11 (Build 22000)");
    assert_eq!(os_version_from_registry(None, None, None), "Windows");
    assert_eq!(os_version_from_registry(s("Windows 10"), s("abc"), s("")), "Windows 10 (Build abc)");
}

#[test]
fn gpu_subkeys() {
    assert!(adapter_subkey("0001"));
    assert!(!adapter_subkey("Properties"));
    assert!(!adapter_subkey("00001"));
    let keys = vec![
        ("0000".to_string(), s("NVIDIA GeForce RTX 3060")),
        ("Configuration".to_string(), s("ignored")),
        ("0001".to_string(), None),
        ("0002".to_string(), s("Intel(R) UHD Graphics")),
    ];
    assert_eq!(gpu_names_from_subkeys(&keys), vec!["NVIDIA GeForce RTX 3060".to_string(), "Intel(R) UHD Graphics".to_string()]);
}

#[test]
fn logical_drive_strings() {
    let mut buf = vec![0u16; 16];
    let text: Vec<u16> = "C:\\\0D:\\\0\0".encode_utf16().collect();
    buf[..text.len()].copy_from_slice(&text);
    let roots = drive_roots(&buf, (text.len() - 1) as u32);
    assert_eq!(roots, vec!["C:\\".encode_utf16().collect::<Vec<u16>>(), "D:\\".encode_utf16().collect::<Vec<u16>>()]);
    assert!(drive_roots(&buf, 0).is_empty());
    assert!(drive_roots(&buf, 16).is_empty());
}

#[test]
fn process_chain_names_shell_and_terminal() {
    let names = vec!["library-app.exe".to_string(), "pwsh.exe".to_string(), "WindowsTerminal.exe".to_string(), "explorer.exe".to_string()];
    assert_eq!(shell_and_terminal_from_processes(&names), ("PowerShell".to_string(), "Windows Terminal".to_string()));
    let names = vec!["bash.exe".to_string(), "Code.exe".to_string()];
    assert_eq!(shell_and_terminal_from_processes(&names), ("bash".to_string(), "VS Code Terminal".to_string()));
    assert_eq!(shell_and_terminal_from_processes(&vec![]), ("Unknown Shell".to_string(), "Unknown Terminal".to_string()));
    let mut long: Vec<String> = (0..13).map(|_| "svc.exe".to_string()).collect();
    long.push("cmd.exe".to_string());
    assert_eq!(shell_and_terminal_from_processes(&long).0, "Unknown Shell");
}

#[test]
fn ipconfig_adapters() {
    let out = "\r\nWindows IP Configuration\r\n\r\n   Host Name . . . : pc\r\n\r\n\
Ethernet adapter Ethernet:\r\n\r\n   Description . : Intel(R) Ethernet\r\n   IPv4 Address. . . . . . . . . . . : 192.168.1.10(Preferred) \r\n   IPv4 Address. . . . . . . . . . . : 192.168.1.10(Preferred)\r\n\r\n\
Wireless LAN adapter Wi-Fi:\r\n\r\n   Media State . . . . . . . . . . . : Media disconnected\r\n   Description . . . . . . . . . . . : Intel(R) Wi-Fi 6 AX201\r\n";
    let adapters = adapters_from_ipconfig(out);
    assert_eq!(adapters.len(), 2);
    assert_eq!(adapters[0].name, "Ethernet adapter Ethernet");
    assert_eq!(adapters[0].adapter_type, "Ethernet");
    assert_eq!(adapters[0].description, ": Intel(R) Ethernet");
    assert_eq!(adapters[0].ip_addresses, vec!["192.168.1.10".to_string()]);
    assert!(adapters[0].is_up);
    assert_eq!(adapters[1].name, "Wireless LAN adapter Wi-Fi");
    assert_eq!(adapters[1].adapter_type, "Wi-Fi");
    assert!(!adapters[1].is_up);
    let none = adapters_from_ipconfig("nothing here");
    assert_eq!(none.len(), 1);
    assert_eq!(none[0].name, "Unknown Adapter");
    assert_eq!(none[0].description, "ipconfig parse failed");
    assert_eq!(none[0].ip_addresses, vec!["127.0.0.1".to_string()]);
}
