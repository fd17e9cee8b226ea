use library::platform::NetworkAdapterInfo;
use library::platform::PowerStatus;
use library::sys_info::linux::{legacy_terminal_from_env, power_from_legacy_files};
use library::toolkit::sys_info_linux::{
    adapters_from_ip_addr, bios_from_dmi, dark_mode_from_gsettings, drives_from_df, gpu_names_from,
    os_name_from_release, power_from_supplies, resolution_from_mode, resolution_from_modes,
    shell_and_terminal_from_env, PowerSupplyReading, cpu_from_cpuinfo, meminfo_counts,
};

fn s(v: &str) -> Option<String> {
    Some(v.to_string())
}

#[test]
fn drm_modes_give_the_first_resolution() {
    assert_eq!(resolution_from_mode("2560x1440\n1920x1080\n"), Some((2560, 1440)));
    assert_eq!(resolution_from_mode("-5x+7"), Some((-5, 7)));
    assert_eq!(resolution_from_mode("1920x1080i"), None);
    assert_eq!(resolution_from_mode(""), None);
    assert_eq!(resolution_from_mode("1x2x3"), None);
    assert_eq!(resolution_from_mode("99999999999x1"), None);
    let files = vec![String::new(), "bad".to_string(), "1366x768\n".to_string(), "800x600".to_string()];
    assert_eq!(resolution_from_modes(&files), (1366, 768));
    assert_eq!(resolution_from_modes(&vec![]), (1920, 1080));
}

#[test]
fn os_release_pretty_name() {
    let text = "NAME=\"Ubuntu\"\nPRETTY_NAME=\"\"\nPRETTY_NAME=\"Ubuntu 24.04 LTS\"\r\nVERSION=1\n";
    assert_eq!(os_name_from_release(Some(text)), "Ubuntu 24.04 LTS");
    assert_eq!(os_name_from_release(Some("PRETTY_NAME=Arch=Linux\n")), "Arch");
    assert_eq!(os_name_from_release(Some("ID=debian\n")), "Linux");
    assert_eq!(os_name_from_release(None), "Linux");
}

#[test]
fn gsettings_dark_mode_is_always_dark() {
    assert!(dark_mode_from_gsettings(Some("'prefer-dark'"), None));
    assert!(dark_mode_from_gsettings(Some("'default'"), Some("'Adwaita'")));
    assert!(dark_mode_from_gsettings(None, None));
}

#[test]
fn power_supplies() {
    let mains_off = PowerSupplyReading { kind: s("Mains\n"), online: s("0\n"), capacity: None };
    let mains_on = PowerSupplyReading { kind: s("Mains"), online: s("1"), capacity: None };
    let bat = PowerSupplyReading { kind: s("Battery\n"), online: None, capacity: s(" 57\n") };
    let bad_bat = PowerSupplyReading { kind: s("Battery"), online: None, capacity: s("300") };
    assert_eq!(power_from_supplies(&vec![]), None);
    assert_eq!(
        power_from_supplies(&vec![mains_off, bat]),
        Some(PowerStatus { ac_online: false, battery_percent: 57 })
    );
    let mains_off2 = PowerSupplyReading { kind: s("Mains\n"), online: s("0\n"), capacity: None };
    let bat2 = PowerSupplyReading { kind: s("Battery"), online: None, capacity: s("80") };
    assert_eq!(
        power_from_supplies(&vec![mains_off2, mains_on, bat2, bad_bat]),
        Some(PowerStatus { ac_online: true, battery_percent: 80 })
    );
    let only_bat = PowerSupplyReading { kind: s("Battery"), online: None, capacity: s("12") };
    assert_eq!(power_from_supplies(&vec![only_bat]), Some(PowerStatus { ac_online: true, battery_percent: 12 }));
}

#[test]
fn legacy_power_files() {
    assert_eq!(power_from_legacy_files(&s("1\n"), &None, &s("45"), &s("90")), Some(PowerStatus { ac_online: true, battery_percent: 45 }));
    assert_eq!(power_from_legacy_files(&None, &s("0"), &s("x"), &s("90")), Some(PowerStatus { ac_online: false, battery_percent: 90 }));
    assert_eq!(power_from_legacy_files(&None, &None, &s("255"), &None), None);
    assert_eq!(power_from_legacy_files(&None, &None, &None, &None), None);
}

#[test]
fn dmi_identification_trims_and_defaults() {
    let b = bios_from_dmi(&s("LENOVO\n"), &None, &s("  ThinkPad X1 \n")).unwrap();
    assert_eq!(b.manufacturer, "LENOVO");
    assert_eq!(b.product, "Generic");
    assert_eq!(b.model, "ThinkPad X1");
}

#[test]
fn shell_file_name_follows_unix_paths() {
    let shell = |p: &str| shell_and_terminal_from_env(Some(p), None, None).0;
    assert_eq!(shell("/bin/zsh/"), "zsh");
    assert_eq!(shell("/usr/bin/./fish/."), "fish");
    assert_eq!(shell("bash"), "bash");
    assert_eq!(shell("C:\\msys\\bin\\bash.exe"), "C:\\msys\\bin\\bash.exe");
    assert_eq!(shell("/usr/.."), "sh");
    assert_eq!(shell("/"), "sh");
    assert_eq!(shell(""), "sh");
    assert_eq!(shell("."), "sh");
}

#[test]
fn shell_and_terminal_from_environment() {
    let (shell, term) = shell_and_terminal_from_env(Some("/usr/bin/zsh"), Some("WezTerm"), Some("xterm-256color"));
    assert_eq!(shell, "zsh");
    assert_eq!(term, "WezTerm");
    let (shell, term) = shell_and_terminal_from_env(None, Some(""), Some("xterm-kitty"));
    assert_eq!(shell, "sh");
    assert_eq!(term, "Kitty");
    let (_, term) = shell_and_terminal_from_env(None, None, None);
    assert_eq!(term, "xterm");
    let (_, term) = shell_and_terminal_from_env(None, Some("Apple_Terminal"), None);
    assert_eq!(term, "Apple_Terminal");
    assert_eq!(legacy_terminal_from_env(Some("Kitty"), None), "Kitty");
    assert_eq!(legacy_terminal_from_env(None, Some("xterm-kitty")), "Kitty");
}

#[test]
fn df_output_lists_real_drives() {
    let out = "Filesystem 1K-blocks Used Available Use% Mounted on\n\
               /dev/sda1 1000 400 600 40% /\n\
               tmpfs 50 0 50 0% /run\n\
               /dev/sdb1 2048 0 2048 0% /mnt/data\n";
    let drives = drives_from_df(Some(out));
    assert_eq!(drives.len(), 2);
    assert_eq!(drives[0].path, "/");
    assert_eq!(drives[0].total_bytes, 1000 * 1024);
    assert_eq!(drives[0].free_bytes, 600 * 1024);
    assert_eq!(drives[1].path, "/mnt/data");
    let none = drives_from_df(Some("Filesystem\n"));
    assert_eq!(none.len(), 1);
    assert_eq!(none[0].path, "/");
    assert_eq!(none[0].total_bytes, 100 * 1024 * 1024 * 1024);
    assert_eq!(none[0].free_bytes, 50 * 1024 * 1024 * 1024);
    let huge = drives_from_df(Some("h\n/dev/x 18446744073709551615 0 1 0% /\n"));
    assert_eq!(huge[0].total_bytes, 18446744073709551615u64.wrapping_mul(1024));
}

#[test]
fn lspci_names_graphics_controllers() {
    let out = "00:02.0 VGA compatible controller: Intel Corporation UHD Graphics 620 (rev 07)\n\
               01:00.0 3D controller: NVIDIA Corporation GP108M [GeForce MX150] (rev a1)\n\
               00:1f.3 Audio device: Intel Corporation Sunrise Point-LP HD Audio\n";
    let gpus = gpu_names_from(Some(out), &vec![]);
    assert_eq!(gpus, vec![
        "Intel Corporation UHD Graphics 620 (rev 07)".to_string(),
        "00.0 3D controller: NVIDIA Corporation GP108M [GeForce MX150] (rev a1)".to_string(),
    ]);
}

#[test]
fn drm_drivers_when_lspci_names_none() {
    let uevents = vec!["DRIVER=i915\nPCI_ID=1\n".to_string(), "DRIVER=i915\n".to_string(), "DRIVER=amdgpu".to_string(), "DRIVER=\n".to_string()];
    assert_eq!(gpu_names_from(None, &uevents), vec!["i915".to_string(), "amdgpu".to_string()]);
    assert_eq!(gpu_names_from(Some("nothing\n"), &vec![]), Vec::<String>::new());
}

fn adapter_names(v: &[NetworkAdapterInfo]) -> Vec<(String, String, Vec<String>)> {
    v.iter().map(|a| (a.name.clone(), a.adapter_type.clone(), a.ip_addresses.clone())).collect()
}

#[test]
fn ip_addr_merges_addresses_per_interface() {
    let out = "1: lo    inet 127.0.0.1/8 scope host lo\n\
               2: wlp3s0    inet 192.168.1.20/24 brd 192.168.1.255 scope global wlp3s0\n\
               2: wlp3s0    inet6 fe80::1/64 scope link\n\
               2: wlp3s0    inet 192.168.1.20/24 dup\n\
               3: enp0s31f6    inet 10.0.0.5/24\n";
    let adapters = adapters_from_ip_addr(Some(out));
    assert_eq!(adapter_names(&adapters), vec![
        ("lo".to_string(), "Virtual".to_string(), vec!["127.0.0.1".to_string()]),
        ("wlp3s0".to_string(), "Wi-Fi".to_string(), vec!["192.168.1.20".to_string(), "fe80::1".to_string()]),
        ("enp0s31f6".to_string(), "Ethernet".to_string(), vec!["10.0.0.5".to_string()]),
    ]);
    assert!(adapters.iter().all(|a| a.description == "Linux interface" && a.is_up));
    let fallback = adapters_from_ip_addr(None);
    assert_eq!(adapter_names(&fallback), vec![("lo".to_string(), "Virtual".to_string(), vec!["127.0.0.1".to_string()])]);
    assert_eq!(fallback[0].description, "Loopback");
}

#[test]
fn proc_cpuinfo_and_meminfo() {
    let cpuinfo = "processor\t: 0\nmodel name\n model name\nmodel name\t: Intel(R) Core(TM) i7 : x\nmodel name: other\n";
    assert_eq!(cpu_from_cpuinfo(cpuinfo), Some("Intel(R) Core(TM) i7".to_string()));
    assert_eq!(cpu_from_cpuinfo("flags: fpu\n"), None);
    let meminfo = "MemTotal:       16000000 kB\nMemFree:         2000000 kB\nMemAvailable:    8000000 kB\nMemFree: bad\n";
    assert_eq!(meminfo_counts(meminfo), (16000000, 0, 8000000));
    assert_eq!(meminfo_counts(""), (0, 0, 0));
}
