//! Host system information and theme queries, answered by `CurrentPlatform`,
//! and the dashboard summary built from them.
use vstd::prelude::*;
use crate::toolkit::platform::{
    PowerStatus, SystemBiosInfo, DiskDriveInfo, NetworkAdapterInfo, PlatformProvider,
};
use crate::text::{
    str_chars, string_from_chars, extend_with_str, extend_with, push_decimal, decimal, contains,
    contains_str, lowercase, to_lowercase, join, join_strings, trim, trim_chars, str_eq,
};
use providers::CurrentPlatform;

pub mod providers;
pub mod windows;

pub use crate::toolkit::sys_info_glyphs::GlyphMap;
pub use crate::platform::native::monitors::{get_all_monitors, get_monitors_summary};

verus! {

pub fn get_system_screen_resolution() -> (r: (i32, i32))
    ensures
        r == (1920i32, 1080i32),
{
    CurrentPlatform::get_system_screen_resolution()
}

pub fn get_console_window_dpi() -> (d: u32)
    ensures
        d == 96,
{
    CurrentPlatform::get_console_window_dpi()
}

pub fn query_accent_color() -> (c: (u8, u8, u8))
    ensures
        c == (0u8, 245u8, 255u8),
{
    CurrentPlatform::query_accent_color()
}

pub fn query_high_contrast() -> (b: bool)
    ensures
        !b,
{
    CurrentPlatform::query_high_contrast()
}

/// Dark mode, high contrast and accent color together.
#[derive(Debug, Clone, Copy, PartialEq, Eq)]
pub struct SystemTheme {
    pub is_dark_mode: bool,
    pub is_high_contrast: bool,
    pub accent_color: (u8, u8, u8),
}

/// Queries dark mode, high contrast and the accent color together.
pub fn query_system_theme() -> (t: SystemTheme)
    ensures
        t == (SystemTheme { is_dark_mode: true, is_high_contrast: false, accent_color: (0u8, 245u8, 255u8) }),
{
    let is_dark_mode = query_dark_mode();
    let is_high_contrast = query_high_contrast();
    let accent_color = query_accent_color();
    SystemTheme { is_dark_mode, is_high_contrast, accent_color }
}

pub fn query_os_version() -> (s: String)
    ensures
        s@ == "Generic OS"@,
{
    CurrentPlatform::query_os_version()
}

pub fn query_dark_mode() -> (b: bool)
    ensures
        b,
{
    CurrentPlatform::query_dark_mode()
}

pub fn query_power_status() -> (p: Option<PowerStatus>)
    ensures
        p is None,
{
    CurrentPlatform::query_power_status()
}

pub fn query_bios_info() -> (b: Option<SystemBiosInfo>)
    ensures
        b is None,
{
    CurrentPlatform::query_bios_info()
}

pub fn query_shell_and_terminal() -> (st: (String, String))
    ensures
        st.0@ == "sh"@,
        st.1@ == "xterm"@,
{
    CurrentPlatform::query_shell_and_terminal()
}

pub fn query_disk_drives() -> (v: Vec<DiskDriveInfo>)
    ensures
        v@.len() == 1,
        v@[0].path@ == "/"@,
        v@[0].total_bytes == 100 * 1024 * 1024 * 1024,
        v@[0].free_bytes == 50 * 1024 * 1024 * 1024,
{
    CurrentPlatform::query_disk_drives()
}

pub fn query_gpu_names() -> (v: Vec<String>)
    ensures
        v@.len() == 0,
{
    CurrentPlatform::query_gpu_names()
}

pub fn query_network_adapters() -> (v: Vec<NetworkAdapterInfo>)
    ensures
        v@.len() == 1,
        v@[0].name@ == "lo"@,
        v@[0].ip_addresses@.len() == 1,
        v@[0].ip_addresses@[0]@ == "127.0.0.1"@,
{
    CurrentPlatform::query_network_adapters()
}

/// The addresses of the adapters, in order, each once.
pub open spec fn unique_ips(adapters: Seq<Seq<Seq<char>>>) -> Seq<Seq<char>>
    decreases adapters.len(),
{
    if adapters.len() == 0 {
        Seq::empty()
    } else {
        add_unique(unique_ips(adapters.drop_last()), adapters.last())
    }
}

/// `acc` followed by the items of `items` not seen before, in order.
pub open spec fn add_unique(acc: Seq<Seq<char>>, items: Seq<Seq<char>>) -> Seq<Seq<char>>
    decreases items.len(),
{
    if items.len() == 0 {
        acc
    } else {
        let prev = add_unique(acc, items.drop_last());
        if prev.contains(items.last()) {
            prev
        } else {
            prev.push(items.last())
        }
    }
}

/// The addresses of each adapter.
pub open spec fn adapter_ips(adapters: Seq<NetworkAdapterInfo>) -> Seq<Seq<Seq<char>>> {
    adapters.map_values(|a: NetworkAdapterInfo| a.ip_addresses@.map_values(|s: String| s@))
}

fn contains_string(v: &Vec<String>, s: &String) -> (b: bool)
    ensures
        b == v@.map_values(|x: String| x@).contains(s@),
{
    let ghost views = v@.map_values(|x: String| x@);
    for i in 0..v.len()
        invariant
            views == v@.map_values(|x: String| x@),
            forall|k: int| 0 <= k < i ==> views[k] != s@,
    {
        if str_eq(v[i].as_str(), s.as_str()) {
            assert(views[i as int] == s@);
            return true;
        }
    }
    false
}

/// Collects every distinct IP address of the adapters, in the order they first
/// appear; when there is none, `fallback` (if any) is the only one.
pub fn collect_local_ips(adapters: &Vec<NetworkAdapterInfo>, fallback: Option<String>) -> (ips: Vec<String>)
    ensures
        ({
            let u = unique_ips(adapter_ips(adapters@));
            ips@.map_values(|s: String| s@) == (if u.len() > 0 {
                u
            } else {
                match fallback {
                    Some(f) => seq![f@],
                    None => Seq::empty(),
                }
            })
        }),
{
    let ghost all = adapter_ips(adapters@);
    let mut ips: Vec<String> = Vec::new();
    for i in 0..adapters.len()
        invariant
            all == adapter_ips(adapters@),
            all.len() == adapters.len(),
            ips@.map_values(|s: String| s@) == unique_ips(all.take(i as int)),
    {
        let ghost start = ips@.map_values(|s: String| s@);
        let a = &adapters[i];
        let ghost items = a.ip_addresses@.map_values(|s: String| s@);
        assert(all[i as int] == items);
        assert(all.take(i + 1).drop_last() == all.take(i as int));
        for j in 0..a.ip_addresses.len()
            invariant
                items == a.ip_addresses@.map_values(|s: String| s@),
                ips@.map_values(|s: String| s@) == add_unique(start, items.take(j as int)),
        {
            assert(items.take(j + 1).drop_last() == items.take(j as int));
            let ip = &a.ip_addresses[j];
            let ghost before = ips@.map_values(|s: String| s@);
            if !contains_string(&ips, ip) {
                ips.push(ip.clone());
                assert(ips@.map_values(|s: String| s@) == before.push(ip@));
            }
        }
        assert(items.take(a.ip_addresses.len() as int) == items);
    }
    assert(all.take(adapters.len() as int) == all);
    if ips.len() == 0 {
        match fallback {
            Some(f) => {
                ips.push(f);
            },
            None => {},
        }
    }
    ips
}

/// Collects every distinct local IP address of the current platform's adapters.
pub fn query_all_local_ips() -> (ips: Vec<String>)
    ensures
        ips@.len() == 1,
        ips@[0]@ == "127.0.0.1"@,
{
    let adapters = query_network_adapters();
    let ips = collect_local_ips(&adapters, None);
    proof {
        let a = adapter_ips(adapters@);
        assert(a.drop_last().len() == 0);
        assert(unique_ips(a.drop_last()) == Seq::<Seq<char>>::empty());
        let items = a.last();
        assert(items.len() == 1);
        assert(items.drop_last().len() == 0);
        assert(add_unique(Seq::empty(), items.drop_last()) == Seq::<Seq<char>>::empty());
        assert(add_unique(Seq::empty(), items) == seq![items[0]]);
        assert(unique_ips(a) == add_unique(unique_ips(a.drop_last()), a.last()));
        assert(ips@.map_values(|s: String| s@)[0] == ips@[0]@);
    }
    ips
}


/// The distinct-address list holds every address of the adapters, each once.
pub proof fn lemma_unique_ips(adapters: Seq<Seq<Seq<char>>>)
    ensures
        unique_ips(adapters).no_duplicates(),
        forall|x: Seq<char>| unique_ips(adapters).contains(x) <==> exists|i: int|
            0 <= i < adapters.len() && #[trigger] adapters[i].contains(x),
    decreases adapters.len(),
{
    if adapters.len() > 0 {
        let init = adapters.drop_last();
        lemma_unique_ips(init);
        lemma_add_unique(unique_ips(init), adapters.last());
        assert forall|x: Seq<char>| unique_ips(adapters).contains(x) <==> exists|i: int|
            0 <= i < adapters.len() && #[trigger] adapters[i].contains(x) by {
            assert(unique_ips(adapters) == add_unique(unique_ips(init), adapters.last()));
            if unique_ips(adapters).contains(x) {
                if unique_ips(init).contains(x) {
                    let i = choose|i: int| 0 <= i < init.len() && #[trigger] init[i].contains(x);
                    assert(adapters[i] == init[i]);
                    assert(adapters[i].contains(x));
                } else {
                    assert(adapters.last().contains(x));
                    assert(adapters[adapters.len() - 1].contains(x));
                }
            }
            if exists|i: int| 0 <= i < adapters.len() && #[trigger] adapters[i].contains(x) {
                let i = choose|i: int| 0 <= i < adapters.len() && #[trigger] adapters[i].contains(x);
                if i < adapters.len() - 1 {
                    assert(init[i] == adapters[i]);
                    assert(init[i].contains(x));
                    assert(unique_ips(init).contains(x));
                } else {
                    assert(adapters.last().contains(x));
                }
                assert(unique_ips(adapters).contains(x));
            }
        }
    }
}

proof fn lemma_add_unique(acc: Seq<Seq<char>>, items: Seq<Seq<char>>)
    ensures
        acc.no_duplicates() ==> add_unique(acc, items).no_duplicates(),
        forall|x: Seq<char>| add_unique(acc, items).contains(x) <==> (acc.contains(x) || items.contains(x)),
    decreases items.len(),
{
    if items.len() > 0 {
        let init = items.drop_last();
        lemma_add_unique(acc, init);
        let prev = add_unique(acc, init);
        assert forall|x: Seq<char>| add_unique(acc, items).contains(x) <==> (acc.contains(x) || items.contains(x)) by {
            if items.contains(x) {
                let k = choose|k: int| 0 <= k < items.len() && items[k] == x;
                if k < items.len() - 1 {
                    assert(init[k] == x);
                }
            }
            if init.contains(x) {
                let k = choose|k: int| 0 <= k < init.len() && init[k] == x;
                assert(items[k] == x);
            }
            if !prev.contains(items.last()) {
                if prev.push(items.last()).contains(x) {
                    let k = choose|k: int| 0 <= k < prev.len() + 1 && prev.push(items.last())[k] == x;
                    if k < prev.len() {
                        assert(prev[k] == x);
                    }
                }
                if prev.contains(x) {
                    let k = choose|k: int| 0 <= k < prev.len() && prev[k] == x;
                    assert(prev.push(items.last())[k] == x);
                }
                assert(prev.push(items.last())[prev.len() as int] == items.last());
            }
        }
    }
}

/// The host name used when none can be found.
pub const UNKNOWN_HOST: &'static str = "unknown";

/// Memory figures of the dashboard: used and total MiB, and the two amounts
/// (in one unit) whose ratio is the share of memory in use.
#[derive(Debug, Clone, Copy, PartialEq, Eq, Structural)]
pub struct MemoryFigures {
    pub used_mb: u64,
    pub total_mb: u64,
    pub pct_used: u64,
    pub pct_total: u64,
}

/// The figures when nothing could be measured: all zero.
pub fn no_memory_figures() -> (m: MemoryFigures)
    ensures
        m == (MemoryFigures { used_mb: 0, total_mb: 0, pct_used: 0, pct_total: 0 }),
{
    MemoryFigures { used_mb: 0, total_mb: 0, pct_used: 0, pct_total: 0 }
}

/// Memory figures from used and total bytes (all zero when the total is zero).
pub fn memory_from_bytes(used: u64, total: u64) -> (m: MemoryFigures)
    ensures
        m == (if total > 0 {
            MemoryFigures { used_mb: used / 1048576u64, total_mb: total / 1048576u64, pct_used: used, pct_total: total }
        } else {
            MemoryFigures { used_mb: 0, total_mb: 0, pct_used: 0, pct_total: 0 }
        }),
{
    if total > 0 {
        MemoryFigures { used_mb: used / (1024 * 1024), total_mb: total / (1024 * 1024), pct_used: used, pct_total: total }
    } else {
        no_memory_figures()
    }
}

/// Memory figures from the kiB counts of `/proc/meminfo`: the used amount is
/// the total less the available amount (or, when that is zero, the free one).
pub fn memory_from_meminfo(total_kb: u64, free_kb: u64, available_kb: u64) -> (m: MemoryFigures)
    ensures
        m == (if total_kb > 0 {
            let avail = if available_kb > 0 { available_kb } else { free_kb };
            let used = if total_kb >= avail { (total_kb - avail) as u64 } else { 0u64 };
            MemoryFigures { used_mb: used / 1024u64, total_mb: total_kb / 1024u64, pct_used: used, pct_total: total_kb }
        } else {
            MemoryFigures { used_mb: 0, total_mb: 0, pct_used: 0, pct_total: 0 }
        }),
{
    if total_kb > 0 {
        let avail = if available_kb > 0 { available_kb } else { free_kb };
        let used = total_kb.saturating_sub(avail);
        MemoryFigures { used_mb: used / 1024, total_mb: total_kb / 1024, pct_used: used, pct_total: total_kb }
    } else {
        no_memory_figures()
    }
}

/// What the host itself reports (read outside the library): kernel release,
/// host name, CPU brand, uptime in seconds, memory.
pub struct HostReadings {
    pub kernel: Option<String>,
    pub hostname: Option<String>,
    pub cpu: Option<String>,
    pub uptime_secs: u64,
    pub memory: MemoryFigures,
}

impl HostReadings {
    /// Readings when the host reports nothing.
    pub fn unavailable() -> (r: Self)
        ensures
            r.kernel is None,
            r.hostname is None,
            r.cpu is None,
            r.uptime_secs == 0,
            r.memory == (MemoryFigures { used_mb: 0, total_mb: 0, pct_used: 0, pct_total: 0 }),
    {
        HostReadings { kernel: None, hostname: None, cpu: None, uptime_secs: 0, memory: no_memory_figures() }
    }
}

/// The CPU name: the trimmed global brand when it is not empty, else the
/// trimmed brand of the first CPU, if there is one.
pub fn cpu_name(global_brand: &str, first_cpu_brand: Option<&str>) -> (r: Option<String>)
    ensures
        trim(global_brand@).len() > 0 ==> (r matches Some(s) && s@ == trim(global_brand@)),
        trim(global_brand@).len() == 0 ==> (match first_cpu_brand {
            Some(b) => r matches Some(s) && s@ == trim(b@),
            None => r is None,
        }),
{
    let g = trim_chars(&str_chars(global_brand));
    if g.len() > 0 {
        return Some(string_from_chars(&g));
    }
    match first_cpu_brand {
        Some(b) => Some(string_from_chars(&trim_chars(&str_chars(b)))),
        None => None,
    }
}

/// The summary of the host shown on dashboards.
#[derive(Debug, Clone)]
pub struct DashboardInfo {
    pub os: String,
    pub logo_text: String,
    pub kernel: String,
    pub hostname: String,
    pub cpu: String,
    pub uptime_secs: u64,
    pub mem_used_mb: u64,
    pub mem_total_mb: u64,
    /// Memory in use, as the ratio `mem_pct_used / mem_pct_total` (zero over zero when unknown).
    pub mem_pct_used: u64,
    pub mem_pct_total: u64,
    pub power_status: String,
    pub disk_summary: String,
    pub gpus: String,
    pub monitors: String,
}

/// The logo word for an OS name.
pub open spec fn logo_text(os: Seq<char>) -> Seq<char> {
    if contains(os, "Windows 11"@) || contains(os, "WIN11"@) {
        "WIN11"@
    } else if contains(lowercase(os), "linux"@) {
        "LINUX"@
    } else {
        "SYS"@
    }
}

/// The power line: "AC" on mains, else the battery level and "%".
pub open spec fn power_text(p: Option<PowerStatus>) -> Seq<char> {
    match p {
        Some(s) => if s.ac_online { "AC"@ } else { decimal(s.battery_percent as nat) + "%"@ },
        None => "0%"@,
    }
}

/// The drive line: the first drive's path and its free GiB, or "disks".
pub open spec fn disk_text(drives: Seq<DiskDriveInfo>) -> Seq<char> {
    if drives.len() == 0 {
        "disks"@
    } else {
        drives[0].path@ + " ~"@ + decimal((drives[0].free_bytes / 1073741824u64) as nat) + "G free"@
    }
}

/// The GPU line: the names joined by ", ", or "GPU(s)".
pub open spec fn gpus_text(gpus: Seq<Seq<char>>) -> Seq<char> {
    if gpus.len() == 0 { "GPU(s)"@ } else { join(gpus, ", "@) }
}

/// The monitor line.
pub open spec fn monitors_text(count: nat) -> Seq<char> {
    decimal(count) + " monitor(s)"@
}

/// Computes the logo word for an OS name.
pub fn make_logo_text(os: &str) -> (s: String)
    ensures
        s@ == logo_text(os@),
{
    let cs = str_chars(os);
    if contains_str(&cs, "Windows 11") || contains_str(&cs, "WIN11") {
        return "WIN11".to_string();
    }
    let lower = to_lowercase(os);
    if contains_str(&str_chars(lower.as_str()), "linux") {
        "LINUX".to_string()
    } else {
        "SYS".to_string()
    }
}

/// Computes the power line.
pub fn make_power_text(p: &Option<PowerStatus>) -> (s: String)
    ensures
        s@ == power_text(*p),
{
    let (ac, pct) = match p {
        Some(st) => (st.ac_online, st.battery_percent),
        None => (false, 0u8),
    };
    if ac {
        "AC".to_string()
    } else {
        let mut cs: Vec<char> = Vec::new();
        push_decimal(&mut cs, pct as u64);
        extend_with_str(&mut cs, "%");
        proof {
            if p is None {
                reveal_strlit("0%");
                reveal_strlit("%");
                assert(decimal(0) == seq!['0']);
                assert(cs@ =~= "0%"@);
            }
        }
        string_from_chars(&cs)
    }
}

/// Computes the drive line.
pub fn make_disk_text(drives: &Vec<DiskDriveInfo>) -> (s: String)
    ensures
        s@ == disk_text(drives@),
{
    if drives.len() == 0 {
        return "disks".to_string();
    }
    let d = &drives[0];
    let mut cs: Vec<char> = Vec::new();
    extend_with_str(&mut cs, d.path.as_str());
    extend_with_str(&mut cs, " ~");
    push_decimal(&mut cs, d.free_bytes / (1024 * 1024 * 1024));
    extend_with_str(&mut cs, "G free");
    string_from_chars(&cs)
}

/// Computes the GPU line.
pub fn make_gpus_text(gpus: &Vec<String>) -> (s: String)
    ensures
        s@ == gpus_text(gpus@.map_values(|g: String| g@)),
{
    if gpus.len() == 0 {
        "GPU(s)".to_string()
    } else {
        join_strings(gpus, ", ")
    }
}

/// Computes the monitor line.
pub fn make_monitors_text(count: usize) -> (s: String)
    ensures
        s@ == monitors_text(count as nat),
{
    let mut cs: Vec<char> = Vec::new();
    push_decimal(&mut cs, count as u64);
    extend_with_str(&mut cs, " monitor(s)");
    string_from_chars(&cs)
}

/// Builds the dashboard from the OS name, the host readings and the platform's
/// power, drive, GPU and monitor answers. Missing readings become "unknown"
/// (kernel), `UNKNOWN_HOST`, "CPU", and zero memory.
pub fn build_dashboard_info(
    os: String,
    host: HostReadings,
    power: Option<PowerStatus>,
    drives: &Vec<DiskDriveInfo>,
    gpus: &Vec<String>,
    monitor_count: usize,
) -> (d: DashboardInfo)
    ensures
        d.os@ == os@,
        d.logo_text@ == logo_text(os@),
        d.kernel@ == (match host.kernel { Some(k) => k@, None => "unknown"@ }),
        d.hostname@ == (match host.hostname { Some(h) => h@, None => UNKNOWN_HOST@ }),
        d.cpu@ == (match host.cpu { Some(c) => c@, None => "CPU"@ }),
        d.uptime_secs == host.uptime_secs,
        d.mem_used_mb == host.memory.used_mb,
        d.mem_total_mb == host.memory.total_mb,
        d.mem_pct_used == host.memory.pct_used,
        d.mem_pct_total == host.memory.pct_total,
        d.power_status@ == power_text(power),
        d.disk_summary@ == disk_text(drives@),
        d.gpus@ == gpus_text(gpus@.map_values(|g: String| g@)),
        d.monitors@ == monitors_text(monitor_count as nat),
{
    let logo_text = make_logo_text(os.as_str());
    let kernel = match host.kernel {
        Some(k) => k,
        None => "unknown".to_string(),
    };
    let hostname = match host.hostname {
        Some(h) => h,
        None => UNKNOWN_HOST.to_string(),
    };
    let cpu = match host.cpu {
        Some(c) => c,
        None => "CPU".to_string(),
    };
    let power_status = make_power_text(&power);
    let disk_summary = make_disk_text(drives);
    let gpus_line = make_gpus_text(gpus);
    let monitors = make_monitors_text(monitor_count);
    DashboardInfo {
        os,
        logo_text,
        kernel,
        hostname,
        cpu,
        uptime_secs: host.uptime_secs,
        mem_used_mb: host.memory.used_mb,
        mem_total_mb: host.memory.total_mb,
        mem_pct_used: host.memory.pct_used,
        mem_pct_total: host.memory.pct_total,
        power_status,
        disk_summary,
        gpus: gpus_line,
        monitors,
    }
}

/// The dashboard of the current platform with the given host readings.
pub fn get_dashboard_info_uncached(host: HostReadings) -> (d: DashboardInfo)
    ensures
        d.os@ == "Generic OS"@,
        d.logo_text@ == logo_text("Generic OS"@),
        d.kernel@ == (match host.kernel { Some(k) => k@, None => "unknown"@ }),
        d.hostname@ == (match host.hostname { Some(h) => h@, None => UNKNOWN_HOST@ }),
        d.cpu@ == (match host.cpu { Some(c) => c@, None => "CPU"@ }),
        d.uptime_secs == host.uptime_secs,
        d.mem_used_mb == host.memory.used_mb,
        d.mem_total_mb == host.memory.total_mb,
        d.mem_pct_used == host.memory.pct_used,
        d.mem_pct_total == host.memory.pct_total,
        d.power_status@ == power_text(None),
        d.disk_summary@ == "/ ~50G free"@,
        d.gpus@ == "GPU(s)"@,
        d.monitors@ == monitors_text(1),
{
    let os = query_os_version();
    let power = query_power_status();
    let drives = query_disk_drives();
    let gpus = query_gpu_names();
    let monitors = crate::platform::native::monitors::get_all_monitors();
    proof {
        reveal_strlit("/");
        reveal_strlit(" ~");
        reveal_strlit("G free");
        reveal_strlit("/ ~50G free");
        reveal_with_fuel(decimal, 3);
        assert(decimal(50) == seq!['5', '0']);
        assert(disk_text(drives@) =~= "/ ~50G free"@);
        assert(gpus@.map_values(|g: String| g@).len() == 0);
    }
    build_dashboard_info(os, host, power, &drives, &gpus, monitors.len())
}

/// The dashboard of the current platform when the host reports nothing.
pub fn get_dashboard_info() -> (d: DashboardInfo)
    ensures
        d.os@ == "Generic OS"@,
        d.logo_text@ == logo_text("Generic OS"@),
        d.kernel@ == "unknown"@,
        d.hostname@ == UNKNOWN_HOST@,
        d.cpu@ == "CPU"@,
        d.uptime_secs == 0,
        d.mem_used_mb == 0,
        d.mem_total_mb == 0,
        d.mem_pct_used == 0,
        d.mem_pct_total == 0,
        d.power_status@ == "0%"@,
        d.disk_summary@ == "/ ~50G free"@,
        d.gpus@ == "GPU(s)"@,
        d.monitors@ == monitors_text(1),
{
    get_dashboard_info_uncached(HostReadings::unavailable())
}

/// Rich system information (the same fields as the dashboard).
#[derive(Debug, Clone)]
pub struct SystemInfo {
    pub os: String,
    pub logo_text: String,
    pub kernel: String,
    pub hostname: String,
    pub cpu: String,
    pub uptime_secs: u64,
    pub mem_used_mb: u64,
    pub mem_total_mb: u64,
    pub mem_pct_used: u64,
    pub mem_pct_total: u64,
    pub power_status: String,
    pub disk_summary: String,
    pub gpus: String,
    pub monitors: String,
}

/// System information carried over field by field from a dashboard.
pub fn system_info_from(d: DashboardInfo) -> (s: SystemInfo)
    ensures
        s.os@ == d.os@,
        s.logo_text@ == d.logo_text@,
        s.kernel@ == d.kernel@,
        s.hostname@ == d.hostname@,
        s.cpu@ == d.cpu@,
        s.uptime_secs == d.uptime_secs,
        s.mem_used_mb == d.mem_used_mb,
        s.mem_total_mb == d.mem_total_mb,
        s.mem_pct_used == d.mem_pct_used,
        s.mem_pct_total == d.mem_pct_total,
        s.power_status@ == d.power_status@,
        s.disk_summary@ == d.disk_summary@,
        s.gpus@ == d.gpus@,
        s.monitors@ == d.monitors@,
{
    SystemInfo {
        os: d.os,
        logo_text: d.logo_text,
        kernel: d.kernel,
        hostname: d.hostname,
        cpu: d.cpu,
        uptime_secs: d.uptime_secs,
        mem_used_mb: d.mem_used_mb,
        mem_total_mb: d.mem_total_mb,
        mem_pct_used: d.mem_pct_used,
        mem_pct_total: d.mem_pct_total,
        power_status: d.power_status,
        disk_summary: d.disk_summary,
        gpus: d.gpus,
        monitors: d.monitors,
    }
}

/// Rich system information of the current platform.
pub fn get_system_info() -> (s: SystemInfo)
    ensures
        s.os@ == "Generic OS"@,
        s.logo_text@ == logo_text("Generic OS"@),
        s.kernel@ == "unknown"@,
        s.hostname@ == UNKNOWN_HOST@,
        s.cpu@ == "CPU"@,
        s.uptime_secs == 0,
        s.mem_used_mb == 0,
        s.mem_total_mb == 0,
        s.mem_pct_used == 0,
        s.mem_pct_total == 0,
        s.power_status@ == "0%"@,
        s.disk_summary@ == "/ ~50G free"@,
        s.gpus@ == "GPU(s)"@,
        s.monitors@ == monitors_text(1),
{
    system_info_from(get_dashboard_info())
}

} // verus!
