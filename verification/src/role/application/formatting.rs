//! Text summaries of the host for terminal dashboards, and color parsing.
use vstd::prelude::*;
use vstd::string::StringSliceAdditionalSpecFns;
use crate::toolkit::platform::{PowerStatus, DiskDriveInfo};
use crate::text::{string_from_chars, extend_with_str, push_decimal, decimal, join, join_chars, join_strings};

verus! {

/// The host name: the one the system reports, else `COMPUTERNAME`, else
/// `HOSTNAME`, else `UNKNOWN_HOST` (each absent when it is not available).
pub fn host_name_from(system_host: Option<String>, computername: Option<String>, hostname: Option<String>) -> (r: String)
    ensures
        r@ == (match system_host {
            Some(h) => h@,
            None => match computername {
                Some(c) => c@,
                None => match hostname {
                    Some(h) => h@,
                    None => crate::platform::native::sys_info::UNKNOWN_HOST@,
                },
            },
        }),
{
    match system_host {
        Some(h) => h,
        None => match computername {
            Some(c) => c,
            None => match hostname {
                Some(h) => h,
                None => crate::platform::native::sys_info::UNKNOWN_HOST.to_string(),
            },
        },
    }
}

/// Uptime as "<d>d <h>h <m>m", or "<h>h <m>m" under a day.
pub open spec fn uptime_text(secs: nat) -> Seq<char> {
    let days = secs / 86400;
    let hours = (secs % 86400) / 3600;
    let minutes = (secs % 3600) / 60;
    if days > 0 {
        decimal(days) + "d "@ + decimal(hours) + "h "@ + decimal(minutes) + "m"@
    } else {
        decimal(hours) + "h "@ + decimal(minutes) + "m"@
    }
}

/// An uptime line reads back as the uptime, to the minute: under a day it is
/// "<h>h <m>m" with `3600 h + 60 m <= secs < 3600 h + 60 m + 60` and `m < 60`;
/// from a day on it is "<d>d <h>h <m>m" with `86400 d + 3600 h + 60 m <= secs <
/// 86400 d + 3600 h + 60 m + 60`, `h < 24` and `m < 60`.
pub proof fn lemma_uptime_reads_back(secs: nat)
    ensures
        secs < 86400 ==> ({
            let h = secs / 3600;
            let m = (secs / 60) % 60;
            &&& uptime_text(secs) == decimal(h) + "h "@ + decimal(m) + "m"@
            &&& m < 60
            &&& 3600 * h + 60 * m <= secs < 3600 * h + 60 * m + 60
        }),
        secs >= 86400 ==> ({
            let d = secs / 86400;
            let h = (secs / 3600) % 24;
            let m = (secs / 60) % 60;
            &&& uptime_text(secs) == decimal(d) + "d "@ + decimal(h) + "h "@ + decimal(m) + "m"@
            &&& d > 0 && h < 24 && m < 60
            &&& 86400 * d + 3600 * h + 60 * m <= secs < 86400 * d + 3600 * h + 60 * m + 60
        }),
{
    assert((secs % 3600) / 60 == (secs / 60) % 60) by (nonlinear_arith);
    assert((secs % 86400) / 3600 == (secs / 3600) % 24) by (nonlinear_arith);
    assert(86400 * (secs / 86400) + 3600 * ((secs / 3600) % 24) + 60 * ((secs / 60) % 60) <= secs)
        by (nonlinear_arith);
    assert(secs < 86400 * (secs / 86400) + 3600 * ((secs / 3600) % 24) + 60 * ((secs / 60) % 60) + 60)
        by (nonlinear_arith);
}

/// Formats an uptime in seconds.
pub fn format_uptime(secs: u64) -> (s: String)
    ensures
        s@ == uptime_text(secs as nat),
{
    let days = secs / 86400;
    let hours = (secs % 86400) / 3600;
    let minutes = (secs % 3600) / 60;
    let mut cs: Vec<char> = Vec::new();
    if days > 0 {
        push_decimal(&mut cs, days);
        extend_with_str(&mut cs, "d ");
    }
    push_decimal(&mut cs, hours);
    extend_with_str(&mut cs, "h ");
    push_decimal(&mut cs, minutes);
    extend_with_str(&mut cs, "m");
    string_from_chars(&cs)
}

/// Get formatted uptime (e.g. "1d 2h 45m" or "2h 45m") of the current platform.
pub fn get_formatted_uptime() -> (s: String)
    ensures
        s@ == uptime_text(0),
{
    let info = crate::platform::native::sys_info::get_system_info();
    format_uptime(info.uptime_secs)
}

/// Battery line: "<pct>% (AC)" or "<pct>% (Battery)", or "N/A".
pub open spec fn battery_text(p: Option<PowerStatus>) -> Seq<char> {
    match p {
        Some(s) => decimal(s.battery_percent as nat) + "% ("@ + (if s.ac_online { "AC"@ } else { "Battery"@ }) + ")"@,
        None => "N/A"@,
    }
}

/// Formats the battery line.
pub fn format_battery(p: &Option<PowerStatus>) -> (s: String)
    ensures
        s@ == battery_text(*p),
{
    match p {
        Some(st) => {
            let mut cs: Vec<char> = Vec::new();
            push_decimal(&mut cs, st.battery_percent as u64);
            extend_with_str(&mut cs, "% (");
            extend_with_str(&mut cs, if st.ac_online { "AC" } else { "Battery" });
            extend_with_str(&mut cs, ")");
            string_from_chars(&cs)
        },
        None => "N/A".to_string(),
    }
}

/// Get battery status summary text of the current platform.
pub fn get_battery_info() -> (s: String)
    ensures
        s@ == "N/A"@,
{
    let p = crate::platform::native::sys_info::query_power_status();
    format_battery(&p)
}

/// One drive: "<path>: <free>/<total> GB free" (whole GiB).
pub open spec fn drive_text(d: DiskDriveInfo) -> Seq<char> {
    d.path@ + ": "@ + decimal((d.free_bytes / 1073741824u64) as nat) + "/"@ + decimal(
        (d.total_bytes / 1073741824u64) as nat,
    ) + " GB free"@
}

/// All drives joined by ", ", or "N/A".
pub open spec fn drives_text(ds: Seq<DiskDriveInfo>) -> Seq<char> {
    if ds.len() == 0 {
        "N/A"@
    } else {
        join(ds.map_values(|d: DiskDriveInfo| drive_text(d)), ", "@)
    }
}

/// Formats the drives line.
pub fn format_disks(drives: &Vec<DiskDriveInfo>) -> (s: String)
    ensures
        s@ == drives_text(drives@),
{
    if drives.len() == 0 {
        return "N/A".to_string();
    }
    let mut parts: Vec<Vec<char>> = Vec::new();
    for i in 0..drives.len()
        invariant
            parts@.len() == i,
            forall|k: int| 0 <= k < i ==> #[trigger] parts@[k]@ == drive_text(drives@[k]),
    {
        let d = &drives[i];
        let mut cs: Vec<char> = Vec::new();
        extend_with_str(&mut cs, d.path.as_str());
        extend_with_str(&mut cs, ": ");
        push_decimal(&mut cs, d.free_bytes / (1024 * 1024 * 1024));
        extend_with_str(&mut cs, "/");
        push_decimal(&mut cs, d.total_bytes / (1024 * 1024 * 1024));
        extend_with_str(&mut cs, " GB free");
        parts.push(cs);
    }
    let joined = join_chars(&parts, ", ");
    assert(parts@.map_values(|p: Vec<char>| p@) =~= drives@.map_values(|d: DiskDriveInfo| drive_text(d)));
    string_from_chars(&joined)
}

/// Get formatted disk information summary for all drives of the current platform.
pub fn get_disks_info() -> (s: String)
    ensures
        s@ == "/: 50/100 GB free"@,
{
    let drives = crate::platform::native::sys_info::query_disk_drives();
    let s = format_disks(&drives);
    proof {
        reveal_with_fuel(decimal, 4);
        assert(decimal(50) == seq!['5', '0']);
        assert(decimal(100) == seq!['1', '0', '0']);
        reveal_strlit("/: 50/100 GB free");
        reveal_strlit("/");
        reveal_strlit(": ");
        reveal_strlit(" GB free");
        let parts = drives@.map_values(|d: DiskDriveInfo| drive_text(d));
        assert(parts.len() == 1);
        assert(join(parts, ", "@) == parts[0]);
        assert(drive_text(drives@[0]) =~= "/: 50/100 GB free"@);
    }
    s
}

/// The GPU line: the names joined by ", ", or "Unknown GPU".
pub open spec fn gpu_names_text(gpus: Seq<Seq<char>>) -> Seq<char> {
    if gpus.len() == 0 { "Unknown GPU"@ } else { join(gpus, ", "@) }
}

/// Formats the GPU line.
pub fn format_gpu_names(gpus: &Vec<String>) -> (s: String)
    ensures
        s@ == gpu_names_text(gpus@.map_values(|g: String| g@)),
{
    if gpus.len() == 0 {
        "Unknown GPU".to_string()
    } else {
        join_strings(gpus, ", ")
    }
}

/// Get formatted GPU list of the current platform.
pub fn get_gpu_names() -> (s: String)
    ensures
        s@ == "Unknown GPU"@,
{
    let gpus = crate::platform::native::sys_info::query_gpu_names();
    format_gpu_names(&gpus)
}

/// Detect host shell and active terminal type.
pub fn detect_shell_and_terminal() -> (st: (String, String))
    ensures
        st.0@ == "sh"@,
        st.1@ == "xterm"@,
{
    crate::platform::native::sys_info::query_shell_and_terminal()
}

/// The bytes after every leading '#'.
pub open spec fn strip_hashes(b: Seq<u8>) -> Seq<u8>
    decreases b.len(),
{
    if b.len() > 0 && b[0] == 35 {
        strip_hashes(b.drop_first())
    } else {
        b
    }
}

/// Whether a byte is an ASCII hex digit.
pub open spec fn is_hex_byte(c: u8) -> bool {
    (48 <= c <= 57) || (97 <= c <= 102) || (65 <= c <= 70)
}

/// The value of an ASCII hex digit.
pub open spec fn hex_byte_value(c: u8) -> nat {
    if 48 <= c <= 57 {
        (c - 48) as nat
    } else if 97 <= c <= 102 {
        (c - 87) as nat
    } else {
        (c - 55) as nat
    }
}

/// What `u8::from_str_radix(_, 16)` gives for two bytes: two hex digits, or
/// '+' and one hex digit.
pub open spec fn hex_pair_bytes(c1: u8, c2: u8) -> Option<u8> {
    if is_hex_byte(c1) && is_hex_byte(c2) {
        Some((hex_byte_value(c1) * 16 + hex_byte_value(c2)) as u8)
    } else if c1 == 43 && is_hex_byte(c2) {
        Some(hex_byte_value(c2) as u8)
    } else {
        None
    }
}

/// Whether byte `i` starts a character (is not a UTF-8 continuation byte).
pub open spec fn char_boundary(b: Seq<u8>, i: int) -> bool {
    !(128 <= b[i] <= 191)
}

/// The color of "#RRGGBB" or "RRGGBB" (any number of leading '#'): each
/// channel that is not a hex pair becomes 0, 245 and 255 respectively; text
/// that is not six bytes long after the '#' gives (0, 245, 255).
pub open spec fn hex_color(b: Seq<u8>) -> (u8, u8, u8) {
    let h = strip_hashes(b);
    if h.len() == 6 {
        (
            match hex_pair_bytes(h[0], h[1]) { Some(v) => v, None => 0 },
            match hex_pair_bytes(h[2], h[3]) { Some(v) => v, None => 245 },
            match hex_pair_bytes(h[4], h[5]) { Some(v) => v, None => 255 },
        )
    } else {
        (0, 245, 255)
    }
}

fn hex_byte_exec(c: u8) -> (r: Option<u8>)
    ensures
        r == (if is_hex_byte(c) { Some(hex_byte_value(c) as u8) } else { None::<u8> }),
        r matches Some(v) ==> v < 16,
{
    if 48 <= c && c <= 57 {
        Some(c - 48)
    } else if 97 <= c && c <= 102 {
        Some(c - 87)
    } else if 65 <= c && c <= 70 {
        Some(c - 55)
    } else {
        None
    }
}

fn hex_pair_exec(c1: u8, c2: u8) -> (r: Option<u8>)
    ensures
        r == hex_pair_bytes(c1, c2),
{
    match (hex_byte_exec(c1), hex_byte_exec(c2)) {
        (Some(a), Some(b)) => Some(a * 16 + b),
        (None, Some(b)) => if c1 == 43 { Some(b) } else { None },
        _ => None,
    }
}

proof fn lemma_strip_hashes_skip(b: Seq<u8>, i: int)
    requires
        0 <= i <= b.len(),
        forall|k: int| 0 <= k < i ==> b[k] == 35,
    ensures
        strip_hashes(b) == strip_hashes(b.skip(i)),
    decreases i,
{
    if i > 0 {
        assert(b.drop_first().skip(i - 1) == b.skip(i));
        assert forall|k: int| 0 <= k < i - 1 implies b.drop_first()[k] == 35 by {
            assert(b.drop_first()[k] == b[k + 1]);
        }
        lemma_strip_hashes_skip(b.drop_first(), i - 1);
    } else {
        assert(b.skip(0) == b);
    }
}

/// Helper to convert a hex color string (e.g. "#D41020" or "D41020") to RGB.
/// Six bytes that split inside a character are not accepted (the caller must
/// not pass them).
pub fn hex_to_rgb(hex: &str) -> (c: (u8, u8, u8))
    requires
        strip_hashes(hex.spec_bytes()).len() == 6 ==> char_boundary(strip_hashes(hex.spec_bytes()), 2)
            && char_boundary(strip_hashes(hex.spec_bytes()), 4),
    ensures
        c == hex_color(hex.spec_bytes()),
{
    let b = hex.as_bytes();
    let mut i: usize = 0;
    while i < b.len() && b[i] == 35
        invariant
            i <= b.len(),
            forall|k: int| 0 <= k < i ==> b@[k] == 35,
        decreases b.len() - i,
    {
        i = i + 1;
    }
    proof {
        lemma_strip_hashes_skip(b@, i as int);
        let t = b@.skip(i as int);
        if t.len() > 0 {
            assert(t[0] == b@[i as int]);
        }
        assert(strip_hashes(t) == t);
    }
    if b.len() - i == 6 {
        let r = match hex_pair_exec(b[i], b[i + 1]) { Some(v) => v, None => 0 };
        let g = match hex_pair_exec(b[i + 2], b[i + 3]) { Some(v) => v, None => 245 };
        let bl = match hex_pair_exec(b[i + 4], b[i + 5]) { Some(v) => v, None => 255 };
        (r, g, bl)
    } else {
        (0, 245, 255)
    }
}

} // verus!
