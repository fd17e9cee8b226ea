//! What the Linux platform makes of the files under `/sys` and `/etc`, the
//! environment and the output of `df`, `lspci` and `ip`. Reading them happens
//! outside the library; these functions take what was read.
use vstd::prelude::*;
use crate::toolkit::platform::{
    PowerStatus, SystemBiosInfo, DiskDriveInfo, NetworkAdapterInfo, AdapterView, adapter_views,
    documented_adapter_type,
};
use crate::text::{
    str_chars, string_from_chars, extend_with, extend_with_str, contains, contains_str, lowercase,
    to_lowercase, trim, trim_chars, starts_with, starts_with_str, text_lines, split_lines, pieces,
    split_char, nth_piece, nth_piece_chars, strip_prefixes, strip_suffixes, strip_prefixes_chars,
    strip_suffixes_chars, parse_i32, parse_i32_chars, parse_unsigned, parse_unsigned_chars, chars_eq,
    str_eq, words, split_words, find_char, find_char_index, slice_chars, second_piece,
    second_piece_chars, ends_with,
};

verus! {

// ---------------------------------------------------------------------------
// Screen resolution
// ---------------------------------------------------------------------------

/// The resolution on the first line of a DRM connector's `modes` file, such as
/// "1920x1080": two parts around an `x`, each an `i32`.
pub open spec fn mode_resolution(content: Seq<char>) -> Option<(i32, i32)> {
    let ls = text_lines(content);
    if ls.len() == 0 {
        None
    } else {
        let parts = pieces(ls[0], 'x');
        if parts.len() == 2 {
            match (parse_i32(parts[0]), parse_i32(parts[1])) {
                (Some(w), Some(h)) => Some((w as i32, h as i32)),
                _ => None,
            }
        } else {
            None
        }
    }
}

/// The first resolution that the `modes` files give, in order; 1920x1080 when
/// none gives one.
pub open spec fn first_resolution(contents: Seq<Seq<char>>) -> (i32, i32)
    decreases contents.len(),
{
    if contents.len() == 0 {
        (1920, 1080)
    } else {
        match mode_resolution(contents[0]) {
            Some(r) => r,
            None => first_resolution(contents.drop_first()),
        }
    }
}

/// The resolution on the first line of one `modes` file.
pub fn resolution_from_mode(content: &str) -> (r: Option<(i32, i32)>)
    ensures
        r == mode_resolution(content@),
{
    let cs = str_chars(content);
    let lines = split_lines(&cs);
    if lines.len() == 0 {
        return None;
    }
    assert(lines@[0]@ == text_lines(content@)[0]);
    let parts = split_char(&lines[0], 'x');
    if parts.len() != 2 {
        return None;
    }
    match (parse_i32_chars(&parts[0]), parse_i32_chars(&parts[1])) {
        (Some(w), Some(h)) => Some((w, h)),
        _ => None,
    }
}

/// The screen resolution from the `modes` files of the DRM connectors, in
/// directory order.
pub fn resolution_from_modes(contents: &Vec<String>) -> (r: (i32, i32))
    ensures
        r == first_resolution(contents@.map_values(|s: String| s@)),
{
    let ghost views = contents@.map_values(|s: String| s@);
    assert(views.skip(0) == views);
    for i in 0..contents.len()
        invariant
            views == contents@.map_values(|s: String| s@),
            first_resolution(views) == first_resolution(views.skip(i as int)),
    {
        assert(views.skip(i as int)[0] == contents@[i as int]@);
        assert(views.skip(i as int).drop_first() == views.skip(i + 1));
        match resolution_from_mode(contents[i].as_str()) {
            Some(r) => {
                return r;
            },
            None => {},
        }
    }
    assert(views.skip(contents.len() as int) == Seq::<Seq<char>>::empty());
    (1920, 1080)
}

// ---------------------------------------------------------------------------
// OS name
// ---------------------------------------------------------------------------

/// The value of a `PRETTY_NAME=` line: the text after the first `=` up to the
/// next one, without surrounding double quotes.
pub open spec fn pretty_name_value(line: Seq<char>) -> Seq<char> {
    strip_suffixes(strip_prefixes(nth_piece(line, '=', 1), "\""@), "\""@)
}

/// The first non-empty `PRETTY_NAME` value among the lines, if any.
pub open spec fn pretty_name(lines: Seq<Seq<char>>) -> Option<Seq<char>>
    decreases lines.len(),
{
    if lines.len() == 0 {
        None
    } else if starts_with(lines[0], "PRETTY_NAME="@) && pretty_name_value(lines[0]).len() > 0 {
        Some(pretty_name_value(lines[0]))
    } else {
        pretty_name(lines.drop_first())
    }
}

/// The OS name from the text of `/etc/os-release` (none when it could not be
/// read): its first non-empty `PRETTY_NAME`, else "Linux".
pub open spec fn os_release_name(content: Option<Seq<char>>) -> Seq<char> {
    match content {
        Some(c) => match pretty_name(text_lines(c)) {
            Some(n) => n,
            None => "Linux"@,
        },
        None => "Linux"@,
    }
}

/// The OS name from the text of `/etc/os-release`.
pub fn os_name_from_release(content: Option<&str>) -> (r: String)
    ensures
        r@ == os_release_name(match content {
            Some(c) => Some(c@),
            None => None,
        }),
{
    match content {
        None => String::from_str("Linux"),
        Some(c) => {
            let cs = str_chars(c);
            let lines = split_lines(&cs);
            let ghost views = lines@.map_values(|l: Vec<char>| l@);
            let quote = str_chars("\"");
            assert(views.skip(0) == views);
            for i in 0..lines.len()
                invariant
                    views == lines@.map_values(|l: Vec<char>| l@),
                    views == text_lines(c@),
                    quote@ == "\""@,
                    pretty_name(views) == pretty_name(views.skip(i as int)),
                    os_release_name(match content {
                        Some(x) => Some(x@),
                        None => None,
                    }) == os_release_name(Some(c@)),
            {
                assert(views.skip(i as int)[0] == lines@[i as int]@);
                assert(views.skip(i as int).drop_first() == views.skip(i + 1));
                if starts_with_str(&lines[i], "PRETTY_NAME=") {
                    let v = nth_piece_chars(&lines[i], '=', 1);
                    let a = strip_prefixes_chars(&v, &quote);
                    let b = strip_suffixes_chars(&a, &quote);
                    if b.len() > 0 {
                        assert(b@ == pretty_name_value(lines@[i as int]@));
                        assert(pretty_name(views.skip(i as int)) == Some(b@));
                        return string_from_chars(&b);
                    }
                }
            }
            assert(views.skip(lines.len() as int) == Seq::<Seq<char>>::empty());
            String::from_str("Linux")
        },
    }
}

// ---------------------------------------------------------------------------
// Dark mode
// ---------------------------------------------------------------------------

/// Dark mode from the GNOME `color-scheme` and `gtk-theme` settings (each
/// absent when `gsettings` could not be run): dark when the color scheme
/// prefers dark or the theme name holds "dark", and dark as well otherwise.
pub fn dark_mode_from_gsettings(color_scheme: Option<&str>, gtk_theme: Option<&str>) -> (b: bool)
    ensures
        b,
{
    match color_scheme {
        Some(s) => {
            let t = trim_chars(&str_chars(s));
            if contains_str(&t, "prefer-dark") {
                return true;
            }
        },
        None => {},
    }
    match gtk_theme {
        Some(s) => {
            let lower = str_chars(to_lowercase(s).as_str());
            if contains_str(&lower, "dark") {
                return true;
            }
        },
        None => {},
    }
    true
}

// ---------------------------------------------------------------------------
// Power
// ---------------------------------------------------------------------------

/// What was read of one entry of `/sys/class/power_supply`: its `type`,
/// `online` and `capacity` files, each absent when it could not be read.
pub struct PowerSupplyReading {
    pub kind: Option<String>,
    pub online: Option<String>,
    pub capacity: Option<String>,
}

/// The plain values of a power supply reading.
pub open spec fn reading_view(r: PowerSupplyReading) -> (Option<Seq<char>>, Option<Seq<char>>, Option<Seq<char>>) {
    (opt_view(r.kind), opt_view(r.online), opt_view(r.capacity))
}

/// The view of an optional string.
pub open spec fn opt_view(v: Option<String>) -> Option<Seq<char>> {
    match v {
        Some(s) => Some(s@),
        None => None,
    }
}

/// The power scan so far: whether on AC, whether a mains supply was seen, and
/// the last battery level read.
pub open spec fn power_step(
    st: (bool, bool, Option<u8>),
    r: (Option<Seq<char>>, Option<Seq<char>>, Option<Seq<char>>),
) -> (bool, bool, Option<u8>) {
    let (ac, has_ac, pct) = st;
    match r.0 {
        Some(k) => {
            let ty = trim(k);
            if ty == "Mains"@ {
                match r.1 {
                    Some(o) => {
                        let on = trim(o) == "1"@;
                        if !has_ac {
                            (on, true, pct)
                        } else {
                            (ac || on, true, pct)
                        }
                    },
                    None => st,
                }
            } else if ty == "Battery"@ {
                match r.2 {
                    Some(c) => match parse_unsigned(trim(c), 255) {
                        Some(v) => (ac, has_ac, Some(v as u8)),
                        None => st,
                    },
                    None => st,
                }
            } else {
                st
            }
        },
        None => st,
    }
}

/// The power scan after the given readings.
pub open spec fn power_scan(rs: Seq<(Option<Seq<char>>, Option<Seq<char>>, Option<Seq<char>>)>) -> (bool, bool, Option<u8>)
    decreases rs.len(),
{
    if rs.len() == 0 {
        (true, false, None)
    } else {
        power_step(power_scan(rs.drop_last()), rs.last())
    }
}

/// The power status the readings give: none without a battery level; else the
/// last battery level read, on AC when no mains supply was read or when one
/// of them is online.
pub open spec fn power_from_readings(rs: Seq<(Option<Seq<char>>, Option<Seq<char>>, Option<Seq<char>>)>) -> Option<PowerStatus> {
    let (ac, has_ac, pct) = power_scan(rs);
    match pct {
        Some(p) => Some(PowerStatus { ac_online: if has_ac { ac } else { true }, battery_percent: p }),
        None => None,
    }
}

fn opt_chars(v: &Option<String>) -> (r: Option<Vec<char>>)
    ensures
        match r {
            Some(c) => opt_view(*v) == Some(c@),
            None => opt_view(*v) is None,
        },
{
    match v {
        Some(s) => Some(str_chars(s.as_str())),
        None => None,
    }
}

/// The power status from the entries of `/sys/class/power_supply`.
pub fn power_from_supplies(readings: &Vec<PowerSupplyReading>) -> (p: Option<PowerStatus>)
    ensures
        p == power_from_readings(readings@.map_values(|r: PowerSupplyReading| reading_view(r))),
{
    let ghost views = readings@.map_values(|r: PowerSupplyReading| reading_view(r));
    let mut ac = true;
    let mut has_ac = false;
    let mut pct: Option<u8> = None;
    for i in 0..readings.len()
        invariant
            views == readings@.map_values(|r: PowerSupplyReading| reading_view(r)),
            (ac, has_ac, pct) == power_scan(views.take(i as int)),
    {
        assert(views.take(i + 1).drop_last() == views.take(i as int));
        assert(views.take(i + 1).last() == reading_view(readings@[i as int]));
        let r = &readings[i];
        match opt_chars(&r.kind) {
            Some(k) => {
                let ty = trim_chars(&k);
                let mains = str_chars("Mains");
                let battery = str_chars("Battery");
                if chars_eq(&ty, &mains) {
                    match opt_chars(&r.online) {
                        Some(o) => {
                            let one = str_chars("1");
                            let on = chars_eq(&trim_chars(&o), &one);
                            if !has_ac {
                                ac = on;
                                has_ac = true;
                            } else {
                                ac = ac || on;
                            }
                        },
                        None => {},
                    }
                } else if chars_eq(&ty, &battery) {
                    match opt_chars(&r.capacity) {
                        Some(c) => match parse_unsigned_chars(&trim_chars(&c), 255) {
                            Some(v) => {
                                pct = Some(v as u8);
                            },
                            None => {},
                        },
                        None => {},
                    }
                }
            },
            None => {},
        }
    }
    assert(views.take(readings.len() as int) == views);
    match pct {
        Some(p) => Some(PowerStatus { ac_online: if has_ac { ac } else { true }, battery_percent: p }),
        None => None,
    }
}

// ---------------------------------------------------------------------------
// Board identification
// ---------------------------------------------------------------------------

/// A DMI value: the file's text trimmed, or the default when it could not be read.
pub open spec fn dmi_value(v: Option<Seq<char>>, default: Seq<char>) -> Seq<char> {
    match v {
        Some(s) => trim(s),
        None => trim(default),
    }
}

fn dmi_string(v: &Option<String>, default: &str) -> (r: String)
    ensures
        r@ == dmi_value(opt_view(*v), default@),
{
    let cs = match v {
        Some(s) => str_chars(s.as_str()),
        None => str_chars(default),
    };
    string_from_chars(&trim_chars(&cs))
}

/// The board identification from the DMI files `sys_vendor`, `product_name`
/// and `product_version`, each trimmed, with "Linux", "Generic" and "Kernel"
/// for those that could not be read.
pub fn bios_from_dmi(vendor: &Option<String>, product: &Option<String>, version: &Option<String>) -> (r: Option<SystemBiosInfo>)
    ensures
        r matches Some(b) && b.manufacturer@ == dmi_value(opt_view(*vendor), "Linux"@) && b.product@
            == dmi_value(opt_view(*product), "Generic"@) && b.model@ == dmi_value(opt_view(*version), "Kernel"@),
{
    Some(SystemBiosInfo {
        manufacturer: dmi_string(vendor, "Linux"),
        product: dmi_string(product, "Generic"),
        model: dmi_string(version, "Kernel"),
    })
}


// ---------------------------------------------------------------------------
// Shell and terminal
// ---------------------------------------------------------------------------

/// The last of `parts` that is neither empty nor ".", if any.
pub open spec fn last_path_part(parts: Seq<Seq<char>>) -> Option<Seq<char>>
    decreases parts.len(),
{
    if parts.len() == 0 {
        None
    } else if parts.last().len() == 0 || parts.last() == "."@ {
        last_path_part(parts.drop_last())
    } else {
        Some(parts.last())
    }
}

/// The file name of a Unix path, as `Path::file_name` gives it on Unix: the
/// last '/'-separated component, with empty and "." components ignored; none
/// when that component is "..", or when there is no such component (an empty
/// path, "/", ".").
pub open spec fn unix_file_name(path: Seq<char>) -> Option<Seq<char>> {
    match last_path_part(pieces(path, '/')) {
        Some(p) => if p == ".."@ { None } else { Some(p) },
        None => None,
    }
}

/// The file name of a Unix path.
fn unix_file_name_of(path: &str) -> (r: Option<String>)
    ensures
        opt_view(r) == unix_file_name(path@),
{
    let parts = split_char(&str_chars(path), '/');
    let ghost ps = parts@.map_values(|l: Vec<char>| l@);
    let dot = str_chars(".");
    let dotdot = str_chars("..");
    let mut i: usize = parts.len();
    assert(ps.take(i as int) == ps);
    while i > 0
        invariant
            i <= parts.len(),
            ps == parts@.map_values(|l: Vec<char>| l@),
            ps == pieces(path@, '/'),
            last_path_part(ps) == last_path_part(ps.take(i as int)),
            dot@ == "."@,
            dotdot@ == ".."@,
        decreases i,
    {
        let p = &parts[i - 1];
        proof {
            assert(ps.take(i as int).last() == p@);
            assert(ps.take(i as int).drop_last() == ps.take(i - 1));
        }
        if p.len() > 0 && !chars_eq(p, &dot) {
            if chars_eq(p, &dotdot) {
                return None;
            }
            return Some(string_from_chars(p));
        }
        i = i - 1;
    }
    None
}

/// The shell: the file name of `$SHELL`, or "sh".
pub open spec fn linux_shell(shell_path: Option<Seq<char>>) -> Seq<char> {
    match shell_path {
        Some(p) => match unix_file_name(p) {
            Some(f) => f,
            None => "sh"@,
        },
        None => "sh"@,
    }
}

/// The terminal: `$TERM_PROGRAM` when set and not empty, else `$TERM`, else
/// "xterm"; known terminals are given their usual names.
pub open spec fn linux_terminal(term_program: Option<Seq<char>>, term: Option<Seq<char>>) -> Seq<char> {
    let tp = match term_program {
        Some(t) => t,
        None => Seq::empty(),
    };
    let raw = if tp.len() > 0 {
        tp
    } else {
        match term {
            Some(t) => t,
            None => "xterm"@,
        }
    };
    let lower = lowercase(raw);
    if contains(lower, "kitty"@) {
        "Kitty"@
    } else if contains(lower, "alacritty"@) {
        "Alacritty"@
    } else if contains(lower, "wezterm"@) {
        "WezTerm"@
    } else if contains(lower, "gnome-terminal"@) {
        "GNOME Terminal"@
    } else if contains(lower, "xterm"@) {
        "xterm"@
    } else {
        raw
    }
}

/// The shell and terminal from the `SHELL`, `TERM_PROGRAM` and `TERM`
/// environment variables (each absent when unset).
pub fn shell_and_terminal_from_env(
    shell_path: Option<&str>,
    term_program: Option<&str>,
    term: Option<&str>,
) -> (r: (String, String))
    ensures
        r.0@ == linux_shell(match shell_path {
            Some(p) => Some(p@),
            None => None,
        }),
        r.1@ == linux_terminal(
            match term_program {
                Some(t) => Some(t@),
                None => None,
            },
            match term {
                Some(t) => Some(t@),
                None => None,
            },
        ),
{
    let shell = match shell_path {
        Some(p) => match unix_file_name_of(p) {
            Some(f) => f,
            None => String::from_str("sh"),
        },
        None => String::from_str("sh"),
    };
    let tp = match term_program {
        Some(t) => str_chars(t),
        None => Vec::new(),
    };
    let raw = if tp.len() > 0 {
        tp
    } else {
        match term {
            Some(t) => str_chars(t),
            None => str_chars("xterm"),
        }
    };
    let raw_s = string_from_chars(&raw);
    let lower = str_chars(to_lowercase(raw_s.as_str()).as_str());
    let terminal = if contains_str(&lower, "kitty") {
        String::from_str("Kitty")
    } else if contains_str(&lower, "alacritty") {
        String::from_str("Alacritty")
    } else if contains_str(&lower, "wezterm") {
        String::from_str("WezTerm")
    } else if contains_str(&lower, "gnome-terminal") {
        String::from_str("GNOME Terminal")
    } else if contains_str(&lower, "xterm") {
        String::from_str("xterm")
    } else {
        raw_s
    };
    (shell, terminal)
}

// ---------------------------------------------------------------------------
// Drives
// ---------------------------------------------------------------------------

/// The drive a line of `df -k` describes: at least six columns, a device
/// under `/dev/` or the mount point `/`, and readable size and available
/// columns (in KiB); the sizes in bytes, wrapping as `u64` arithmetic does.
pub open spec fn df_entry(line: Seq<char>) -> Option<(Seq<char>, u64, u64)> {
    let ws = words(line);
    if ws.len() >= 6 && (starts_with(ws[0], "/dev/"@) || ws[5] == "/"@) {
        match (parse_unsigned(ws[1], u64::MAX as nat), parse_unsigned(ws[3], u64::MAX as nat)) {
            (Some(total), Some(avail)) => Some(
                (
                    ws[5],
                    ((total * 1024) % 0x1_0000_0000_0000_0000) as u64,
                    ((avail * 1024) % 0x1_0000_0000_0000_0000) as u64,
                ),
            ),
            _ => None,
        }
    } else {
        None
    }
}

/// The drives the lines describe, in order.
pub open spec fn df_entries(lines: Seq<Seq<char>>) -> Seq<(Seq<char>, u64, u64)>
    decreases lines.len(),
{
    if lines.len() == 0 {
        Seq::empty()
    } else {
        let prev = df_entries(lines.drop_last());
        match df_entry(lines.last()) {
            Some(d) => prev.push(d),
            None => prev,
        }
    }
}

/// The drives that the output of `df -k` describes (absent when it could not
/// be run), below its header line; the root drive of 100 GiB with 50 GiB free
/// when it describes none.
pub open spec fn df_drives(output: Option<Seq<char>>) -> Seq<(Seq<char>, u64, u64)> {
    let found = match output {
        Some(o) => {
            let ls = text_lines(o);
            if ls.len() > 0 {
                df_entries(ls.drop_first())
            } else {
                Seq::empty()
            }
        },
        None => Seq::empty(),
    };
    if found.len() == 0 {
        seq![("/"@, 107374182400u64, 53687091200u64)]
    } else {
        found
    }
}

proof fn lemma_df_entries_keep(lines: Seq<Seq<char>>, k: int)
    requires
        0 <= k < lines.len(),
        df_entry(lines[k]) is Some,
    ensures
        df_entries(lines).contains(df_entry(lines[k])->Some_0),
    decreases lines.len(),
{
    if k < lines.len() - 1 {
        assert(lines.drop_last()[k] == lines[k]);
        lemma_df_entries_keep(lines.drop_last(), k);
        let prev = df_entries(lines.drop_last());
        let x = df_entry(lines[k])->Some_0;
        let j = choose|j: int| 0 <= j < prev.len() && prev[j] == x;
        match df_entry(lines.last()) {
            Some(d) => assert(prev.push(d)[j] == x),
            None => {},
        }
    } else {
        let prev = df_entries(lines.drop_last());
        assert(prev.push(df_entry(lines[k])->Some_0).last() == df_entry(lines[k])->Some_0);
    }
}

/// Every `df -k` line below the header with at least six columns, a first
/// column under "/dev/" (whatever device follows) and numbers in its size and
/// available columns is reported as a drive mounted at its sixth column, with
/// those sizes in bytes.
pub proof fn lemma_df_device_lines_reported(output: Seq<char>, i: int)
    requires
        1 <= i < text_lines(output).len(),
        words(text_lines(output)[i]).len() >= 6,
        starts_with(words(text_lines(output)[i])[0], "/dev/"@),
        parse_unsigned(words(text_lines(output)[i])[1], u64::MAX as nat) is Some,
        parse_unsigned(words(text_lines(output)[i])[3], u64::MAX as nat) is Some,
    ensures
        ({
            let ws = words(text_lines(output)[i]);
            let total = parse_unsigned(ws[1], u64::MAX as nat)->Some_0;
            let avail = parse_unsigned(ws[3], u64::MAX as nat)->Some_0;
            df_drives(Some(output)).contains(
                (
                    ws[5],
                    ((total * 1024) % 0x1_0000_0000_0000_0000) as u64,
                    ((avail * 1024) % 0x1_0000_0000_0000_0000) as u64,
                ),
            )
        }),
{
    let ls = text_lines(output);
    let body = ls.drop_first();
    assert(body[i - 1] == ls[i]);
    lemma_df_entries_keep(body, i - 1);
}

/// The plain values of a drive record.
pub open spec fn drive_view(d: DiskDriveInfo) -> (Seq<char>, u64, u64) {
    (d.path@, d.total_bytes, d.free_bytes)
}

/// The drive of one `df -k` line.
fn df_line(line: &Vec<char>) -> (r: Option<DiskDriveInfo>)
    ensures
        match r {
            Some(d) => df_entry(line@) == Some(drive_view(d)),
            None => df_entry(line@) is None,
        },
{
    let ws = split_words(line);
    let ghost wv = ws@.map_values(|l: Vec<char>| l@);
    if ws.len() < 6 {
        return None;
    }
    assert(wv[0] == ws@[0]@ && wv[1] == ws@[1]@ && wv[3] == ws@[3]@ && wv[5] == ws@[5]@);
    let root = str_chars("/");
    if !(starts_with_str(&ws[0], "/dev/") || chars_eq(&ws[5], &root)) {
        return None;
    }
    match (parse_unsigned_chars(&ws[1], u64::MAX), parse_unsigned_chars(&ws[3], u64::MAX)) {
        (Some(total), Some(avail)) => {
            let d = DiskDriveInfo {
                path: string_from_chars(&ws[5]),
                total_bytes: total.wrapping_mul(1024),
                free_bytes: avail.wrapping_mul(1024),
            };
            Some(d)
        },
        _ => None,
    }
}

/// The drives from the output of `df -k` (absent when it could not be run).
pub fn drives_from_df(output: Option<&str>) -> (r: Vec<DiskDriveInfo>)
    ensures
        r@.map_values(|d: DiskDriveInfo| drive_view(d)) == df_drives(match output {
            Some(o) => Some(o@),
            None => None,
        }),
{
    let mut drives: Vec<DiskDriveInfo> = Vec::new();
    let ghost mut found: Seq<(Seq<char>, u64, u64)> = Seq::empty();
    match output {
        Some(o) => {
            let cs = str_chars(o);
            let lines = split_lines(&cs);
            let ghost views = lines@.map_values(|l: Vec<char>| l@);
            if lines.len() > 0 {
                let ghost body = views.drop_first();
                for i in 1..lines.len()
                    invariant
                        views == lines@.map_values(|l: Vec<char>| l@),
                        lines.len() > 0,
                        body == views.drop_first(),
                        drives@.map_values(|d: DiskDriveInfo| drive_view(d)) == df_entries(body.take(i - 1)),
                {
                    assert(body.take(i as int).drop_last() == body.take(i - 1));
                    assert(body.take(i as int).last() == lines@[i as int]@);
                    let ghost before = drives@;
                    match df_line(&lines[i]) {
                        Some(d) => {
                            drives.push(d);
                            assert(drives@.map_values(|d: DiskDriveInfo| drive_view(d)) == before.map_values(
                                |d: DiskDriveInfo| drive_view(d),
                            ).push(drive_view(drives@.last())));
                        },
                        None => {},
                    }
                }
                assert(body.take(lines.len() - 1) == body);
            }
        },
        None => {},
    }
    if drives.len() == 0 {
        drives.push(DiskDriveInfo {
            path: String::from_str("/"),
            free_bytes: 50 * 1024 * 1024 * 1024,
            total_bytes: 100 * 1024 * 1024 * 1024,
        });
        assert(drives@.map_values(|d: DiskDriveInfo| drive_view(d)) =~= seq![("/"@, 107374182400u64, 53687091200u64)]);
    }
    drives
}

// ---------------------------------------------------------------------------
// Graphics adapters
// ---------------------------------------------------------------------------

/// The graphics adapter a line of `lspci` names: for a VGA or 3D controller,
/// the trimmed text after the line's first `:`; when that has no `[`, the
/// trimmed text after its first "controller:" (up to a second one), if any.
pub open spec fn lspci_gpu(line: Seq<char>) -> Option<Seq<char>> {
    if contains(line, "VGA compatible controller"@) || contains(line, "3D controller"@) {
        let i = find_char(line, ':');
        if i >= 0 {
            let desc = trim(line.skip(i + 1));
            if find_char(desc, '[') >= 0 {
                Some(desc)
            } else {
                match second_piece(desc, "controller:"@) {
                    Some(p) => Some(trim(p)),
                    None => Some(desc),
                }
            }
        } else {
            None
        }
    } else {
        None
    }
}

/// The adapters the `lspci` lines name, in order.
pub open spec fn lspci_gpus(lines: Seq<Seq<char>>) -> Seq<Seq<char>>
    decreases lines.len(),
{
    if lines.len() == 0 {
        Seq::empty()
    } else {
        let prev = lspci_gpus(lines.drop_last());
        match lspci_gpu(lines.last()) {
            Some(g) => prev.push(g),
            None => prev,
        }
    }
}

/// The kernel drivers named by `DRIVER=` lines, each once, after those in `acc`.
pub open spec fn uevent_drivers(acc: Seq<Seq<char>>, lines: Seq<Seq<char>>) -> Seq<Seq<char>>
    decreases lines.len(),
{
    if lines.len() == 0 {
        acc
    } else {
        let prev = uevent_drivers(acc, lines.drop_last());
        let l = lines.last();
        let d = nth_piece(l, '=', 1);
        if starts_with(l, "DRIVER="@) && d.len() > 0 && !prev.contains(d) {
            prev.push(d)
        } else {
            prev
        }
    }
}

/// The drivers of the DRM devices' `uevent` files, in order, each once.
pub open spec fn drm_drivers(files: Seq<Seq<char>>) -> Seq<Seq<char>>
    decreases files.len(),
{
    if files.len() == 0 {
        Seq::empty()
    } else {
        uevent_drivers(drm_drivers(files.drop_last()), text_lines(files.last()))
    }
}

/// No item occurs twice.
pub open spec fn no_duplicates(s: Seq<Seq<char>>) -> bool {
    forall|i: int, j: int| 0 <= i < j < s.len() ==> s[i] != s[j]
}

proof fn lemma_uevent_drivers_distinct(acc: Seq<Seq<char>>, lines: Seq<Seq<char>>)
    requires
        no_duplicates(acc),
    ensures
        no_duplicates(uevent_drivers(acc, lines)),
    decreases lines.len(),
{
    if lines.len() > 0 {
        lemma_uevent_drivers_distinct(acc, lines.drop_last());
    }
}

/// The DRM drivers are listed once each, however many devices use them.
pub proof fn lemma_drm_drivers_distinct(files: Seq<Seq<char>>)
    ensures
        no_duplicates(drm_drivers(files)),
    decreases files.len(),
{
    if files.len() > 0 {
        lemma_drm_drivers_distinct(files.drop_last());
        lemma_uevent_drivers_distinct(drm_drivers(files.drop_last()), text_lines(files.last()));
    }
}

/// The graphics adapters: those that the output of `lspci` names (absent when
/// it could not be run); when it names none, the drivers of the DRM devices.
pub open spec fn linux_gpu_names(lspci: Option<Seq<char>>, uevents: Seq<Seq<char>>) -> Seq<Seq<char>> {
    let found = match lspci {
        Some(o) => lspci_gpus(text_lines(o)),
        None => Seq::empty(),
    };
    if found.len() == 0 {
        drm_drivers(uevents)
    } else {
        found
    }
}

/// The adapter one `lspci` line names.
fn lspci_line(line: &Vec<char>) -> (r: Option<Vec<char>>)
    ensures
        match r {
            Some(g) => lspci_gpu(line@) == Some(g@),
            None => lspci_gpu(line@) is None,
        },
{
    if !(contains_str(line, "VGA compatible controller") || contains_str(line, "3D controller")) {
        return None;
    }
    match find_char_index(line, ':') {
        None => None,
        Some(i) => {
            assert(i < line.len());
            let after = slice_chars(line, i + 1, line.len());
            assert(after@ == line@.skip(i + 1));
            let desc = trim_chars(&after);
            match find_char_index(&desc, '[') {
                Some(_) => Some(desc),
                None => {
                    let pat = str_chars("controller:");
                    proof {
                        reveal_strlit("controller:");
                    }
                    match second_piece_chars(&desc, &pat) {
                        Some(p) => Some(trim_chars(&p)),
                        None => Some(desc),
                    }
                },
            }
        },
    }
}

/// Whether `v` holds a string equal to `x`.
fn holds_string(v: &Vec<String>, x: &Vec<char>) -> (b: bool)
    ensures
        b == v@.map_values(|s: String| s@).contains(x@),
{
    let ghost vs = v@.map_values(|s: String| s@);
    for i in 0..v.len()
        invariant
            vs == v@.map_values(|s: String| s@),
            forall|k: int| 0 <= k < i ==> vs[k] != x@,
    {
        let c = str_chars(v[i].as_str());
        if chars_eq(&c, x) {
            assert(vs[i as int] == x@);
            return true;
        }
    }
    false
}

/// Adds the drivers of one `uevent` file.
fn add_uevent_drivers(out: &mut Vec<String>, content: &str)
    ensures
        final(out)@.map_values(|s: String| s@) == uevent_drivers(
            old(out)@.map_values(|s: String| s@),
            text_lines(content@),
        ),
{
    let cs = str_chars(content);
    let lines = split_lines(&cs);
    let ghost views = lines@.map_values(|l: Vec<char>| l@);
    let ghost acc = out@.map_values(|s: String| s@);
    for i in 0..lines.len()
        invariant
            views == lines@.map_values(|l: Vec<char>| l@),
            out@.map_values(|s: String| s@) == uevent_drivers(acc, views.take(i as int)),
    {
        assert(views.take(i + 1).drop_last() == views.take(i as int));
        assert(views.take(i + 1).last() == lines@[i as int]@);
        if starts_with_str(&lines[i], "DRIVER=") {
            let d = nth_piece_chars(&lines[i], '=', 1);
            if d.len() > 0 && !holds_string(out, &d) {
                let ghost before = out@;
                out.push(string_from_chars(&d));
                assert(out@.map_values(|s: String| s@) == before.map_values(|s: String| s@).push(d@));
            }
        }
    }
    assert(views.take(lines.len() as int) == views);
}

/// The graphics adapter names from the output of `lspci` (absent when it could
/// not be run) and the `uevent` files of the DRM devices.
pub fn gpu_names_from(lspci: Option<&str>, uevents: &Vec<String>) -> (r: Vec<String>)
    ensures
        r@.map_values(|s: String| s@) == linux_gpu_names(
            match lspci {
                Some(o) => Some(o@),
                None => None,
            },
            uevents@.map_values(|s: String| s@),
        ),
{
    let mut gpus: Vec<String> = Vec::new();
    let ghost mut found: Seq<Seq<char>> = Seq::empty();
    match lspci {
        Some(o) => {
            let cs = str_chars(o);
            let lines = split_lines(&cs);
            let ghost views = lines@.map_values(|l: Vec<char>| l@);
            for i in 0..lines.len()
                invariant
                    views == lines@.map_values(|l: Vec<char>| l@),
                    gpus@.map_values(|s: String| s@) == lspci_gpus(views.take(i as int)),
            {
                assert(views.take(i + 1).drop_last() == views.take(i as int));
                assert(views.take(i + 1).last() == lines@[i as int]@);
                match lspci_line(&lines[i]) {
                    Some(g) => {
                        let ghost before = gpus@;
                        gpus.push(string_from_chars(&g));
                        assert(gpus@.map_values(|s: String| s@) == before.map_values(|s: String| s@).push(g@));
                    },
                    None => {},
                }
            }
            assert(views.take(lines.len() as int) == views);
        },
        None => {},
    }
    if gpus.len() == 0 {
        let ghost files = uevents@.map_values(|s: String| s@);
        assert(gpus@.map_values(|s: String| s@) == Seq::<Seq<char>>::empty());
        for i in 0..uevents.len()
            invariant
                files == uevents@.map_values(|s: String| s@),
                gpus@.map_values(|s: String| s@) == drm_drivers(files.take(i as int)),
        {
            assert(files.take(i + 1).drop_last() == files.take(i as int));
            assert(files.take(i + 1).last() == uevents@[i as int]@);
            add_uevent_drivers(&mut gpus, uevents[i].as_str());
        }
        assert(files.take(uevents.len() as int) == files);
    }
    gpus
}

// ---------------------------------------------------------------------------
// Network adapters
// ---------------------------------------------------------------------------

/// The kind of a Linux interface, from its lowercased name; loopback
/// interfaces count as "Virtual", one of the five documented kinds.
pub open spec fn linux_adapter_type(lower: Seq<char>) -> Seq<char> {
    if contains(lower, "wlan"@) || contains(lower, "wifi"@) || contains(lower, "wl"@) {
        "Wi-Fi"@
    } else if contains(lower, "bt"@) || contains(lower, "bluetooth"@) {
        "Bluetooth"@
    } else if contains(lower, "eth"@) || contains(lower, "enp"@) {
        "Ethernet"@
    } else if contains(lower, "lo"@) {
        "Virtual"@
    } else {
        "Other"@
    }
}

/// Index of the first adapter named `name`, or -1.
pub open spec fn find_adapter(st: Seq<AdapterView>, name: Seq<char>) -> int
    decreases st.len(),
{
    if st.len() == 0 {
        -1
    } else {
        let r = find_adapter(st.drop_last(), name);
        if r >= 0 {
            r
        } else if st.last().name == name {
            st.len() - 1
        } else {
            -1
        }
    }
}

/// Where the first adapter of a name is, or that there is none.
proof fn lemma_find_adapter(st: Seq<AdapterView>, name: Seq<char>)
    ensures
        -1 <= find_adapter(st, name) < st.len(),
        find_adapter(st, name) == -1 <==> (forall|k: int| 0 <= k < st.len() ==> st[k].name != name),
        find_adapter(st, name) >= 0 ==> st[find_adapter(st, name)].name == name,
        forall|k: int| 0 <= k < find_adapter(st, name) ==> st[k].name != name,
    decreases st.len(),
{
    if st.len() > 0 {
        lemma_find_adapter(st.drop_last(), name);
        assert forall|k: int| 0 <= k < st.len() - 1 implies st.drop_last()[k] == st[k] by {}
        if find_adapter(st.drop_last(), name) < 0 && st.last().name != name {
            assert forall|k: int| 0 <= k < st.len() implies st[k].name != name by {
                if k < st.len() - 1 {
                    assert(st.drop_last()[k] == st[k]);
                }
            }
        }
    }
}

/// One line of `ip -o addr show` read into the adapters: a line of at least
/// four columns gives the interface (second column) an address (the fourth
/// column up to its `/`), once; an interface seen for the first time is added.
pub open spec fn ip_addr_step(st: Seq<AdapterView>, line: Seq<char>) -> Seq<AdapterView> {
    let ws = words(line);
    if ws.len() >= 4 {
        let iface = ws[1];
        let ip = nth_piece(ws[3], '/', 0);
        if ip.len() == 0 {
            st
        } else {
            let k = find_adapter(st, iface);
            if k >= 0 {
                if st[k].ip_addresses.contains(ip) {
                    st
                } else {
                    st.update(k, AdapterView { ip_addresses: st[k].ip_addresses.push(ip), ..st[k] })
                }
            } else {
                st.push(
                    AdapterView {
                        name: iface,
                        description: "Linux interface"@,
                        ip_addresses: seq![ip],
                        adapter_type: linux_adapter_type(lowercase(iface)),
                        is_up: true,
                    },
                )
            }
        }
    } else {
        st
    }
}

/// The adapters after the given lines.
pub open spec fn ip_addr_scan(lines: Seq<Seq<char>>) -> Seq<AdapterView>
    decreases lines.len(),
{
    if lines.len() == 0 {
        Seq::empty()
    } else {
        ip_addr_step(ip_addr_scan(lines.drop_last()), lines.last())
    }
}

/// No two adapters share a name, and no adapter lists an address twice.
pub open spec fn well_merged(st: Seq<AdapterView>) -> bool {
    &&& forall|i: int, j: int| 0 <= i < j < st.len() ==> st[i].name != st[j].name
    &&& forall|k: int, i: int, j: int|
        0 <= k < st.len() && 0 <= i < j < st[k].ip_addresses.len() ==> st[k].ip_addresses[i]
            != st[k].ip_addresses[j]
}

/// Every adapter has at least one address and one of the documented kinds.
pub open spec fn well_typed(st: Seq<AdapterView>) -> bool {
    forall|k: int|
        0 <= k < st.len() ==> #[trigger] st[k].ip_addresses.len() > 0 && documented_adapter_type(st[k].adapter_type)
}

/// Reading a line keeps the adapters merged and typed.
proof fn lemma_ip_addr_step_merged(st: Seq<AdapterView>, line: Seq<char>)
    requires
        well_merged(st),
        well_typed(st),
    ensures
        well_merged(ip_addr_step(st, line)),
        well_typed(ip_addr_step(st, line)),
{
    reveal_strlit("Wi-Fi");
    reveal_strlit("Ethernet");
    reveal_strlit("Bluetooth");
    reveal_strlit("Virtual");
    reveal_strlit("Other");
    let ws = words(line);
    if ws.len() >= 4 {
        let iface = ws[1];
        let ip = nth_piece(ws[3], '/', 0);
        if ip.len() > 0 {
            lemma_find_adapter(st, iface);
            let k = find_adapter(st, iface);
            if k >= 0 && !st[k].ip_addresses.contains(ip) {
                let r = ip_addr_step(st, line);
                let ips = st[k].ip_addresses.push(ip);
                assert forall|m: int, i: int, j: int|
                    0 <= m < r.len() && 0 <= i < j < r[m].ip_addresses.len() implies r[m].ip_addresses[i]
                        != r[m].ip_addresses[j] by {
                    if m == k {
                        if j == ips.len() - 1 {
                            assert(st[k].ip_addresses[i] != ip);
                        }
                    }
                }
            }
        }
    }
}

/// The adapters after any lines are merged and typed.
proof fn lemma_ip_addr_scan_merged(lines: Seq<Seq<char>>)
    ensures
        well_merged(ip_addr_scan(lines)),
        well_typed(ip_addr_scan(lines)),
    decreases lines.len(),
{
    if lines.len() > 0 {
        lemma_ip_addr_scan_merged(lines.drop_last());
        lemma_ip_addr_step_merged(ip_addr_scan(lines.drop_last()), lines.last());
    }
}

/// Each interface of `ip -o addr show` is listed once, with each of its
/// addresses once, however often the output repeats them; at least one
/// adapter is reported, each with at least one address and one of the
/// documented kinds.
pub proof fn lemma_ip_addr_adapters_merged(output: Option<Seq<char>>)
    ensures
        well_merged(ip_addr_adapters(output)),
        well_typed(ip_addr_adapters(output)),
        ip_addr_adapters(output).len() > 0,
{
    reveal_strlit("Virtual");
    match output {
        Some(o) => lemma_ip_addr_scan_merged(text_lines(o)),
        None => {},
    }
    reveal_strlit("127.0.0.1");
}

/// The loopback adapter reported when no interface is found.
pub open spec fn loopback_adapter() -> AdapterView {
    AdapterView {
        name: "lo"@,
        description: "Loopback"@,
        ip_addresses: seq!["127.0.0.1"@],
        adapter_type: "Virtual"@,
        is_up: true,
    }
}

/// The adapters that the output of `ip -o addr show` (absent when it could not
/// be run) describes, in order of first appearance; the loopback adapter when
/// it describes none.
pub open spec fn ip_addr_adapters(output: Option<Seq<char>>) -> Seq<AdapterView> {
    let found = match output {
        Some(o) => ip_addr_scan(text_lines(o)),
        None => Seq::empty(),
    };
    if found.len() == 0 {
        seq![loopback_adapter()]
    } else {
        found
    }
}

fn copy_strings(v: &Vec<String>) -> (r: Vec<String>)
    ensures
        r@.map_values(|s: String| s@) == v@.map_values(|s: String| s@),
{
    let mut r: Vec<String> = Vec::new();
    for i in 0..v.len()
        invariant
            r@.map_values(|s: String| s@) == v@.take(i as int).map_values(|s: String| s@),
    {
        let ghost before = r@;
        r.push(v[i].as_str().to_string());
        assert(r@.map_values(|s: String| s@) == before.map_values(|s: String| s@).push(v@[i as int]@));
        assert(v@.take(i + 1).map_values(|s: String| s@) == v@.take(i as int).map_values(|s: String| s@).push(
            v@[i as int]@,
        ));
    }
    assert(v@.take(v.len() as int) == v@);
    r
}

/// Index of the first adapter named `name`.
fn find_adapter_index(adapters: &Vec<NetworkAdapterInfo>, name: &Vec<char>) -> (r: Option<usize>)
    ensures
        match r {
            Some(k) => k < adapters.len() && find_adapter(adapter_views(adapters@), name@) == k as int,
            None => find_adapter(adapter_views(adapters@), name@) == -1,
        },
{
    let ghost st = adapter_views(adapters@);
    proof {
        lemma_find_adapter(st, name@);
    }
    for i in 0..adapters.len()
        invariant
            st == adapter_views(adapters@),
            forall|k: int| 0 <= k < i ==> st[k].name != name@,
            -1 <= find_adapter(st, name@) < st.len(),
            find_adapter(st, name@) == -1 <==> (forall|k: int| 0 <= k < st.len() ==> st[k].name != name@),
            find_adapter(st, name@) >= 0 ==> st[find_adapter(st, name@)].name == name@,
            forall|k: int| 0 <= k < find_adapter(st, name@) ==> st[k].name != name@,
    {
        let n = str_chars(adapters[i].name.as_str());
        if chars_eq(&n, name) {
            assert(st[i as int].name == name@);
            return Some(i);
        }
    }
    None
}

/// Reads one line of `ip -o addr show` into the adapters.
fn ip_addr_line(adapters: &mut Vec<NetworkAdapterInfo>, line: &Vec<char>)
    ensures
        adapter_views(final(adapters)@) == ip_addr_step(adapter_views(old(adapters)@), line@),
{
    let ws = split_words(line);
    let ghost wv = ws@.map_values(|l: Vec<char>| l@);
    if ws.len() < 4 {
        return;
    }
    assert(wv[1] == ws@[1]@ && wv[3] == ws@[3]@);
    let iface = &ws[1];
    let ip = nth_piece_chars(&ws[3], '/', 0);
    if ip.len() == 0 {
        return;
    }
    let ghost st = adapter_views(adapters@);
    match find_adapter_index(adapters, iface) {
        Some(k) => {
            let ips = &adapters[k].ip_addresses;
            if holds_string(ips, &ip) {
                return;
            }
            let mut new_ips = copy_strings(ips);
            let ghost old_ips = new_ips@;
            new_ips.push(string_from_chars(&ip));
            assert(new_ips@.map_values(|s: String| s@) == old_ips.map_values(|s: String| s@).push(ip@));
            let a = NetworkAdapterInfo {
                name: adapters[k].name.as_str().to_string(),
                description: adapters[k].description.as_str().to_string(),
                ip_addresses: new_ips,
                adapter_type: adapters[k].adapter_type.as_str().to_string(),
                is_up: adapters[k].is_up,
            };
            adapters.set(k, a);
            assert(adapter_views(adapters@) =~= st.update(
                k as int,
                AdapterView { ip_addresses: st[k as int].ip_addresses.push(ip@), ..st[k as int] },
            ));
        },
        None => {
            let name_s = string_from_chars(iface);
            let lower = str_chars(to_lowercase(name_s.as_str()).as_str());
            let kind = if contains_str(&lower, "wlan") || contains_str(&lower, "wifi") || contains_str(&lower, "wl") {
                String::from_str("Wi-Fi")
            } else if contains_str(&lower, "bt") || contains_str(&lower, "bluetooth") {
                String::from_str("Bluetooth")
            } else if contains_str(&lower, "eth") || contains_str(&lower, "enp") {
                String::from_str("Ethernet")
            } else if contains_str(&lower, "lo") {
                String::from_str("Virtual")
            } else {
                String::from_str("Other")
            };
            let mut ips: Vec<String> = Vec::new();
            ips.push(string_from_chars(&ip));
            let a = NetworkAdapterInfo {
                name: name_s,
                description: String::from_str("Linux interface"),
                ip_addresses: ips,
                adapter_type: kind,
                is_up: true,
            };
            adapters.push(a);
            assert(a@.ip_addresses =~= seq![ip@]);
            assert(adapter_views(adapters@) =~= st.push(a@));
        },
    }
}

/// The network adapters from the output of `ip -o addr show` (absent when it
/// could not be run).
pub fn adapters_from_ip_addr(output: Option<&str>) -> (r: Vec<NetworkAdapterInfo>)
    ensures
        adapter_views(r@) == ip_addr_adapters(match output {
            Some(o) => Some(o@),
            None => None,
        }),
{
    let mut adapters: Vec<NetworkAdapterInfo> = Vec::new();
    assert(adapter_views(adapters@) == Seq::<AdapterView>::empty());
    match output {
        Some(o) => {
            let cs = str_chars(o);
            let lines = split_lines(&cs);
            let ghost views = lines@.map_values(|l: Vec<char>| l@);
            for i in 0..lines.len()
                invariant
                    views == lines@.map_values(|l: Vec<char>| l@),
                    adapter_views(adapters@) == ip_addr_scan(views.take(i as int)),
            {
                assert(views.take(i + 1).drop_last() == views.take(i as int));
                assert(views.take(i + 1).last() == lines@[i as int]@);
                ip_addr_line(&mut adapters, &lines[i]);
            }
            assert(views.take(lines.len() as int) == views);
        },
        None => {},
    }
    if adapters.len() == 0 {
        let mut ips: Vec<String> = Vec::new();
        ips.push(String::from_str("127.0.0.1"));
        adapters.push(NetworkAdapterInfo {
            name: String::from_str("lo"),
            description: String::from_str("Loopback"),
            ip_addresses: ips,
            adapter_type: String::from_str("Virtual"),
            is_up: true,
        });
        assert(adapter_views(adapters@) =~= seq![loopback_adapter()]) by {
            assert(adapters@[0]@.ip_addresses =~= seq!["127.0.0.1"@]);
        }
    }
    adapters
}


// ---------------------------------------------------------------------------
// /proc/cpuinfo and /proc/meminfo
// ---------------------------------------------------------------------------

/// The CPU model among the lines of `/proc/cpuinfo`: on the first "model name"
/// line that holds a `:`, the trimmed text after it (up to a next `:`).
pub open spec fn cpuinfo_model(lines: Seq<Seq<char>>) -> Option<Seq<char>>
    decreases lines.len(),
{
    if lines.len() == 0 {
        None
    } else if starts_with(lines[0], "model name"@) && pieces(lines[0], ':').len() > 1 {
        Some(trim(pieces(lines[0], ':')[1]))
    } else {
        cpuinfo_model(lines.drop_first())
    }
}

/// The CPU model from the text of `/proc/cpuinfo`.
pub fn cpu_from_cpuinfo(content: &str) -> (r: Option<String>)
    ensures
        match r {
            Some(c) => cpuinfo_model(text_lines(content@)) == Some(c@),
            None => cpuinfo_model(text_lines(content@)) is None,
        },
{
    let cs = str_chars(content);
    let lines = split_lines(&cs);
    let ghost views = lines@.map_values(|l: Vec<char>| l@);
    assert(views.skip(0) == views);
    for i in 0..lines.len()
        invariant
            views == lines@.map_values(|l: Vec<char>| l@),
            views == text_lines(content@),
            cpuinfo_model(views) == cpuinfo_model(views.skip(i as int)),
    {
        assert(views.skip(i as int)[0] == lines@[i as int]@);
        assert(views.skip(i as int).drop_first() == views.skip(i + 1));
        if starts_with_str(&lines[i], "model name") {
            let ps = split_char(&lines[i], ':');
            if ps.len() > 1 {
                assert(ps@[1]@ == pieces(lines@[i as int]@, ':')[1]);
                return Some(string_from_chars(&trim_chars(&ps[1])));
            }
        }
    }
    assert(views.skip(lines.len() as int) == Seq::<Seq<char>>::empty());
    None
}

/// The number on a `/proc/meminfo` line: its second word read as a `u64`, or 0.
pub open spec fn meminfo_number(line: Seq<char>) -> u64 {
    let ws = words(line);
    if ws.len() > 1 {
        match parse_unsigned(ws[1], u64::MAX as nat) {
            Some(v) => v as u64,
            None => 0,
        }
    } else {
        0
    }
}

/// The `MemTotal`, `MemFree` and `MemAvailable` counts (kiB) after the given
/// lines; each line that names one sets it, so the last such line counts.
pub open spec fn meminfo_scan(lines: Seq<Seq<char>>) -> (u64, u64, u64)
    decreases lines.len(),
{
    if lines.len() == 0 {
        (0, 0, 0)
    } else {
        let (t, f, a) = meminfo_scan(lines.drop_last());
        let l = lines.last();
        if starts_with(l, "MemTotal:"@) {
            (meminfo_number(l), f, a)
        } else if starts_with(l, "MemFree:"@) {
            (t, meminfo_number(l), a)
        } else if starts_with(l, "MemAvailable:"@) {
            (t, f, meminfo_number(l))
        } else {
            (t, f, a)
        }
    }
}

fn meminfo_line_number(line: &Vec<char>) -> (n: u64)
    ensures
        n == meminfo_number(line@),
{
    let ws = split_words(line);
    if ws.len() > 1 {
        assert(ws@.map_values(|l: Vec<char>| l@)[1] == ws@[1]@);
        match parse_unsigned_chars(&ws[1], u64::MAX) {
            Some(v) => v,
            None => 0,
        }
    } else {
        0
    }
}

/// The total, free and available memory counts (kiB) in the text of
/// `/proc/meminfo`.
pub fn meminfo_counts(content: &str) -> (r: (u64, u64, u64))
    ensures
        r == meminfo_scan(text_lines(content@)),
{
    let cs = str_chars(content);
    let lines = split_lines(&cs);
    let ghost views = lines@.map_values(|l: Vec<char>| l@);
    let mut total: u64 = 0;
    let mut free: u64 = 0;
    let mut avail: u64 = 0;
    for i in 0..lines.len()
        invariant
            views == lines@.map_values(|l: Vec<char>| l@),
            (total, free, avail) == meminfo_scan(views.take(i as int)),
    {
        assert(views.take(i + 1).drop_last() == views.take(i as int));
        assert(views.take(i + 1).last() == lines@[i as int]@);
        let l = &lines[i];
        if starts_with_str(l, "MemTotal:") {
            total = meminfo_line_number(l);
        } else if starts_with_str(l, "MemFree:") {
            free = meminfo_line_number(l);
        } else if starts_with_str(l, "MemAvailable:") {
            avail = meminfo_line_number(l);
        }
    }
    assert(views.take(lines.len() as int) == views);
    (total, free, avail)
}

} // verus!
