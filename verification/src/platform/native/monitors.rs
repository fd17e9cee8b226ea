//! Monitor summaries for dashboards.
use vstd::prelude::*;
use crate::toolkit::platform::PlatformProvider;
use crate::text::{
    str_chars, string_from_chars, extend_with, extend_with_str, push_idecimal, idecimal, push_decimal,
    decimal, trim, trim_chars, text_lines, split_lines, chars_eq, strip_prefixes, strip_prefixes_chars,
};
use crate::toolkit::sys_info_linux::opt_view;

verus! {

/// The entry listed when no display could be enumerated: the primary
/// screen and its resolution.
pub open spec fn primary_entry(w: int, h: int) -> Seq<char> {
    "Primary: "@ + idecimal(w) + "x"@ + idecimal(h)
}

/// The monitors found, or the primary-screen entry when none was.
pub fn monitors_or_primary(found: Vec<String>, w: i32, h: i32) -> (v: Vec<String>)
    ensures
        found@.len() > 0 ==> v@ == found@,
        found@.len() == 0 ==> v@.len() == 1 && v@[0]@ == primary_entry(w as int, h as int),
{
    if found.len() > 0 {
        return found;
    }
    let mut cs: Vec<char> = Vec::new();
    extend_with_str(&mut cs, "Primary: ");
    push_idecimal(&mut cs, w as isize);
    extend_with_str(&mut cs, "x");
    push_idecimal(&mut cs, h as isize);
    let mut v: Vec<String> = Vec::new();
    v.push(string_from_chars(&cs));
    v
}

/// Lists the displays of the current platform.
pub fn get_all_monitors() -> (v: Vec<String>)
    ensures
        v@.len() == 1,
        v@[0]@ == "Primary: 1920x1080"@,
{
    crate::platform::native::sys_info::providers::CurrentPlatform::get_all_monitors()
}

/// Human-readable summaries of the connected monitors.
pub fn get_monitors_summary() -> (v: Vec<String>)
    ensures
        v@.len() == 1,
        v@[0]@ == "Primary: 1920x1080"@,
{
    get_all_monitors()
}


/// What was read of one DRM connector under `/sys/class/drm`: its directory
/// name (absent when it has none), its `status` file and its `modes` file
/// (absent when it could not be read).
pub struct DrmConnector {
    pub name: Option<String>,
    pub status: String,
    pub modes: Option<String>,
}

/// The entry of a connected connector: "<name>: <first mode, trimmed>", with
/// "Unknown" for a missing name and "Unknown resolution" when there is no mode.
pub open spec fn drm_entry(name: Option<Seq<char>>, status: Seq<char>, modes: Option<Seq<char>>) -> Option<Seq<char>> {
    if trim(status) == "connected"@ {
        let n = match name {
            Some(v) => v,
            None => "Unknown"@,
        };
        let res = match modes {
            Some(m) => if text_lines(m).len() > 0 {
                trim(text_lines(m)[0])
            } else {
                "Unknown resolution"@
            },
            None => "Unknown resolution"@,
        };
        Some(n + ": "@ + res)
    } else {
        None
    }
}

/// The entries of the connected connectors, in order.
pub open spec fn drm_entries(cs: Seq<(Option<Seq<char>>, Seq<char>, Option<Seq<char>>)>) -> Seq<Seq<char>>
    decreases cs.len(),
{
    if cs.len() == 0 {
        Seq::empty()
    } else {
        let prev = drm_entries(cs.drop_last());
        let (n, st, m) = cs.last();
        match drm_entry(n, st, m) {
            Some(e) => prev.push(e),
            None => prev,
        }
    }
}

/// The plain values of a connector reading.
pub open spec fn connector_view(c: DrmConnector) -> (Option<Seq<char>>, Seq<char>, Option<Seq<char>>) {
    (opt_view(c.name), c.status@, opt_view(c.modes))
}

/// The entry of one connector, if it is connected.
pub fn drm_monitor_entry(c: &DrmConnector) -> (r: Option<String>)
    ensures
        match r {
            Some(e) => drm_entry(opt_view(c.name), c.status@, opt_view(c.modes)) == Some(e@),
            None => drm_entry(opt_view(c.name), c.status@, opt_view(c.modes)) is None,
        },
{
    let st = trim_chars(&str_chars(c.status.as_str()));
    let connected = str_chars("connected");
    if !chars_eq(&st, &connected) {
        return None;
    }
    let mut out: Vec<char> = match &c.name {
        Some(n) => str_chars(n.as_str()),
        None => str_chars("Unknown"),
    };
    extend_with_str(&mut out, ": ");
    let res = match &c.modes {
        Some(m) => {
            let lines = split_lines(&str_chars(m.as_str()));
            if lines.len() > 0 {
                assert(lines@[0]@ == text_lines(m@)[0]);
                trim_chars(&lines[0])
            } else {
                str_chars("Unknown resolution")
            }
        },
        None => str_chars("Unknown resolution"),
    };
    extend_with(&mut out, &res);
    Some(string_from_chars(&out))
}

/// The monitors of the DRM connectors, in directory order; the primary screen
/// entry for the given resolution when none is connected.
pub fn monitors_from_drm(connectors: &Vec<DrmConnector>, screen_w: i32, screen_h: i32) -> (v: Vec<String>)
    ensures
        ({
            let found = drm_entries(connectors@.map_values(|c: DrmConnector| connector_view(c)));
            &&& found.len() > 0 ==> v@.map_values(|s: String| s@) == found
            &&& found.len() == 0 ==> v@.len() == 1 && v@[0]@ == primary_entry(screen_w as int, screen_h as int)
        }),
{
    let ghost views = connectors@.map_values(|c: DrmConnector| connector_view(c));
    let mut found: Vec<String> = Vec::new();
    for i in 0..connectors.len()
        invariant
            views == connectors@.map_values(|c: DrmConnector| connector_view(c)),
            found@.map_values(|s: String| s@) == drm_entries(views.take(i as int)),
    {
        assert(views.take(i + 1).drop_last() == views.take(i as int));
        assert(views.take(i + 1).last() == connector_view(connectors@[i as int]));
        match drm_monitor_entry(&connectors[i]) {
            Some(e) => {
                let ghost before = found@;
                found.push(e);
                assert(found@.map_values(|s: String| s@) == before.map_values(|s: String| s@).push(found@.last()@));
            },
            None => {},
        }
    }
    assert(views.take(connectors.len() as int) == views);
    monitors_or_primary(found, screen_w, screen_h)
}

/// The label of a Windows display device name: "Display " and the name
/// without its leading `\\.\DISPLAY` prefixes, or the whole name when
/// nothing is left of it.
pub open spec fn display_label(device: Seq<char>) -> Seq<char> {
    let num = strip_prefixes(device, "\\\\.\\DISPLAY"@);
    if num.len() > 0 {
        "Display "@ + num
    } else {
        device
    }
}

/// The absolute value of an integer.
pub open spec fn abs_int(v: int) -> int {
    if v < 0 {
        -v
    } else {
        v
    }
}

/// The summary of one Windows monitor: "<label>: <w>x<h> (<scale>% DPI)".
pub open spec fn windows_monitor_text(device: Seq<char>, w: int, h: int, scale: nat) -> Seq<char> {
    display_label(device) + ": "@ + idecimal(w) + "x"@ + idecimal(h) + " ("@ + decimal(scale) + "% DPI)"@
}

/// The summary of one Windows monitor from its device name, its rectangle and
/// its DPI scale in percent.
pub fn windows_monitor_entry(device: &str, left: i32, top: i32, right: i32, bottom: i32, scale: u32) -> (s: String)
    requires
        i32::MIN < right - left <= i32::MAX,
        i32::MIN < bottom - top <= i32::MAX,
    ensures
        s@ == windows_monitor_text(device@, abs_int(right - left), abs_int(bottom - top), scale as nat),
{
    let d = str_chars(device);
    let prefix = str_chars("\\\\.\\DISPLAY");
    let num = strip_prefixes_chars(&d, &prefix);
    let mut out: Vec<char> = Vec::new();
    if num.len() > 0 {
        extend_with_str(&mut out, "Display ");
        extend_with(&mut out, &num);
    } else {
        extend_with(&mut out, &d);
    }
    let dw = right - left;
    let dh = bottom - top;
    let w = if dw < 0 { -dw } else { dw };
    let h = if dh < 0 { -dh } else { dh };
    extend_with_str(&mut out, ": ");
    push_idecimal(&mut out, w as isize);
    extend_with_str(&mut out, "x");
    push_idecimal(&mut out, h as isize);
    extend_with_str(&mut out, " (");
    push_decimal(&mut out, scale as u64);
    extend_with_str(&mut out, "% DPI)");
    string_from_chars(&out)
}

/// The monitors found, or "Unknown Display" when none was.
pub fn monitors_or_unknown(found: Vec<String>) -> (v: Vec<String>)
    ensures
        found@.len() > 0 ==> v@ == found@,
        found@.len() == 0 ==> v@.len() == 1 && v@[0]@ == "Unknown Display"@,
{
    if found.len() > 0 {
        return found;
    }
    let mut v: Vec<String> = Vec::new();
    v.push(String::from_str("Unknown Display"));
    v
}

} // verus!
