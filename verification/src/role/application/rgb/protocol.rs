//! OpenRGB SDK client protocol: device payload parsing and device names.
use vstd::prelude::*;
use std::time::Duration;
use crate::text::{str_chars, string_from_chars, ends_with, ends_with_str, slice_chars};
use crate::role::application::packages::has_extension;
use super::packet::OPENRGB_DEFAULT_PORT;
use super::wire::{
    PayloadError, spec_read_u16, spec_read_u32, spec_read_string, spec_skip, spec_skip_string,
    same_cursor, read_u16, read_u32, read_string, skip, skip_string,
};

verus! {

/// Where and how the client reaches an OpenRGB server.
pub struct OpenRGBConfig {
    pub server_host: String,
    pub server_port: u16,
    pub client_name: String,
    /// How long connecting, reading and writing may take, in milliseconds.
    pub connection_timeout_ms: u64,
}

/// The client name a program announces: the file name of its executable
/// without a `.exe` suffix, or "rApp" when the file name is unknown.
pub open spec fn client_name_for(exe_file_name: Option<Seq<char>>) -> Seq<char> {
    match exe_file_name {
        Some(n) => if ends_with(n, ".exe"@) {
            n.take(n.len() - 4)
        } else {
            n
        },
        None => "rApp"@,
    }
}

/// The client name for an executable's file name.
pub fn default_client_name(exe_file_name: Option<&str>) -> (r: String)
    ensures
        r@ == client_name_for(match exe_file_name {
            Some(n) => Some(n@),
            None => None,
        }),
{
    match exe_file_name {
        Some(n) => {
            let cs = str_chars(n);
            if ends_with_str(&cs, ".exe") {
                proof {
                    reveal_strlit(".exe");
                }
                let mut t: Vec<char> = Vec::new();
                let keep = cs.len() - 4;
                for i in 0..keep
                    invariant
                        keep <= cs.len(),
                        t@ == cs@.take(i as int),
                {
                    t.push(cs[i]);
                    assert(cs@.take(i + 1) == cs@.take(i as int).push(cs@[i as int]));
                }
                string_from_chars(&t)
            } else {
                string_from_chars(&cs)
            }
        },
        None => String::from_str("rApp"),
    }
}

/// A duration of `ms` milliseconds (`Duration::from_millis`). The contract
/// states nothing of the result: `Duration` is opaque to the verifier here;
/// the milliseconds it is made from are what the configuration holds.
#[verifier::external_body]
fn timeout_millis(ms: u64) -> Duration {
    Duration::from_millis(ms)
}

impl OpenRGBConfig {
    /// The default configuration of a program whose executable has the given
    /// file name: the local server on the default port, the client name for
    /// that file name, and a 500 ms connection timeout.
    pub fn for_executable(exe_file_name: Option<&str>) -> (c: Self)
        ensures
            c.server_host@ == "127.0.0.1"@,
            c.server_port == OPENRGB_DEFAULT_PORT,
            c.client_name@ == client_name_for(match exe_file_name {
                Some(n) => Some(n@),
                None => None,
            }),
            c.connection_timeout_ms == 500,
    {
        OpenRGBConfig {
            server_host: String::from_str("127.0.0.1"),
            server_port: OPENRGB_DEFAULT_PORT,
            client_name: default_client_name(exe_file_name),
            connection_timeout_ms: 500,
        }
    }

    /// The connection timeout as a `Duration` of `connection_timeout_ms`
    /// milliseconds.
    pub fn connection_timeout(&self) -> Duration {
        timeout_millis(self.connection_timeout_ms)
    }
}

/// An RGB color as sent over the OpenRGB protocol.
#[derive(Clone, Copy, Debug, PartialEq, Eq, Structural)]
pub struct RgbColor {
    pub r: u8,
    pub g: u8,
    pub b: u8,
}

impl RgbColor {
    /// Black: every channel off.
    pub fn black() -> (c: Self)
        ensures
            c == (RgbColor { r: 0, g: 0, b: 0 }),
    {
        RgbColor { r: 0, g: 0, b: 0 }
    }

    /// White: every channel at full intensity.
    pub fn white() -> (c: Self)
        ensures
            c == (RgbColor { r: 255, g: 255, b: 255 }),
    {
        RgbColor { r: 255, g: 255, b: 255 }
    }

    pub fn new(r: u8, g: u8, b: u8) -> (c: Self)
        ensures
            c == (RgbColor { r, g, b }),
    {
        RgbColor { r, g, b }
    }
}

/// One RGB controller as reported by the OpenRGB server.
#[derive(Clone, Debug)]
pub struct OpenRGBDevice {
    pub index: u32,
    pub device_type: u32,
    pub name: String,
    pub num_leds: u16,
    pub initial_colors: Vec<RgbColor>,
}

/// The plain values of an `OpenRGBDevice`.
pub struct DeviceView {
    pub index: u32,
    pub device_type: u32,
    pub name: Seq<char>,
    pub num_leds: u16,
    pub initial_colors: Seq<RgbColor>,
}

impl View for OpenRGBDevice {
    type V = DeviceView;

    open spec fn view(&self) -> DeviceView {
        DeviceView {
            index: self.index,
            device_type: self.device_type,
            name: self.name@,
            num_leds: self.num_leds,
            initial_colors: self.initial_colors@,
        }
    }
}

/// Returns the human-readable name of an OpenRGB device type ID.
pub open spec fn spec_device_type_name(t: u32) -> Seq<char> {
    if t == 0 { "Motherboard"@ }
    else if t == 1 { "DRAM (RAM)"@ }
    else if t == 2 { "GPU"@ }
    else if t == 3 { "Cooler"@ }
    else if t == 4 { "LED Strip"@ }
    else if t == 5 { "Keyboard"@ }
    else if t == 6 { "Mouse"@ }
    else if t == 7 { "Mousemat"@ }
    else if t == 8 { "Headset"@ }
    else if t == 12 { "Speaker"@ }
    else { "Other/Unknown"@ }
}

/// Returns the human-readable name of an OpenRGB device type ID.
pub fn device_type_name(t: u32) -> (name: &'static str)
    ensures
        name@ == spec_device_type_name(t),
{
    match t {
        0 => "Motherboard",
        1 => "DRAM (RAM)",
        2 => "GPU",
        3 => "Cooler",
        4 => "LED Strip",
        5 => "Keyboard",
        6 => "Mouse",
        7 => "Mousemat",
        8 => "Headset",
        12 => "Speaker",
        _ => "Other/Unknown",
    }
}

/// The field groups of a controller-data payload that are read only to be
/// passed over.
#[derive(Clone, Copy, PartialEq, Eq, Structural)]
pub enum Section {
    /// A length-prefixed string (vendor, description, version, serial, location).
    Text,
    /// A mode: name, nine 4-byte fields, then a counted list of 4-byte colors.
    Mode,
    /// A zone: name, four 4-byte fields, then a counted matrix of bytes.
    Zone,
    /// An LED: name and a 4-byte value.
    Led,
}

/// The error a reader reports when a string that it passes over runs past the end.
pub open spec fn string_error(legacy: bool) -> PayloadError {
    if legacy { PayloadError::EofString } else { PayloadError::EofSkipString }
}

/// The nine fixed 4-byte fields of a mode. The legacy reader reads them one by
/// one (an `i32`, then eight `u32`); the current one passes over 36 bytes.
pub open spec fn spec_skip_mode_fields(d: Seq<u8>, c: int, legacy: bool) -> Result<int, PayloadError> {
    if legacy {
        if c + 4 > d.len() {
            Err(PayloadError::EofI32)
        } else if c + 36 > d.len() {
            Err(PayloadError::EofU32)
        } else {
            Ok(c + 36)
        }
    } else {
        spec_skip(d, c, 36, PayloadError::EofSkipBytes)
    }
}

/// Passes over one item of a section.
pub open spec fn spec_skip_item(d: Seq<u8>, c: int, s: Section, legacy: bool) -> Result<int, PayloadError> {
    match spec_skip_string(d, c, string_error(legacy)) {
        Err(e) => Err(e),
        Ok(c1) => match s {
            Section::Text => Ok(c1),
            Section::Mode => match spec_skip_mode_fields(d, c1, legacy) {
                Err(e) => Err(e),
                Ok(c2) => match spec_read_u16(d, c2) {
                    Err(e) => Err(e),
                    Ok((n, c3)) => spec_skip(
                        d,
                        c3,
                        n as int * 4,
                        if legacy { PayloadError::EofModeColors } else { PayloadError::EofSkipBytes },
                    ),
                },
            },
            Section::Zone => match spec_skip(
                d,
                c1,
                16,
                if legacy { PayloadError::EofU32 } else { PayloadError::EofSkipBytes },
            ) {
                Err(e) => Err(e),
                Ok(c2) => match spec_read_u16(d, c2) {
                    Err(e) => Err(e),
                    Ok((n, c3)) => spec_skip(
                        d,
                        c3,
                        n as int,
                        if legacy { PayloadError::EofZoneMatrix } else { PayloadError::EofSkipBytes },
                    ),
                },
            },
            Section::Led => spec_skip(
                d,
                c1,
                4,
                if legacy { PayloadError::EofU32 } else { PayloadError::EofSkipBytes },
            ),
        },
    }
}

/// Passes over `k` consecutive items of a section.
pub open spec fn spec_skip_items(d: Seq<u8>, c: int, k: nat, s: Section, legacy: bool) -> Result<int, PayloadError>
    decreases k,
{
    if k == 0 {
        Ok(c)
    } else {
        match spec_skip_item(d, c, s, legacy) {
            Err(e) => Err(e),
            Ok(c1) => spec_skip_items(d, c1, (k - 1) as nat, s, legacy),
        }
    }
}

/// The color stored in the four bytes at `c` (red, green, blue, padding).
pub open spec fn color_at(d: Seq<u8>, c: int) -> RgbColor {
    RgbColor { r: d[c], g: d[c + 1], b: d[c + 2] }
}

/// Reads `k` consecutive 4-byte colors.
pub open spec fn spec_read_colors(d: Seq<u8>, c: int, k: nat) -> Result<(Seq<RgbColor>, int), PayloadError>
    decreases k,
{
    if k == 0 {
        Ok((Seq::<RgbColor>::empty(), c))
    } else if c + 4 > d.len() {
        Err(PayloadError::EofColors)
    } else {
        match spec_read_colors(d, c + 4, (k - 1) as nat) {
            Err(e) => Err(e),
            Ok((rest, c1)) => Ok((seq![color_at(d, c)] + rest, c1)),
        }
    }
}

/// The header of a payload: data size, device type, name, and the five
/// strings that follow the name. Gives the type, the name and the cursor.
pub open spec fn spec_payload_header(d: Seq<u8>, legacy: bool) -> Result<(u32, Seq<char>, int), PayloadError> {
    match spec_read_u32(d, 0) {
        Err(e) => Err(e),
        Ok((_size, c1)) => match spec_read_u32(d, c1) {
            Err(e) => Err(e),
            Ok((device_type, c2)) => match spec_read_string(d, c2) {
                Err(e) => Err(e),
                Ok((name, c3)) => match spec_skip_items(d, c3, 5, Section::Text, legacy) {
                    Err(e) => Err(e),
                    Ok(c4) => Ok((device_type, name, c4)),
                },
            },
        },
    }
}

/// Passes over a counted section.
pub open spec fn spec_skip_section(d: Seq<u8>, c: int, s: Section, legacy: bool) -> Result<int, PayloadError> {
    match spec_read_u16(d, c) {
        Err(e) => Err(e),
        Ok((n, c1)) => spec_skip_items(d, c1, n as nat, s, legacy),
    }
}

/// The modes (with the active-mode field between their count and the list),
/// zones and LEDs of a payload.
pub open spec fn spec_payload_sections(d: Seq<u8>, c: int, legacy: bool) -> Result<int, PayloadError> {
    match spec_read_u16(d, c) {
        Err(e) => Err(e),
        Ok((num_modes, c1)) => match spec_skip(
            d,
            c1,
            4,
            if legacy { PayloadError::EofI32 } else { PayloadError::EofSkipBytes },
        ) {
            Err(e) => Err(e),
            Ok(c2) => match spec_skip_items(d, c2, num_modes as nat, Section::Mode, legacy) {
                Err(e) => Err(e),
                Ok(c3) => match spec_skip_section(d, c3, Section::Zone, legacy) {
                    Err(e) => Err(e),
                    Ok(c4) => spec_skip_section(d, c4, Section::Led, legacy),
                },
            },
        },
    }
}

/// The whole controller-data payload of device `index`.
pub open spec fn spec_device_payload(index: u32, d: Seq<u8>, legacy: bool) -> Result<DeviceView, PayloadError> {
    match spec_payload_header(d, legacy) {
        Err(e) => Err(e),
        Ok((device_type, name, c1)) => match spec_payload_sections(d, c1, legacy) {
            Err(e) => Err(e),
            Ok(c2) => match spec_read_u16(d, c2) {
                Err(e) => Err(e),
                Ok((num_colors, c3)) => match spec_read_colors(d, c3, num_colors as nat) {
                    Err(e) => Err(e),
                    Ok((colors, _)) => Ok(
                        DeviceView {
                            index,
                            device_type,
                            name,
                            num_leds: num_colors,
                            initial_colors: colors,
                        },
                    ),
                },
            },
        },
    }
}

fn skip_mode_fields(data: &[u8], cur: usize, legacy: bool) -> (r: Result<usize, PayloadError>)
    requires
        cur <= data.len(),
    ensures
        same_cursor(r, spec_skip_mode_fields(data@, cur as int, legacy)),
        r matches Ok(c) ==> c <= data.len(),
{
    if legacy {
        if data.len() - cur < 4 {
            Err(PayloadError::EofI32)
        } else if data.len() - cur < 36 {
            Err(PayloadError::EofU32)
        } else {
            Ok(cur + 36)
        }
    } else {
        skip(data, cur, 36, PayloadError::EofSkipBytes)
    }
}

fn skip_item(data: &[u8], cur: usize, s: Section, legacy: bool) -> (r: Result<usize, PayloadError>)
    requires
        cur <= data.len(),
    ensures
        same_cursor(r, spec_skip_item(data@, cur as int, s, legacy)),
        r matches Ok(c) ==> c <= data.len(),
{
    let string_err = if legacy { PayloadError::EofString } else { PayloadError::EofSkipString };
    let c1 = match skip_string(data, cur, string_err) {
        Ok(c) => c,
        Err(e) => return Err(e),
    };
    match s {
        Section::Text => Ok(c1),
        Section::Mode => {
            let c2 = match skip_mode_fields(data, c1, legacy) {
                Ok(c) => c,
                Err(e) => return Err(e),
            };
            let (n, c3) = match read_u16(data, c2) {
                Ok(p) => p,
                Err(e) => return Err(e),
            };
            let e = if legacy { PayloadError::EofModeColors } else { PayloadError::EofSkipBytes };
            skip(data, c3, n as usize * 4, e)
        },
        Section::Zone => {
            let e16 = if legacy { PayloadError::EofU32 } else { PayloadError::EofSkipBytes };
            let c2 = match skip(data, c1, 16, e16) {
                Ok(c) => c,
                Err(e) => return Err(e),
            };
            let (n, c3) = match read_u16(data, c2) {
                Ok(p) => p,
                Err(e) => return Err(e),
            };
            let e = if legacy { PayloadError::EofZoneMatrix } else { PayloadError::EofSkipBytes };
            skip(data, c3, n as usize, e)
        },
        Section::Led => {
            let e = if legacy { PayloadError::EofU32 } else { PayloadError::EofSkipBytes };
            skip(data, c1, 4, e)
        },
    }
}

fn skip_items(data: &[u8], cur: usize, k: u16, s: Section, legacy: bool) -> (r: Result<usize, PayloadError>)
    requires
        cur <= data.len(),
    ensures
        same_cursor(r, spec_skip_items(data@, cur as int, k as nat, s, legacy)),
        r matches Ok(c) ==> c <= data.len(),
{
    let mut c = cur;
    let mut i: u16 = 0;
    while i < k
        invariant
            i <= k,
            c <= data.len(),
            spec_skip_items(data@, cur as int, k as nat, s, legacy) == spec_skip_items(
                data@,
                c as int,
                (k - i) as nat,
                s,
                legacy,
            ),
        decreases k - i,
    {
        match skip_item(data, c, s, legacy) {
            Ok(c1) => {
                c = c1;
            },
            Err(e) => {
                return Err(e);
            },
        }
        i = i + 1;
    }
    Ok(c)
}

/// Result of reading colors, with `acc` read before the rest.
pub open spec fn after_colors(acc: Seq<RgbColor>, r: Result<(Seq<RgbColor>, int), PayloadError>) -> Result<(Seq<RgbColor>, int), PayloadError> {
    match r {
        Err(e) => Err(e),
        Ok((rest, c)) => Ok((acc + rest, c)),
    }
}

proof fn lemma_after_colors_step(d: Seq<u8>, c: int, k: nat, acc: Seq<RgbColor>)
    requires
        k > 0,
        c + 4 <= d.len(),
    ensures
        after_colors(acc, spec_read_colors(d, c, k)) == after_colors(
            acc.push(color_at(d, c)),
            spec_read_colors(d, c + 4, (k - 1) as nat),
        ),
{
    match spec_read_colors(d, c + 4, (k - 1) as nat) {
        Err(e) => {},
        Ok((rest, c1)) => {
            assert(acc + (seq![color_at(d, c)] + rest) == acc.push(color_at(d, c)) + rest);
        },
    }
}

fn read_colors(data: &[u8], cur: usize, k: u16) -> (r: Result<Vec<RgbColor>, PayloadError>)
    requires
        cur <= data.len(),
    ensures
        match spec_read_colors(data@, cur as int, k as nat) {
            Ok((cs, _)) => r matches Ok(v) && v@ == cs,
            Err(e) => r == Err::<Vec<RgbColor>, PayloadError>(e),
        },
{
    let mut colors: Vec<RgbColor> = Vec::new();
    let mut c = cur;
    let mut i: u16 = 0;
    while i < k
        invariant
            i <= k,
            c <= data.len(),
            after_colors(Seq::empty(), spec_read_colors(data@, cur as int, k as nat)) == after_colors(
                colors@,
                spec_read_colors(data@, c as int, (k - i) as nat),
            ),
        decreases k - i,
    {
        if data.len() - c < 4 {
            return Err(PayloadError::EofColors);
        }
        proof {
            lemma_after_colors_step(data@, c as int, (k - i) as nat, colors@);
        }
        colors.push(RgbColor { r: data[c], g: data[c + 1], b: data[c + 2] });
        c = c + 4;
        i = i + 1;
    }
    proof {
        match spec_read_colors(data@, cur as int, k as nat) {
            Err(e) => {},
            Ok((cs, c1)) => {
                assert(Seq::<RgbColor>::empty() + cs == cs);
                assert(colors@ + Seq::<RgbColor>::empty() == colors@);
            },
        }
    }
    Ok(colors)
}

/// Reads a controller-data payload in either the current or the legacy manner.
pub fn parse_payload(index: u32, data: &[u8], legacy: bool) -> (r: Result<OpenRGBDevice, PayloadError>)
    ensures
        match spec_device_payload(index, data@, legacy) {
            Ok(v) => r matches Ok(dev) && dev@ == v,
            Err(e) => r matches Err(re) && re == e,
        },
{
    let (_size, c1) = match read_u32(data, 0) {
        Ok(p) => p,
        Err(e) => return Err(e),
    };
    let (device_type, c2) = match read_u32(data, c1) {
        Ok(p) => p,
        Err(e) => return Err(e),
    };
    let (name, c3) = match read_string(data, c2) {
        Ok(p) => p,
        Err(e) => return Err(e),
    };
    let c4 = match skip_items(data, c3, 5, Section::Text, legacy) {
        Ok(c) => c,
        Err(e) => return Err(e),
    };
    let (num_modes, c5) = match read_u16(data, c4) {
        Ok(p) => p,
        Err(e) => return Err(e),
    };
    let active_err = if legacy { PayloadError::EofI32 } else { PayloadError::EofSkipBytes };
    let c6 = match skip(data, c5, 4, active_err) {
        Ok(c) => c,
        Err(e) => return Err(e),
    };
    let c7 = match skip_items(data, c6, num_modes, Section::Mode, legacy) {
        Ok(c) => c,
        Err(e) => return Err(e),
    };
    let (num_zones, c8) = match read_u16(data, c7) {
        Ok(p) => p,
        Err(e) => return Err(e),
    };
    let c9 = match skip_items(data, c8, num_zones, Section::Zone, legacy) {
        Ok(c) => c,
        Err(e) => return Err(e),
    };
    let (num_leds, c10) = match read_u16(data, c9) {
        Ok(p) => p,
        Err(e) => return Err(e),
    };
    let c11 = match skip_items(data, c10, num_leds, Section::Led, legacy) {
        Ok(c) => c,
        Err(e) => return Err(e),
    };
    let (num_colors, c12) = match read_u16(data, c11) {
        Ok(p) => p,
        Err(e) => return Err(e),
    };
    let initial_colors = match read_colors(data, c12, num_colors) {
        Ok(v) => v,
        Err(e) => return Err(e),
    };
    Ok(OpenRGBDevice { index, device_type, name, num_leds: num_colors, initial_colors })
}

/// Reads the controller-data payload of device `index` (the reply to a
/// controller-data request). The device keeps its name, type and the colors
/// its LEDs had; modes, zones and LED names are passed over. Fails with the
/// field at which the data ended.
pub fn parse_device_payload(index: u32, data: &[u8]) -> (r: Result<OpenRGBDevice, PayloadError>)
    ensures
        match spec_device_payload(index, data@, false) {
            Ok(v) => r matches Ok(dev) && dev@ == v,
            Err(e) => r matches Err(re) && re == e,
        },
{
    parse_payload(index, data, false)
}


/// The first OpenRGB profile among directory entries (name, whether a regular
/// file): the stem of the first file with the `.orp` extension.
pub open spec fn first_profile(entries: Seq<(Seq<char>, bool)>) -> Option<Seq<char>>
    decreases entries.len(),
{
    if entries.len() == 0 {
        None
    } else {
        let (name, is_file) = entries[0];
        if is_file && has_extension(name, "orp"@) {
            Some(name.take(name.len() - 4))
        } else {
            first_profile(entries.drop_first())
        }
    }
}

/// The profile to load when RGB control ends: the profile named in the
/// registry when it is set and not empty; else, when the OpenRGB directory
/// exists, "default", "restore" or "normal" (the first whose `.orp` file
/// exists), else the first profile file of the directory; else none.
pub open spec fn restore_profile(
    registry: Option<Seq<char>>,
    dir_exists: bool,
    default_exists: bool,
    restore_exists: bool,
    normal_exists: bool,
    entries: Seq<(Seq<char>, bool)>,
) -> Option<Seq<char>> {
    if registry is Some && registry->0.len() > 0 {
        registry
    } else if !dir_exists {
        None
    } else if default_exists {
        Some("default"@)
    } else if restore_exists {
        Some("restore"@)
    } else if normal_exists {
        Some("normal"@)
    } else {
        first_profile(entries)
    }
}

/// The plain values of directory entries.
pub open spec fn dir_entry_views(v: Seq<(String, bool)>) -> Seq<(Seq<char>, bool)> {
    v.map_values(|e: (String, bool)| (e.0@, e.1))
}

/// The profile to load when RGB control ends, from the registry setting
/// (absent when unset or unreadable), whether the OpenRGB directory and its
/// preferred profile files exist, and the entries of the directory.
pub fn choose_restore_profile(
    registry: Option<String>,
    dir_exists: bool,
    default_exists: bool,
    restore_exists: bool,
    normal_exists: bool,
    entries: &Vec<(String, bool)>,
) -> (r: Option<String>)
    ensures
        (match r {
            Some(p) => Some(p@),
            None => None,
        }) == restore_profile(
            match registry {
                Some(p) => Some(p@),
                None => None,
            },
            dir_exists,
            default_exists,
            restore_exists,
            normal_exists,
            dir_entry_views(entries@),
        ),
{
    match &registry {
        Some(p) => {
            if str_chars(p.as_str()).len() > 0 {
                return registry;
            }
        },
        None => {},
    }
    if !dir_exists {
        return None;
    }
    if default_exists {
        return Some(String::from_str("default"));
    }
    if restore_exists {
        return Some(String::from_str("restore"));
    }
    if normal_exists {
        return Some(String::from_str("normal"));
    }
    let ghost views = dir_entry_views(entries@);
    assert(views.skip(0) == views);
    let ext = str_chars(".orp");
    proof {
        reveal_strlit(".orp");
        reveal_strlit(".");
        reveal_strlit("orp");
        assert(".orp"@ == "."@ + "orp"@);
    }
    let ghost target = restore_profile(
        match registry {
            Some(p) => Some(p@),
            None => None,
        },
        dir_exists,
        default_exists,
        restore_exists,
        normal_exists,
        dir_entry_views(entries@),
    );
    assert(target == first_profile(views));
    for i in 0..entries.len()
        invariant
            views == dir_entry_views(entries@),
            target == first_profile(views),
            target == restore_profile(
                match registry {
                    Some(p) => Some(p@),
                    None => None,
                },
                dir_exists,
                default_exists,
                restore_exists,
                normal_exists,
                dir_entry_views(entries@),
            ),
            ext@ == "."@ + "orp"@,
            ext@.len() == 4,
            first_profile(views) == first_profile(views.skip(i as int)),
    {
        assert(views.skip(i as int)[0] == views[i as int]);
        assert(views.skip(i as int).drop_first() == views.skip(i + 1));
        proof {
            reveal_strlit("orp");
        }
        let name = str_chars(entries[i].0.as_str());
        if entries[i].1 && crate::text::has_suffix(&name, &ext) && name.len() > 4 {
            assert("orp"@.len() == 3);
            assert(!"orp"@.contains('.')) by {
                assert("orp"@[0] == 'o' && "orp"@[1] == 'r' && "orp"@[2] == 'p');
            }
            let stem = slice_chars(&name, 0, name.len() - 4);
            assert(stem@ == name@.take(name@.len() - 4));
            return Some(string_from_chars(&stem));
        }
        assert("orp"@.len() == 3);
    }
    assert(views.skip(entries.len() as int) == Seq::<(Seq<char>, bool)>::empty());
    None
}

} // verus!
