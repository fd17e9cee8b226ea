//! What the Windows platform makes of the values its system calls, its
//! registry and `ipconfig /all` give back. The calls themselves are made
//! outside the library; these functions take their results.
use vstd::prelude::*;
use crate::toolkit::platform::{NetworkAdapterInfo, AdapterView, adapter_views, PowerStatus, SystemBiosInfo,
    documented_adapter_type};
use crate::text::{
    str_chars, string_from_chars, extend_with, extend_with_str, contains, contains_str, lowercase,
    to_lowercase, trim, trim_chars, trim_start, starts_with, ends_with, starts_with_str, ends_with_str,
    find_char, find_char_index, slice_chars, strip_suffixes, strip_suffixes_chars, text_lines,
    split_lines, chars_eq, replace_all, replace_chars, parse_unsigned, parse_unsigned_chars,
    all_digits, is_digit,
};

verus! {

// ---------------------------------------------------------------------------
// `ipconfig /all`
// ---------------------------------------------------------------------------

/// Where a scan of `ipconfig /all` stands: the adapters finished so far and the
/// adapter being read (its name is empty before the first adapter header).
pub struct IpconfigScan {
    pub adapters: Seq<AdapterView>,
    pub name: Seq<char>,
    pub description: Seq<char>,
    pub ip_addresses: Seq<Seq<char>>,
    pub adapter_type: Seq<char>,
    pub is_up: bool,
}

/// The adapter a scan is reading.
pub open spec fn scan_current(st: IpconfigScan) -> AdapterView {
    AdapterView {
        name: st.name,
        description: st.description,
        ip_addresses: st.ip_addresses,
        adapter_type: st.adapter_type,
        is_up: st.is_up,
    }
}

/// The adapters a scan has read: the finished ones, and the current one when
/// a header started it.
pub open spec fn scan_adapters(st: IpconfigScan) -> Seq<AdapterView> {
    if st.name.len() > 0 {
        st.adapters.push(scan_current(st))
    } else {
        st.adapters
    }
}

/// A scan before any line.
pub open spec fn scan_start() -> IpconfigScan {
    IpconfigScan {
        adapters: Seq::empty(),
        name: Seq::empty(),
        description: Seq::empty(),
        ip_addresses: Seq::empty(),
        adapter_type: "Other"@,
        is_up: true,
    }
}

/// Whether a line (without its leading white space) starts an adapter: it ends
/// with `:` and names an adapter.
pub open spec fn is_adapter_header(t: Seq<char>) -> bool {
    &&& ends_with(t, ":"@)
    &&& !starts_with(t, " "@)
    &&& (contains(t, "adapter"@) || contains(t, "Adapter"@))
}

/// The kind of a Windows adapter, from its lowercased name.
pub open spec fn windows_adapter_type(lower: Seq<char>) -> Seq<char> {
    if contains(lower, "wi-fi"@) || contains(lower, "wireless"@) || contains(lower, "wlan"@) {
        "Wi-Fi"@
    } else if contains(lower, "bluetooth"@) {
        "Bluetooth"@
    } else if contains(lower, "ethernet"@) || contains(lower, "local area"@) {
        "Ethernet"@
    } else if contains(lower, "virtual"@) || contains(lower, "loopback"@) || contains(lower, "vethernet"@) {
        "Virtual"@
    } else {
        "Other"@
    }
}

/// Whether a line carries an IP address.
pub open spec fn is_address_line(t: Seq<char>) -> bool {
    starts_with(t, "IPv4 Address"@) || starts_with(t, "IPv6 Address"@) || contains(
        t,
        "Autoconfiguration IPv4 Address"@,
    ) || contains(t, "Link-local IPv6 Address"@)
}

/// The address on an address line: the text after its first `:`, trimmed,
/// without a trailing "(Preferred)", trimmed again.
pub open spec fn address_of(t: Seq<char>) -> Seq<char> {
    trim(strip_suffixes(trim(t.skip(find_char(t, ':') + 1)), "(Preferred)"@))
}

/// One line of `ipconfig /all` read into the scan.
pub open spec fn ipconfig_step(st: IpconfigScan, line: Seq<char>) -> IpconfigScan {
    let t = trim_start(line);
    if is_adapter_header(t) {
        let name = strip_suffixes(t, ":"@);
        IpconfigScan {
            adapters: scan_adapters(st),
            name,
            description: Seq::empty(),
            ip_addresses: Seq::empty(),
            adapter_type: windows_adapter_type(lowercase(name)),
            is_up: true,
        }
    } else if starts_with(t, "Description"@) {
        let p = find_char(t, '.');
        if p >= 0 {
            IpconfigScan { description: trim(t.skip(p + 1)), ..st }
        } else {
            st
        }
    } else if is_address_line(t) {
        if find_char(t, ':') >= 0 {
            let ip = address_of(t);
            if ip.len() > 0 && !st.ip_addresses.contains(ip) {
                IpconfigScan { ip_addresses: st.ip_addresses.push(ip), ..st }
            } else {
                st
            }
        } else {
            st
        }
    } else if contains(lowercase(t), "media disconnected"@) {
        IpconfigScan { is_up: false, ..st }
    } else {
        st
    }
}

/// The scan after the given lines.
pub open spec fn ipconfig_scan(lines: Seq<Seq<char>>) -> IpconfigScan
    decreases lines.len(),
{
    if lines.len() == 0 {
        scan_start()
    } else {
        ipconfig_step(ipconfig_scan(lines.drop_last()), lines.last())
    }
}

/// The adapter reported when the output names none.
pub open spec fn unknown_adapter() -> AdapterView {
    AdapterView {
        name: "Unknown Adapter"@,
        description: "ipconfig parse failed"@,
        ip_addresses: seq!["127.0.0.1"@],
        adapter_type: "Other"@,
        is_up: true,
    }
}

/// The adapters that the text of `ipconfig /all` describes, in order; the
/// placeholder adapter when it describes none.
pub open spec fn ipconfig_adapters(output: Seq<char>) -> Seq<AdapterView> {
    let found = scan_adapters(ipconfig_scan(text_lines(output)));
    if found.len() == 0 {
        seq![unknown_adapter()]
    } else {
        found
    }
}

/// No address occurs twice in a list.
pub open spec fn distinct_addresses(ips: Seq<Seq<char>>) -> bool {
    forall|i: int, j: int| 0 <= i < j < ips.len() ==> ips[i] != ips[j]
}

/// Every adapter of a scan, and the one being read, lists each address once
/// and has one of the documented kinds.
pub open spec fn scan_distinct(st: IpconfigScan) -> bool {
    &&& distinct_addresses(st.ip_addresses)
    &&& documented_adapter_type(st.adapter_type)
    &&& forall|k: int| 0 <= k < st.adapters.len() ==> distinct_addresses(#[trigger] st.adapters[k].ip_addresses)
    &&& forall|k: int| 0 <= k < st.adapters.len() ==> documented_adapter_type(#[trigger] st.adapters[k].adapter_type)
}

proof fn lemma_ipconfig_scan_distinct(lines: Seq<Seq<char>>)
    ensures
        scan_distinct(ipconfig_scan(lines)),
    decreases lines.len(),
{
    reveal_strlit("Wi-Fi");
    reveal_strlit("Ethernet");
    reveal_strlit("Bluetooth");
    reveal_strlit("Virtual");
    reveal_strlit("Other");
    if lines.len() > 0 {
        lemma_ipconfig_scan_distinct(lines.drop_last());
        let st = ipconfig_scan(lines.drop_last());
        let r = ipconfig_step(st, lines.last());
        assert forall|k: int| 0 <= k < scan_adapters(st).len() implies distinct_addresses(
            #[trigger] scan_adapters(st)[k].ip_addresses,
        ) by {
            if k < st.adapters.len() {
                assert(scan_adapters(st)[k] == st.adapters[k]);
            }
        }
        assert forall|k: int| 0 <= k < scan_adapters(st).len() implies documented_adapter_type(
            #[trigger] scan_adapters(st)[k].adapter_type,
        ) by {
            if k < st.adapters.len() {
                assert(scan_adapters(st)[k] == st.adapters[k]);
            }
        }
        assert(distinct_addresses(r.ip_addresses)) by {
            if r.ip_addresses.len() > st.ip_addresses.len() && r.ip_addresses.len() > 0 {
                let ip = r.ip_addresses.last();
                assert forall|i: int, j: int| 0 <= i < j < r.ip_addresses.len() implies r.ip_addresses[i]
                    != r.ip_addresses[j] by {
                    if j == r.ip_addresses.len() - 1 && r.ip_addresses.drop_last() == st.ip_addresses {
                        assert(st.ip_addresses[i] != ip);
                    }
                }
            }
        }
    }
}

/// Each adapter that `ipconfig /all` describes lists each of its addresses
/// once, however often the output repeats one, and has one of the documented
/// kinds; at least one adapter is reported.
pub proof fn lemma_ipconfig_addresses_distinct(output: Seq<char>)
    ensures
        forall|k: int| 0 <= k < ipconfig_adapters(output).len() ==> distinct_addresses(
            #[trigger] ipconfig_adapters(output)[k].ip_addresses,
        ),
        forall|k: int| 0 <= k < ipconfig_adapters(output).len() ==> documented_adapter_type(
            #[trigger] ipconfig_adapters(output)[k].adapter_type,
        ),
        ipconfig_adapters(output).len() > 0,
{
    reveal_strlit("Other");
    let st = ipconfig_scan(text_lines(output));
    lemma_ipconfig_scan_distinct(text_lines(output));
    assert forall|k: int| 0 <= k < scan_adapters(st).len() implies distinct_addresses(
        #[trigger] scan_adapters(st)[k].ip_addresses,
    ) by {
        if k < st.adapters.len() {
            assert(scan_adapters(st)[k] == st.adapters[k]);
        }
    }
    assert forall|k: int| 0 <= k < scan_adapters(st).len() implies documented_adapter_type(
        #[trigger] scan_adapters(st)[k].adapter_type,
    ) by {
        if k < st.adapters.len() {
            assert(scan_adapters(st)[k] == st.adapters[k]);
        }
    }
    reveal_strlit("127.0.0.1");
}

/// The executable state of a scan.
struct ScanState {
    adapters: Vec<NetworkAdapterInfo>,
    name: Vec<char>,
    description: Vec<char>,
    ip_addresses: Vec<Vec<char>>,
    adapter_type: Vec<char>,
    is_up: bool,
}

impl View for ScanState {
    type V = IpconfigScan;

    closed spec fn view(&self) -> IpconfigScan {
        IpconfigScan {
            adapters: adapter_views(self.adapters@),
            name: self.name@,
            description: self.description@,
            ip_addresses: self.ip_addresses@.map_values(|v: Vec<char>| v@),
            adapter_type: self.adapter_type@,
            is_up: self.is_up,
        }
    }
}

/// A string for each character sequence.
fn strings_of(v: &Vec<Vec<char>>) -> (r: Vec<String>)
    ensures
        r@.map_values(|s: String| s@) == v@.map_values(|c: Vec<char>| c@),
{
    let mut r: Vec<String> = Vec::new();
    for i in 0..v.len()
        invariant
            r@.map_values(|s: String| s@) == v@.take(i as int).map_values(|c: Vec<char>| c@),
    {
        let ghost before = r@;
        r.push(string_from_chars(&v[i]));
        assert(r@.map_values(|s: String| s@) == before.map_values(|s: String| s@).push(v@[i as int]@));
        assert(v@.take(i + 1).map_values(|c: Vec<char>| c@) == v@.take(i as int).map_values(
            |c: Vec<char>| c@,
        ).push(v@[i as int]@));
    }
    assert(v@.take(v.len() as int) == v@);
    r
}

/// The adapter a scan is reading, as a record.
fn current_adapter(st: &ScanState) -> (a: NetworkAdapterInfo)
    ensures
        a@ == scan_current(st@),
{
    NetworkAdapterInfo {
        name: string_from_chars(&st.name),
        description: string_from_chars(&st.description),
        ip_addresses: strings_of(&st.ip_addresses),
        adapter_type: string_from_chars(&st.adapter_type),
        is_up: st.is_up,
    }
}

/// Whether `v` holds `x`.
fn holds_chars(v: &Vec<Vec<char>>, x: &Vec<char>) -> (b: bool)
    ensures
        b == v@.map_values(|c: Vec<char>| c@).contains(x@),
{
    let ghost vs = v@.map_values(|c: Vec<char>| c@);
    for i in 0..v.len()
        invariant
            vs == v@.map_values(|c: Vec<char>| c@),
            forall|k: int| 0 <= k < i ==> vs[k] != x@,
    {
        if chars_eq(&v[i], x) {
            assert(vs[i as int] == x@);
            return true;
        }
    }
    false
}

/// The kind of a Windows adapter from its name.
fn adapter_type_of(name: &Vec<char>) -> (r: Vec<char>)
    ensures
        r@ == windows_adapter_type(lowercase(name@)),
{
    let s = string_from_chars(name);
    let lower = str_chars(to_lowercase(s.as_str()).as_str());
    let mut r: Vec<char> = Vec::new();
    if contains_str(&lower, "wi-fi") || contains_str(&lower, "wireless") || contains_str(&lower, "wlan") {
        extend_with_str(&mut r, "Wi-Fi");
    } else if contains_str(&lower, "bluetooth") {
        extend_with_str(&mut r, "Bluetooth");
    } else if contains_str(&lower, "ethernet") || contains_str(&lower, "local area") {
        extend_with_str(&mut r, "Ethernet");
    } else if contains_str(&lower, "virtual") || contains_str(&lower, "loopback") || contains_str(
        &lower,
        "vethernet",
    ) {
        extend_with_str(&mut r, "Virtual");
    } else {
        extend_with_str(&mut r, "Other");
    }
    r
}

/// Reads one line of `ipconfig /all` into the scan.
fn ipconfig_line(st: &mut ScanState, line: &Vec<char>)
    ensures
        final(st)@ == ipconfig_step(old(st)@, line@),
{
    let t = trim_start_chars(line);
    let colon = str_chars(":");
    let space = str_chars(" ");
    if ends_with_str(&t, ":") && !starts_with_str(&t, " ") && (contains_str(&t, "adapter")
        || contains_str(&t, "Adapter")) {
        if st.name.len() > 0 {
            let a = current_adapter(st);
            let ghost before = st.adapters@;
            st.adapters.push(a);
            assert(adapter_views(st.adapters@) == adapter_views(before).push(a@));
        }
        let name = strip_suffixes_chars(&t, &colon);
        st.adapter_type = adapter_type_of(&name);
        st.name = name;
        st.description = Vec::new();
        st.ip_addresses = Vec::new();
        st.is_up = true;
        assert(st@.ip_addresses == Seq::<Seq<char>>::empty());
    } else if starts_with_str(&t, "Description") {
        match find_char_index(&t, '.') {
            Some(p) => {
                let after = slice_chars(&t, p + 1, t.len());
                assert(after@ == t@.skip(p + 1));
                st.description = trim_chars(&after);
            },
            None => {},
        }
    } else if starts_with_str(&t, "IPv4 Address") || starts_with_str(&t, "IPv6 Address")
        || contains_str(&t, "Autoconfiguration IPv4 Address") || contains_str(
        &t,
        "Link-local IPv6 Address",
    ) {
        match find_char_index(&t, ':') {
            Some(p) => {
                assert(p < t.len());
                let after = slice_chars(&t, p + 1, t.len());
                assert(after@ == t@.skip(p + 1));
                let a1 = trim_chars(&after);
                let pref = str_chars("(Preferred)");
                let a2 = strip_suffixes_chars(&a1, &pref);
                let ip = trim_chars(&a2);
                if ip.len() > 0 && !holds_chars(&st.ip_addresses, &ip) {
                    let ghost before = st.ip_addresses@;
                    st.ip_addresses.push(ip);
                    assert(st.ip_addresses@.map_values(|v: Vec<char>| v@) == before.map_values(
                        |v: Vec<char>| v@,
                    ).push(st.ip_addresses@.last()@));
                }
            },
            None => {},
        }
    } else {
        let ts = string_from_chars(&t);
        let lower = str_chars(to_lowercase(ts.as_str()).as_str());
        if contains_str(&lower, "media disconnected") {
            st.is_up = false;
        }
    }
}

/// `s` without its leading white space.
fn trim_start_chars(s: &Vec<char>) -> (r: Vec<char>)
    ensures
        r@ == trim_start(s@),
{
    let mut i: usize = 0;
    assert(s@.skip(0) == s@);
    while i < s.len() && crate::text::char_is_whitespace(s[i])
        invariant
            i <= s.len(),
            trim_start(s@.skip(i as int)) == trim_start(s@),
        decreases s.len() - i,
    {
        assert(s@.skip(i as int).drop_first() == s@.skip(i + 1));
        i = i + 1;
    }
    let r = slice_chars(s, i, s.len());
    assert(r@ == s@.skip(i as int));
    r
}

/// The network adapters that the text of `ipconfig /all` describes, in order:
/// each adapter header (a line ending in `:` that names an adapter) starts
/// one, typed by its name; its "Description" line gives the description, its
/// address lines the distinct addresses, and "Media disconnected" marks it
/// down. When the text names no adapter, the placeholder "Unknown Adapter" at
/// 127.0.0.1.
pub fn adapters_from_ipconfig(output: &str) -> (r: Vec<NetworkAdapterInfo>)
    ensures
        adapter_views(r@) == ipconfig_adapters(output@),
{
    let cs = str_chars(output);
    let lines = split_lines(&cs);
    let ghost views = lines@.map_values(|l: Vec<char>| l@);
    let mut st = ScanState {
        adapters: Vec::new(),
        name: Vec::new(),
        description: Vec::new(),
        ip_addresses: Vec::new(),
        adapter_type: str_chars("Other"),
        is_up: true,
    };
    assert(st@ == scan_start()) by {
        assert(adapter_views(st.adapters@) == Seq::<AdapterView>::empty());
        assert(st.ip_addresses@.map_values(|v: Vec<char>| v@) == Seq::<Seq<char>>::empty());
    }
    for i in 0..lines.len()
        invariant
            views == lines@.map_values(|l: Vec<char>| l@),
            views == text_lines(output@),
            st@ == ipconfig_scan(views.take(i as int)),
    {
        assert(views.take(i + 1).drop_last() == views.take(i as int));
        assert(views.take(i + 1).last() == lines@[i as int]@);
        ipconfig_line(&mut st, &lines[i]);
    }
    assert(views.take(lines.len() as int) == views);
    let mut adapters = st.adapters;
    if st.name.len() > 0 {
        let rest = ScanState { adapters: Vec::new(), ..st };
        let a = current_adapter(&rest);
        let ghost before = adapters@;
        adapters.push(a);
        assert(adapter_views(adapters@) == adapter_views(before).push(a@));
    }
    if adapters.len() == 0 {
        let mut ips: Vec<String> = Vec::new();
        ips.push(String::from_str("127.0.0.1"));
        adapters.push(NetworkAdapterInfo {
            name: String::from_str("Unknown Adapter"),
            description: String::from_str("ipconfig parse failed"),
            ip_addresses: ips,
            adapter_type: String::from_str("Other"),
            is_up: true,
        });
        assert(adapter_views(adapters@) =~= seq![unknown_adapter()]) by {
            assert(adapters@[0]@.ip_addresses =~= seq!["127.0.0.1"@]);
        }
    }
    adapters
}


// ---------------------------------------------------------------------------
// Theme, display, power and identification
// ---------------------------------------------------------------------------

/// The accent color in a DWM colorization value (0xAARRGGBB) when the query
/// succeeded (`hr == 0`), else the default accent (0, 245, 255).
pub open spec fn colorization_accent(hr: i32, color: u32) -> (u8, u8, u8) {
    if hr == 0 {
        (((color / 0x10000) % 0x100) as u8, ((color / 0x100) % 0x100) as u8, (color % 0x100) as u8)
    } else {
        (0, 245, 255)
    }
}

/// The accent color from the result of `DwmGetColorizationColor`.
pub fn accent_from_colorization(hr: i32, color: u32) -> (c: (u8, u8, u8))
    ensures
        c == colorization_accent(hr, color),
{
    if hr == 0 {
        let r = ((color >> 16) & 0xFF) as u8;
        let g = ((color >> 8) & 0xFF) as u8;
        let b = (color & 0xFF) as u8;
        assert((color >> 16) & 0xFF == (color / 0x10000) % 0x100) by (bit_vector);
        assert((color >> 8) & 0xFF == (color / 0x100) % 0x100) by (bit_vector);
        assert(color & 0xFF == color % 0x100) by (bit_vector);
        (r, g, b)
    } else {
        (0, 245, 255)
    }
}

/// The DPI of the console window: the window's DPI when there is a console
/// window and it reports one above zero, else 96.
pub fn console_dpi(has_console_window: bool, window_dpi: u32) -> (d: u32)
    ensures
        d == (if has_console_window && window_dpi > 0 { window_dpi } else { 96 }),
{
    if has_console_window && window_dpi > 0 {
        window_dpi
    } else {
        96
    }
}

/// Whether high contrast is on: the query succeeded and the
/// `HCF_HIGHCONTRASTON` flag (bit 0) is set.
pub fn high_contrast_from(result: i32, flags: u32) -> (b: bool)
    ensures
        b == (result != 0 && flags % 2 == 1),
{
    if result == 0 {
        return false;
    }
    assert(flags & 1 == flags % 2) by (bit_vector);
    (flags & 1) != 0
}

/// Dark mode from the `AppsUseLightTheme` registry value: dark when it is 0;
/// dark when the value cannot be read.
pub fn dark_mode_from_registry(apps_use_light_theme: Option<u32>) -> (b: bool)
    ensures
        b == (match apps_use_light_theme {
            Some(v) => v == 0,
            None => true,
        }),
{
    match apps_use_light_theme {
        Some(v) => v == 0,
        None => true,
    }
}

/// The power status from `GetSystemPowerStatus`: none when the call failed;
/// else on AC when the line status is 1, with the battery life percent.
pub fn power_from_system_status(result: i32, ac_line_status: u8, battery_life_percent: u8) -> (p: Option<PowerStatus>)
    ensures
        p == (if result != 0 {
            Some(PowerStatus { ac_online: ac_line_status == 1, battery_percent: battery_life_percent })
        } else {
            None
        }),
{
    if result != 0 {
        Some(PowerStatus { ac_online: ac_line_status == 1, battery_percent: battery_life_percent })
    } else {
        None
    }
}

/// A registry string, trimmed; empty when it could not be read.
pub open spec fn trimmed_or_empty(v: Option<Seq<char>>) -> Seq<char> {
    match v {
        Some(s) => trim(s),
        None => Seq::empty(),
    }
}

/// The view of an optional string.
pub open spec fn opt_view(v: Option<String>) -> Option<Seq<char>> {
    match v {
        Some(s) => Some(s@),
        None => None,
    }
}

fn trimmed_string(v: &Option<String>) -> (r: String)
    ensures
        r@ == trimmed_or_empty(opt_view(*v)),
{
    match v {
        Some(s) => {
            let cs = str_chars(s.as_str());
            string_from_chars(&trim_chars(&cs))
        },
        None => String::new(),
    }
}

/// The BIOS identification from the BIOS registry key: none when the key could
/// not be opened; else its manufacturer, product and board product, each
/// trimmed, empty when missing.
pub fn bios_from_registry(
    key_opened: bool,
    manufacturer: Option<String>,
    product: Option<String>,
    model: Option<String>,
) -> (r: Option<SystemBiosInfo>)
    ensures
        key_opened == r.is_some(),
        r matches Some(b) ==> {
            &&& b.manufacturer@ == trimmed_or_empty(opt_view(manufacturer))
            &&& b.product@ == trimmed_or_empty(opt_view(product))
            &&& b.model@ == trimmed_or_empty(opt_view(model))
        },
{
    if !key_opened {
        return None;
    }
    Some(SystemBiosInfo {
        manufacturer: trimmed_string(&manufacturer),
        product: trimmed_string(&product),
        model: trimmed_string(&model),
    })
}

/// The OS version line: the product name ("Windows" when unknown), with
/// "Windows 10" replaced by "Windows 11" when the name starts with it and the
/// build number is 22000 or more; then the display version and "(Build <n>)"
/// when they are known and not empty, separated by spaces.
pub open spec fn windows_version_text(
    product_name: Option<Seq<char>>,
    current_build: Option<Seq<char>>,
    display_version: Option<Seq<char>>,
) -> Seq<char> {
    let product = match product_name {
        Some(p) => p,
        None => "Windows"@,
    };
    let build = match current_build {
        Some(b) => b,
        None => Seq::empty(),
    };
    let display = match display_version {
        Some(d) => d,
        None => Seq::empty(),
    };
    let eleven = starts_with(product, "Windows 10"@) && match parse_unsigned(build, 0xffff_ffff) {
        Some(n) => n >= 22000,
        None => false,
    };
    let name = if eleven {
        replace_all(product, "Windows 10"@, "Windows 11"@)
    } else {
        product
    };
    name + (if display.len() > 0 {
        " "@ + display
    } else {
        Seq::empty()
    }) + (if build.len() > 0 {
        " (Build "@ + build + ")"@
    } else {
        Seq::empty()
    })
}

/// The OS version line from the `ProductName`, `CurrentBuild` and
/// `DisplayVersion` registry values (each absent when it could not be read).
pub fn os_version_from_registry(
    product_name: Option<String>,
    current_build: Option<String>,
    display_version: Option<String>,
) -> (r: String)
    ensures
        r@ == windows_version_text(opt_view(product_name), opt_view(current_build), opt_view(display_version)),
{
    let product = match &product_name {
        Some(p) => str_chars(p.as_str()),
        None => str_chars("Windows"),
    };
    let build = match &current_build {
        Some(b) => str_chars(b.as_str()),
        None => Vec::new(),
    };
    let display = match &display_version {
        Some(d) => str_chars(d.as_str()),
        None => Vec::new(),
    };
    let mut eleven = false;
    if starts_with_str(&product, "Windows 10") {
        match parse_unsigned_chars(&build, 0xffff_ffff) {
            Some(n) => {
                eleven = n >= 22000;
            },
            None => {},
        }
    }
    let mut out: Vec<char> = if eleven {
        let from = str_chars("Windows 10");
        let to = str_chars("Windows 11");
        proof {
            reveal_strlit("Windows 10");
        }
        replace_chars(&product, &from, &to)
    } else {
        product
    };
    if display.len() > 0 {
        extend_with_str(&mut out, " ");
        extend_with(&mut out, &display);
    }
    if build.len() > 0 {
        extend_with_str(&mut out, " (Build ");
        extend_with(&mut out, &build);
        extend_with_str(&mut out, ")");
    }
    string_from_chars(&out)
}

// ---------------------------------------------------------------------------
// Graphics adapters and drives
// ---------------------------------------------------------------------------

/// Whether a subkey of the display adapter class key names an adapter
/// instance: exactly four ASCII digits.
pub open spec fn is_adapter_subkey(name: Seq<char>) -> bool {
    name.len() == 4 && all_digits(name)
}

/// Whether a subkey name names a display adapter instance.
pub fn adapter_subkey(name: &str) -> (b: bool)
    ensures
        b == is_adapter_subkey(name@),
{
    let cs = str_chars(name);
    if cs.len() != 4 {
        return false;
    }
    for i in 0..4
        invariant
            cs.len() == 4,
            cs@ == name@,
            forall|k: int| 0 <= k < i ==> is_digit(#[trigger] cs@[k]),
    {
        if !('0' <= cs[i] && cs[i] <= '9') {
            assert(!is_digit(cs@[i as int]));
            return false;
        }
    }
    true
}

/// The adapter descriptions of the display adapter class key: for each subkey
/// in order that names an adapter instance, its `DriverDesc` when it could be
/// read.
pub open spec fn gpu_descriptions(subkeys: Seq<(Seq<char>, Option<Seq<char>>)>) -> Seq<Seq<char>>
    decreases subkeys.len(),
{
    if subkeys.len() == 0 {
        Seq::empty()
    } else {
        let prev = gpu_descriptions(subkeys.drop_last());
        let (name, desc) = subkeys.last();
        if is_adapter_subkey(name) && desc is Some {
            prev.push(desc->0)
        } else {
            prev
        }
    }
}

/// The views of subkey names and their descriptions.
pub open spec fn subkey_views(v: Seq<(String, Option<String>)>) -> Seq<(Seq<char>, Option<Seq<char>>)> {
    v.map_values(|e: (String, Option<String>)| (e.0@, opt_view(e.1)))
}

/// The graphics adapter names from the subkeys of the display adapter class
/// key, each with its `DriverDesc` value when it could be read.
pub fn gpu_names_from_subkeys(subkeys: &Vec<(String, Option<String>)>) -> (r: Vec<String>)
    ensures
        r@.map_values(|s: String| s@) == gpu_descriptions(subkey_views(subkeys@)),
{
    let ghost views = subkey_views(subkeys@);
    let mut out: Vec<String> = Vec::new();
    for i in 0..subkeys.len()
        invariant
            views == subkey_views(subkeys@),
            out@.map_values(|s: String| s@) == gpu_descriptions(views.take(i as int)),
    {
        assert(views.take(i + 1).drop_last() == views.take(i as int));
        assert(views.take(i + 1).last() == views[i as int]);
        let ghost before = out@;
        if adapter_subkey(subkeys[i].0.as_str()) {
            match &subkeys[i].1 {
                Some(d) => {
                    out.push(d.clone());
                    assert(out@.map_values(|s: String| s@) == before.map_values(|s: String| s@).push(d@));
                },
                None => {},
            }
        }
    }
    assert(views.take(subkeys.len() as int) == views);
    out
}

/// The drive roots in the buffer of `GetLogicalDriveStringsW`: the non-empty
/// runs of its first `len` units that a zero unit ends, in order; none unless
/// `0 < len < buffer.len()`.
pub open spec fn drive_roots_spec(buffer: Seq<u16>, len: int) -> Seq<Seq<u16>> {
    if 0 < len < buffer.len() {
        closed_runs(buffer.take(len))
    } else {
        Seq::empty()
    }
}

/// The non-empty runs of `s` that a zero ends, in order.
pub open spec fn closed_runs(s: Seq<u16>) -> Seq<Seq<u16>>
    decreases s.len(),
{
    if s.len() == 0 {
        Seq::empty()
    } else {
        let prev = closed_runs(s.drop_last());
        let run = open_run(s.drop_last());
        if s.last() == 0 && run.len() > 0 {
            prev.push(run)
        } else {
            prev
        }
    }
}

/// The units of `s` after its last zero.
pub open spec fn open_run(s: Seq<u16>) -> Seq<u16>
    decreases s.len(),
{
    if s.len() == 0 {
        Seq::empty()
    } else if s.last() == 0 {
        Seq::empty()
    } else {
        open_run(s.drop_last()).push(s.last())
    }
}

/// The drive roots (such as "C:\") in the buffer that
/// `GetLogicalDriveStringsW` filled, with the length it returned.
pub fn drive_roots(buffer: &Vec<u16>, len: u32) -> (r: Vec<Vec<u16>>)
    ensures
        r@.map_values(|v: Vec<u16>| v@) == drive_roots_spec(buffer@, len as int),
{
    let mut out: Vec<Vec<u16>> = Vec::new();
    if len == 0 || len as usize >= buffer.len() {
        assert(out@.map_values(|v: Vec<u16>| v@) == Seq::<Seq<u16>>::empty());
        return out;
    }
    let n = len as usize;
    let mut run: Vec<u16> = Vec::new();
    for idx in 0..n
        invariant
            n < buffer.len(),
            out@.map_values(|v: Vec<u16>| v@) == closed_runs(buffer@.take(idx as int)),
            run@ == open_run(buffer@.take(idx as int)),
    {
        let ghost pre = buffer@.take(idx as int);
        assert(buffer@.take(idx + 1).drop_last() == pre);
        assert(buffer@.take(idx + 1).last() == buffer@[idx as int]);
        if buffer[idx] == 0 {
            if run.len() > 0 {
                let ghost before = out@;
                out.push(run);
                assert(out@.map_values(|v: Vec<u16>| v@) == before.map_values(|v: Vec<u16>| v@).push(
                    out@.last()@,
                ));
            }
            run = Vec::new();
        } else {
            run.push(buffer[idx]);
        }
    }
    out
}

// ---------------------------------------------------------------------------
// Shell and terminal
// ---------------------------------------------------------------------------

/// The shell a lowercased process name reveals, if any.
pub open spec fn shell_of_process(name: Seq<char>) -> Option<Seq<char>> {
    if contains(name, "powershell"@) || contains(name, "pwsh"@) {
        Some("PowerShell"@)
    } else if name == "cmd.exe"@ || name == "cmd"@ {
        Some("CMD"@)
    } else if contains(name, "bash"@) || contains(name, "sh"@) || contains(name, "zsh"@) {
        Some(replace_all(name, ".exe"@, Seq::empty()))
    } else {
        None
    }
}

/// The terminal a lowercased process name reveals, if any.
pub open spec fn terminal_of_process(name: Seq<char>) -> Option<Seq<char>> {
    if contains(name, "windowsterminal"@) || name == "openconsole.exe"@ {
        Some("Windows Terminal"@)
    } else if contains(name, "code"@) {
        Some("VS Code Terminal"@)
    } else if contains(name, "alacritty"@) {
        Some("Alacritty"@)
    } else if contains(name, "wezterm"@) {
        Some("WezTerm"@)
    } else if contains(name, "conhost"@) {
        Some("Windows Console Host"@)
    } else {
        None
    }
}

/// The shell and terminal after looking at the given processes, from the
/// current one up its parents: each of the two is taken from the first
/// process that reveals it.
pub open spec fn process_chain(names: Seq<Seq<char>>) -> (Seq<char>, Seq<char>)
    decreases names.len(),
{
    if names.len() == 0 {
        ("Unknown Shell"@, "Unknown Terminal"@)
    } else {
        let (shell, term) = process_chain(names.drop_last());
        let lower = lowercase(names.last());
        let shell2 = if shell == "Unknown Shell"@ {
            match shell_of_process(lower) {
                Some(s) => s,
                None => shell,
            }
        } else {
            shell
        };
        let term2 = if term == "Unknown Terminal"@ {
            match terminal_of_process(lower) {
                Some(t) => t,
                None => term,
            }
        } else {
            term
        };
        (shell2, term2)
    }
}

/// The processes looked at: the current one and at most twelve ancestors.
pub open spec fn chain_considered(names: Seq<Seq<char>>) -> Seq<Seq<char>> {
    if names.len() > 13 {
        names.take(13)
    } else {
        names
    }
}

/// Whether `a` equals the literal `lit`.
fn is_lit(a: &Vec<char>, lit: &str) -> (b: bool)
    ensures
        b == (a@ == lit@),
{
    let l = str_chars(lit);
    chars_eq(a, &l)
}

/// The shell and terminal revealed by the names of the current process and its
/// ancestors, nearest first; only the first thirteen are looked at.
pub fn shell_and_terminal_from_processes(names: &Vec<String>) -> (r: (String, String))
    ensures
        (r.0@, r.1@) == process_chain(chain_considered(names@.map_values(|s: String| s@))),
{
    let ghost views = names@.map_values(|s: String| s@);
    let n = if names.len() > 13 { 13 } else { names.len() };
    let mut shell = str_chars("Unknown Shell");
    let mut term = str_chars("Unknown Terminal");
    for i in 0..n
        invariant
            n <= names.len(),
            n == (if names.len() > 13 { 13 } else { names.len() }),
            views == names@.map_values(|s: String| s@),
            (shell@, term@) == process_chain(views.take(i as int)),
    {
        assert(views.take(i + 1).drop_last() == views.take(i as int));
        assert(views.take(i + 1).last() == names@[i as int]@);
        let lower = str_chars(to_lowercase(names[i].as_str()).as_str());
        if is_lit(&shell, "Unknown Shell") {
            if contains_str(&lower, "powershell") || contains_str(&lower, "pwsh") {
                shell = str_chars("PowerShell");
            } else if is_lit(&lower, "cmd.exe") || is_lit(&lower, "cmd") {
                shell = str_chars("CMD");
            } else if contains_str(&lower, "bash") || contains_str(&lower, "sh") || contains_str(&lower, "zsh") {
                let from = str_chars(".exe");
                proof {
                    reveal_strlit(".exe");
                }
                let to: Vec<char> = Vec::new();
                shell = replace_chars(&lower, &from, &to);
            }
        }
        if is_lit(&term, "Unknown Terminal") {
            if contains_str(&lower, "windowsterminal") || is_lit(&lower, "openconsole.exe") {
                term = str_chars("Windows Terminal");
            } else if contains_str(&lower, "code") {
                term = str_chars("VS Code Terminal");
            } else if contains_str(&lower, "alacritty") {
                term = str_chars("Alacritty");
            } else if contains_str(&lower, "wezterm") {
                term = str_chars("WezTerm");
            } else if contains_str(&lower, "conhost") {
                term = str_chars("Windows Console Host");
            }
        }
    }
    assert(chain_considered(views) == views.take(n as int));
    (string_from_chars(&shell), string_from_chars(&term))
}

} // verus!
