//! How the controller-data payload readers relate: the legacy reader and the
//! current one succeed together and read the same device, and bytes after a
//! payload are ignored; a payload laid out field by field reads back as what
//! was written.
use vstd::prelude::*;
use super::packet::{le16_bytes, le32_bytes, lemma_le32_roundtrip};
use super::protocol::{
    RgbColor, DeviceView,
    Section, string_error, color_at, spec_skip_mode_fields, spec_skip_item, spec_skip_items, spec_read_colors,
    spec_payload_header, spec_skip_section, spec_payload_sections, spec_device_payload,
};
use super::wire::{
    PayloadError, spec_read_u16, spec_read_u32, spec_read_string, spec_skip, spec_skip_string, utf8_lossy,
    without_nul,
};

verus! {


/// Two readings agree on whether they succeed and, when they do, on what they
/// read; their errors may differ.
pub open spec fn same_success<T>(a: Result<T, PayloadError>, b: Result<T, PayloadError>) -> bool {
    match (a, b) {
        (Ok(x), Ok(y)) => x == y,
        (Err(_), Err(_)) => true,
        _ => false,
    }
}

proof fn lemma_skip_items_modes(d: Seq<u8>, c: int, k: nat, s: Section)
    ensures
        same_success(spec_skip_items(d, c, k, s, true), spec_skip_items(d, c, k, s, false)),
    decreases k,
{
    if k > 0 {
        match spec_skip_item(d, c, s, false) {
            Ok(c1) => lemma_skip_items_modes(d, c1, (k - 1) as nat, s),
            Err(_) => {},
        }
    }
}

proof fn lemma_skip_section_modes(d: Seq<u8>, c: int, s: Section)
    ensures
        same_success(spec_skip_section(d, c, s, true), spec_skip_section(d, c, s, false)),
{
    match spec_read_u16(d, c) {
        Ok((n, c1)) => lemma_skip_items_modes(d, c1, n as nat, s),
        Err(_) => {},
    }
}

/// The legacy reader and the current one succeed on the same payloads and then
/// read the same device; only their errors differ.
pub proof fn lemma_readers_agree(index: u32, d: Seq<u8>)
    ensures
        same_success(spec_device_payload(index, d, true), spec_device_payload(index, d, false)),
{
    match spec_read_u32(d, 0) {
        Ok((_, c1)) => match spec_read_u32(d, c1) {
            Ok((_, c2)) => match spec_read_string(d, c2) {
                Ok((_, c3)) => lemma_skip_items_modes(d, c3, 5, Section::Text),
                Err(_) => {},
            },
            Err(_) => {},
        },
        Err(_) => {},
    }
    match spec_payload_header(d, false) {
        Ok((_, _, c1)) => match spec_read_u16(d, c1) {
            Ok((n, c2)) => match spec_skip(d, c2, 4, PayloadError::EofSkipBytes) {
                Ok(c3) => {
                    lemma_skip_items_modes(d, c3, n as nat, Section::Mode);
                    match spec_skip_items(d, c3, n as nat, Section::Mode, false) {
                        Ok(c4) => {
                            lemma_skip_section_modes(d, c4, Section::Zone);
                            match spec_skip_section(d, c4, Section::Zone, false) {
                                Ok(c5) => lemma_skip_section_modes(d, c5, Section::Led),
                                Err(_) => {},
                            }
                        },
                        Err(_) => {},
                    }
                },
                Err(_) => {},
            },
            Err(_) => {},
        },
        Err(_) => {},
    }
}

proof fn lemma_read_u16_extend(d: Seq<u8>, e: Seq<u8>, c: int)
    requires
        0 <= c,
        spec_read_u16(d, c) is Ok,
    ensures
        spec_read_u16(d + e, c) == spec_read_u16(d, c),
{
    assert((d + e)[c] == d[c] && (d + e)[c + 1] == d[c + 1]);
}

proof fn lemma_read_u32_extend(d: Seq<u8>, e: Seq<u8>, c: int)
    requires
        0 <= c,
        spec_read_u32(d, c) is Ok,
    ensures
        spec_read_u32(d + e, c) == spec_read_u32(d, c),
{
    assert((d + e)[c] == d[c] && (d + e)[c + 1] == d[c + 1]);
    assert((d + e)[c + 2] == d[c + 2] && (d + e)[c + 3] == d[c + 3]);
}

proof fn lemma_read_string_extend(d: Seq<u8>, e: Seq<u8>, c: int)
    requires
        0 <= c,
        spec_read_string(d, c) is Ok,
    ensures
        spec_read_string(d + e, c) == spec_read_string(d, c),
{
    lemma_read_u16_extend(d, e, c);
    match spec_read_u16(d, c) {
        Ok((len, c1)) => {
            if len != 0 {
                assert((d + e).subrange(c1, c1 + len) == d.subrange(c1, c1 + len));
            }
        },
        Err(_) => {},
    }
}

proof fn lemma_skip_item_extend(d: Seq<u8>, e: Seq<u8>, c: int, s: Section, legacy: bool)
    requires
        0 <= c,
        spec_skip_item(d, c, s, legacy) is Ok,
    ensures
        spec_skip_item(d + e, c, s, legacy) == spec_skip_item(d, c, s, legacy),
        spec_skip_item(d, c, s, legacy) matches Ok(c1) && c1 >= c,
{
    lemma_read_u16_extend(d, e, c);
    match spec_skip_string(d, c, string_error(legacy)) {
        Ok(c1) => match s {
            Section::Mode => match spec_skip_mode_fields(d, c1, legacy) {
                Ok(c2) => lemma_read_u16_extend(d, e, c2),
                Err(_) => {},
            },
            Section::Zone => match spec_skip(
                d,
                c1,
                16,
                if legacy { PayloadError::EofU32 } else { PayloadError::EofSkipBytes },
            ) {
                Ok(c2) => lemma_read_u16_extend(d, e, c2),
                Err(_) => {},
            },
            _ => {},
        },
        Err(_) => {},
    }
}

proof fn lemma_skip_items_extend(d: Seq<u8>, e: Seq<u8>, c: int, k: nat, s: Section, legacy: bool)
    requires
        0 <= c,
        spec_skip_items(d, c, k, s, legacy) is Ok,
    ensures
        spec_skip_items(d + e, c, k, s, legacy) == spec_skip_items(d, c, k, s, legacy),
        spec_skip_items(d, c, k, s, legacy) matches Ok(c1) && c1 >= c,
    decreases k,
{
    if k > 0 {
        lemma_skip_item_extend(d, e, c, s, legacy);
        match spec_skip_item(d, c, s, legacy) {
            Ok(c1) => lemma_skip_items_extend(d, e, c1, (k - 1) as nat, s, legacy),
            Err(_) => {},
        }
    }
}

proof fn lemma_skip_section_extend(d: Seq<u8>, e: Seq<u8>, c: int, s: Section, legacy: bool)
    requires
        0 <= c,
        spec_skip_section(d, c, s, legacy) is Ok,
    ensures
        spec_skip_section(d + e, c, s, legacy) == spec_skip_section(d, c, s, legacy),
        spec_skip_section(d, c, s, legacy) matches Ok(c1) && c1 >= c,
{
    lemma_read_u16_extend(d, e, c);
    match spec_read_u16(d, c) {
        Ok((n, c1)) => lemma_skip_items_extend(d, e, c1, n as nat, s, legacy),
        Err(_) => {},
    }
}

proof fn lemma_read_colors_extend(d: Seq<u8>, e: Seq<u8>, c: int, k: nat)
    requires
        0 <= c,
        spec_read_colors(d, c, k) is Ok,
    ensures
        spec_read_colors(d + e, c, k) == spec_read_colors(d, c, k),
    decreases k,
{
    if k > 0 {
        assert((d + e)[c] == d[c] && (d + e)[c + 1] == d[c + 1] && (d + e)[c + 2] == d[c + 2]);
        lemma_read_colors_extend(d, e, c + 4, (k - 1) as nat);
    }
}

proof fn lemma_header_extend(d: Seq<u8>, e: Seq<u8>, legacy: bool)
    requires
        spec_payload_header(d, legacy) is Ok,
    ensures
        spec_payload_header(d + e, legacy) == spec_payload_header(d, legacy),
        spec_payload_header(d, legacy) matches Ok((_, _, c1)) && c1 >= 0,
{
    lemma_read_u32_extend(d, e, 0);
    match spec_read_u32(d, 0) {
        Ok((_, c1)) => {
            lemma_read_u32_extend(d, e, c1);
            match spec_read_u32(d, c1) {
                Ok((_, c2)) => {
                    lemma_read_string_extend(d, e, c2);
                    match spec_read_string(d, c2) {
                        Ok((_, c3)) => lemma_skip_items_extend(d, e, c3, 5, Section::Text, legacy),
                        Err(_) => {},
                    }
                },
                Err(_) => {},
            }
        },
        Err(_) => {},
    }
}

proof fn lemma_sections_extend(d: Seq<u8>, e: Seq<u8>, c: int, legacy: bool)
    requires
        0 <= c,
        spec_payload_sections(d, c, legacy) is Ok,
    ensures
        spec_payload_sections(d + e, c, legacy) == spec_payload_sections(d, c, legacy),
        spec_payload_sections(d, c, legacy) matches Ok(c1) && c1 >= c,
{
    lemma_read_u16_extend(d, e, c);
    match spec_read_u16(d, c) {
        Ok((n, c1)) => match spec_skip(d, c1, 4, if legacy { PayloadError::EofI32 } else { PayloadError::EofSkipBytes }) {
            Ok(c2) => {
                lemma_skip_items_extend(d, e, c2, n as nat, Section::Mode, legacy);
                match spec_skip_items(d, c2, n as nat, Section::Mode, legacy) {
                    Ok(c3) => {
                        lemma_skip_section_extend(d, e, c3, Section::Zone, legacy);
                        match spec_skip_section(d, c3, Section::Zone, legacy) {
                            Ok(c4) => lemma_skip_section_extend(d, e, c4, Section::Led, legacy),
                            Err(_) => {},
                        }
                    },
                    Err(_) => {},
                }
            },
            Err(_) => {},
        },
        Err(_) => {},
    }
}

/// Bytes after a payload that reads are ignored: the same device is read.
pub proof fn lemma_trailing_bytes_ignored(index: u32, d: Seq<u8>, extra: Seq<u8>, legacy: bool)
    requires
        spec_device_payload(index, d, legacy) is Ok,
    ensures
        spec_device_payload(index, d + extra, legacy) == spec_device_payload(index, d, legacy),
{
    lemma_header_extend(d, extra, legacy);
    match spec_payload_header(d, legacy) {
        Ok((_, _, c1)) => {
            lemma_sections_extend(d, extra, c1, legacy);
            match spec_payload_sections(d, c1, legacy) {
                Ok(c2) => {
                    lemma_read_u16_extend(d, extra, c2);
                    match spec_read_u16(d, c2) {
                        Ok((n, c3)) => lemma_read_colors_extend(d, extra, c3, n as nat),
                        Err(_) => {},
                    }
                },
                Err(_) => {},
            }
        },
        Err(_) => {},
    }
}

// ---------------------------------------------------------------------------
// Payloads laid out field by field
// ---------------------------------------------------------------------------

/// A length-prefixed string field.
pub open spec fn string_field(b: Seq<u8>) -> Seq<u8> {
    le16_bytes(b.len() as u16) + b
}

/// Consecutive string fields.
pub open spec fn string_fields(ss: Seq<Seq<u8>>) -> Seq<u8>
    decreases ss.len(),
{
    if ss.len() == 0 {
        Seq::empty()
    } else {
        string_field(ss[0]) + string_fields(ss.drop_first())
    }
}

/// An LED record: its name as a string field, then its 4-byte value.
pub open spec fn led_field(name: Seq<u8>, value: u32) -> Seq<u8> {
    string_field(name) + le32_bytes(value)
}

/// Consecutive LED records.
pub open spec fn led_fields(leds: Seq<(Seq<u8>, u32)>) -> Seq<u8>
    decreases leds.len(),
{
    if leds.len() == 0 {
        Seq::empty()
    } else {
        led_field(leds[0].0, leds[0].1) + led_fields(leds.drop_first())
    }
}

/// Consecutive 4-byte colors (red, green, blue, padding).
pub open spec fn color_fields(colors: Seq<RgbColor>) -> Seq<u8>
    decreases colors.len(),
{
    if colors.len() == 0 {
        Seq::empty()
    } else {
        seq![colors[0].r, colors[0].g, colors[0].b, 0u8] + color_fields(colors.drop_first())
    }
}

/// Whether every string fits its 16-bit length prefix.
pub open spec fn short_strings(ss: Seq<Seq<u8>>) -> bool {
    forall|i: int| 0 <= i < ss.len() ==> #[trigger] ss[i].len() < 65536
}

/// The text a string field's bytes read as: none for no bytes, else the
/// bytes without one trailing NUL, decoded.
pub open spec fn field_text(b: Seq<u8>) -> Seq<char> {
    if b.len() == 0 {
        Seq::empty()
    } else {
        utf8_lossy(without_nul(b))
    }
}

/// Whether the bytes `f` stand in `d` from position `c` on.
pub open spec fn bytes_at(d: Seq<u8>, c: int, f: Seq<u8>) -> bool {
    &&& 0 <= c
    &&& c + f.len() <= d.len()
    &&& forall|i: int| 0 <= i < f.len() ==> d[c + i] == #[trigger] f[i]
}

proof fn lemma_bytes_at_split(d: Seq<u8>, c: int, f: Seq<u8>, g: Seq<u8>)
    requires
        bytes_at(d, c, f + g),
    ensures
        bytes_at(d, c, f),
        bytes_at(d, c + f.len(), g),
{
    assert forall|i: int| 0 <= i < f.len() implies d[c + i] == #[trigger] f[i] by {
        assert((f + g)[i] == f[i]);
    }
    assert forall|i: int| 0 <= i < g.len() implies d[c + f.len() + i] == #[trigger] g[i] by {
        assert((f + g)[f.len() + i] == g[i]);
        assert(c + (f.len() + i) == c + f.len() + i);
    }
}

proof fn lemma_read_u16_at(d: Seq<u8>, c: int, v: u16)
    requires
        bytes_at(d, c, le16_bytes(v)),
    ensures
        spec_read_u16(d, c) == Ok::<(u16, int), PayloadError>((v, c + 2)),
{
    assert(d[c] == le16_bytes(v)[0]);
    assert(d[c + 1] == le16_bytes(v)[1]);
    assert((v % 256) as u8 as int + (v / 256) as u8 as int * 256 == v);
}

proof fn lemma_read_u32_at(d: Seq<u8>, c: int, v: u32)
    requires
        bytes_at(d, c, le32_bytes(v)),
    ensures
        spec_read_u32(d, c) == Ok::<(u32, int), PayloadError>((v, c + 4)),
{
    lemma_le32_roundtrip(v);
    let b = le32_bytes(v);
    assert(d[c] == b[0]);
    assert(d[c + 1] == b[1]);
    assert(d[c + 2] == b[2]);
    assert(d[c + 3] == b[3]);
}

proof fn lemma_string_at(d: Seq<u8>, c: int, b: Seq<u8>, e: PayloadError)
    requires
        b.len() < 65536,
        bytes_at(d, c, string_field(b)),
    ensures
        spec_skip_string(d, c, e) == Ok::<int, PayloadError>(c + 2 + b.len()),
        spec_read_string(d, c) == Ok::<(Seq<char>, int), PayloadError>((field_text(b), c + 2 + b.len())),
{
    lemma_bytes_at_split(d, c, le16_bytes(b.len() as u16), b);
    lemma_read_u16_at(d, c, b.len() as u16);
    assert(d.subrange(c + 2, c + 2 + b.len()) =~= b) by {
        assert forall|i: int| 0 <= i < b.len() implies d.subrange(c + 2, c + 2 + b.len())[i] == b[i] by {
            assert(d[c + 2 + i] == b[i]);
        }
    }
}

proof fn lemma_string_fields_at(d: Seq<u8>, c: int, ss: Seq<Seq<u8>>, legacy: bool)
    requires
        short_strings(ss),
        bytes_at(d, c, string_fields(ss)),
    ensures
        spec_skip_items(d, c, ss.len(), Section::Text, legacy) == Ok::<int, PayloadError>(c + string_fields(ss).len()),
    decreases ss.len(),
{
    if ss.len() > 0 {
        assert(ss[0].len() < 65536);
        let f = string_field(ss[0]);
        let tail = string_fields(ss.drop_first());
        lemma_bytes_at_split(d, c, f, tail);
        lemma_string_at(d, c, ss[0], string_error(legacy));
        assert(short_strings(ss.drop_first())) by {
            assert forall|i: int| 0 <= i < ss.drop_first().len() implies #[trigger] ss.drop_first()[i].len() < 65536 by {
                assert(ss.drop_first()[i] == ss[i + 1]);
            }
        }
        lemma_string_fields_at(d, c + f.len(), ss.drop_first(), legacy);
    }
}

/// Whether every LED name fits its 16-bit length prefix.
pub open spec fn short_led_names(leds: Seq<(Seq<u8>, u32)>) -> bool {
    forall|i: int| 0 <= i < leds.len() ==> #[trigger] leds[i].0.len() < 65536
}

proof fn lemma_led_fields_at(d: Seq<u8>, c: int, leds: Seq<(Seq<u8>, u32)>, legacy: bool)
    requires
        short_led_names(leds),
        bytes_at(d, c, led_fields(leds)),
    ensures
        spec_skip_items(d, c, leds.len(), Section::Led, legacy) == Ok::<int, PayloadError>(c + led_fields(leds).len()),
    decreases leds.len(),
{
    if leds.len() > 0 {
        assert(leds[0].0.len() < 65536);
        let sf = string_field(leds[0].0);
        let f = led_field(leds[0].0, leds[0].1);
        let tail = led_fields(leds.drop_first());
        lemma_bytes_at_split(d, c, f, tail);
        lemma_bytes_at_split(d, c, sf, le32_bytes(leds[0].1));
        lemma_string_at(d, c, leds[0].0, string_error(legacy));
        assert(short_led_names(leds.drop_first())) by {
            assert forall|i: int| 0 <= i < leds.drop_first().len() implies #[trigger] leds.drop_first()[i].0.len()
                < 65536 by {
                assert(leds.drop_first()[i] == leds[i + 1]);
            }
        }
        lemma_led_fields_at(d, c + f.len(), leds.drop_first(), legacy);
    }
}

proof fn lemma_color_fields_at(d: Seq<u8>, c: int, colors: Seq<RgbColor>)
    requires
        bytes_at(d, c, color_fields(colors)),
    ensures
        spec_read_colors(d, c, colors.len()) == Ok::<(Seq<RgbColor>, int), PayloadError>(
            (colors, c + color_fields(colors).len()),
        ),
    decreases colors.len(),
{
    if colors.len() > 0 {
        let c0 = colors[0];
        let f = seq![c0.r, c0.g, c0.b, 0u8];
        let tail = color_fields(colors.drop_first());
        lemma_bytes_at_split(d, c, f, tail);
        assert(d[c] == f[0] && d[c + 1] == f[1] && d[c + 2] == f[2]);
        assert(color_at(d, c) == c0);
        lemma_color_fields_at(d, c + 4, colors.drop_first());
        assert(colors.drop_first().len() == (colors.len() - 1) as nat);
        assert(seq![c0] + colors.drop_first() == colors);
    } else {
        assert(colors == Seq::<RgbColor>::empty());
    }
}

/// A controller-data payload laid out field by field, with no modes and no
/// zones: data size, device type, name, the five strings that follow it, the
/// mode count (0) and active mode, the zone count (0), the LED count and the
/// LED records (each a length-prefixed name and a 4-byte value), then the
/// color count and the colors.
pub open spec fn led_payload(
    size: u32,
    device_type: u32,
    name: Seq<u8>,
    texts: Seq<Seq<u8>>,
    active_mode: u32,
    leds: Seq<(Seq<u8>, u32)>,
    colors: Seq<RgbColor>,
) -> Seq<u8> {
    le32_bytes(size) + (le32_bytes(device_type) + (string_field(name) + (string_fields(texts) + (le16_bytes(0)
        + (le32_bytes(active_mode) + (le16_bytes(0) + (le16_bytes(leds.len() as u16) + (led_fields(leds)
        + (le16_bytes(colors.len() as u16) + color_fields(colors))))))))))
}

/// Where each field of a laid-out payload starts.
pub open spec fn led_layout_holds(
    d: Seq<u8>,
    size: u32,
    device_type: u32,
    name: Seq<u8>,
    texts: Seq<Seq<u8>>,
    active_mode: u32,
    leds: Seq<(Seq<u8>, u32)>,
    colors: Seq<RgbColor>,
) -> bool {
    let c4: int = 8int + string_field(name).len();
    let c5: int = c4 + string_fields(texts).len();
    let c9: int = c5 + 10;
    let c10: int = c9 + led_fields(leds).len();
    &&& bytes_at(d, 0, le32_bytes(size))
    &&& bytes_at(d, 4, le32_bytes(device_type))
    &&& bytes_at(d, 8, string_field(name))
    &&& bytes_at(d, c4, string_fields(texts))
    &&& bytes_at(d, c5, le16_bytes(0))
    &&& bytes_at(d, c5 + 2, le32_bytes(active_mode))
    &&& bytes_at(d, c5 + 6, le16_bytes(0))
    &&& bytes_at(d, c5 + 8, le16_bytes(leds.len() as u16))
    &&& bytes_at(d, c9, led_fields(leds))
    &&& bytes_at(d, c10, le16_bytes(colors.len() as u16))
    &&& bytes_at(d, c10 + 2, color_fields(colors))
}

proof fn lemma_led_layout(
    size: u32,
    device_type: u32,
    name: Seq<u8>,
    texts: Seq<Seq<u8>>,
    active_mode: u32,
    leds: Seq<(Seq<u8>, u32)>,
    colors: Seq<RgbColor>,
)
    ensures
        led_layout_holds(
            led_payload(size, device_type, name, texts, active_mode, leds, colors),
            size,
            device_type,
            name,
            texts,
            active_mode,
            leds,
            colors,
        ),
{
    let d = led_payload(size, device_type, name, texts, active_mode, leds, colors);
    let a1 = le32_bytes(size);
    let a2 = le32_bytes(device_type);
    let a3 = string_field(name);
    let a4 = string_fields(texts);
    let a5 = le16_bytes(0);
    let a6 = le32_bytes(active_mode);
    let a7 = le16_bytes(0);
    let a8 = le16_bytes(leds.len() as u16);
    let a9 = led_fields(leds);
    let a10 = le16_bytes(colors.len() as u16);
    let a11 = color_fields(colors);
    let r10 = a10 + a11;
    let r9 = a9 + r10;
    let r8 = a8 + r9;
    let r7 = a7 + r8;
    let r6 = a6 + r7;
    let r5 = a5 + r6;
    let r4 = a4 + r5;
    let r3 = a3 + r4;
    let r2 = a2 + r3;
    assert(bytes_at(d, 0, d));
    lemma_bytes_at_split(d, 0, a1, r2);
    lemma_bytes_at_split(d, 4, a2, r3);
    lemma_bytes_at_split(d, 8, a3, r4);
    let c4: int = 8int + a3.len();
    lemma_bytes_at_split(d, c4, a4, r5);
    let c5: int = c4 + a4.len();
    lemma_bytes_at_split(d, c5, a5, r6);
    lemma_bytes_at_split(d, c5 + 2, a6, r7);
    lemma_bytes_at_split(d, c5 + 6, a7, r8);
    lemma_bytes_at_split(d, c5 + 8, a8, r9);
    lemma_bytes_at_split(d, c5 + 10, a9, r10);
    let c10: int = c5 + 10 + a9.len();
    lemma_bytes_at_split(d, c10, a10, a11);
}

proof fn lemma_led_sections(d: Seq<u8>, c5: int, active_mode: u32, leds: Seq<(Seq<u8>, u32)>, legacy: bool)
    requires
        leds.len() < 65536,
        short_led_names(leds),
        bytes_at(d, c5, le16_bytes(0)),
        bytes_at(d, c5 + 2, le32_bytes(active_mode)),
        bytes_at(d, c5 + 6, le16_bytes(0)),
        bytes_at(d, c5 + 8, le16_bytes(leds.len() as u16)),
        bytes_at(d, c5 + 10, led_fields(leds)),
    ensures
        spec_payload_sections(d, c5, legacy) == Ok::<int, PayloadError>(c5 + 10 + led_fields(leds).len()),
{
    let c7 = c5 + 6;
    let c8 = c5 + 8;
    let c9 = c5 + 10;
    lemma_read_u16_at(d, c5, 0);
    assert(spec_skip(d, c5 + 2, 4, if legacy { PayloadError::EofI32 } else { PayloadError::EofSkipBytes })
        == Ok::<int, PayloadError>(c7));
    assert(spec_skip_items(d, c7, 0, Section::Mode, legacy) == Ok::<int, PayloadError>(c7));
    lemma_read_u16_at(d, c7, 0);
    assert(spec_skip_items(d, c8, 0, Section::Zone, legacy) == Ok::<int, PayloadError>(c8));
    assert(spec_skip_section(d, c7, Section::Zone, legacy) == Ok::<int, PayloadError>(c8));
    lemma_read_u16_at(d, c8, leds.len() as u16);
    assert((leds.len() as u16) as nat == leds.len());
    lemma_led_fields_at(d, c9, leds, legacy);
    assert(spec_skip_section(d, c8, Section::Led, legacy) == Ok::<int, PayloadError>(c9 + led_fields(leds).len()));
}

#[verifier::spinoff_prover]
proof fn lemma_led_parse(
    d: Seq<u8>,
    index: u32,
    size: u32,
    device_type: u32,
    name: Seq<u8>,
    texts: Seq<Seq<u8>>,
    active_mode: u32,
    leds: Seq<(Seq<u8>, u32)>,
    colors: Seq<RgbColor>,
    legacy: bool,
)
    requires
        name.len() < 65536,
        texts.len() == 5,
        short_strings(texts),
        leds.len() < 65536,
        short_led_names(leds),
        colors.len() < 65536,
        led_layout_holds(d, size, device_type, name, texts, active_mode, leds, colors),
    ensures
        spec_device_payload(index, d, legacy) == Ok::<DeviceView, PayloadError>(
            DeviceView {
                index,
                device_type,
                name: field_text(name),
                num_leds: colors.len() as u16,
                initial_colors: colors,
            },
        ),
{
    let c4: int = 8int + string_field(name).len();
    let c5: int = c4 + string_fields(texts).len();
    let c10: int = c5 + 10 + led_fields(leds).len();
    lemma_read_u32_at(d, 0, size);
    lemma_read_u32_at(d, 4, device_type);
    lemma_string_at(d, 8, name, PayloadError::EofString);
    lemma_string_fields_at(d, c4, texts, legacy);
    assert(spec_payload_header(d, legacy) == Ok::<(u32, Seq<char>, int), PayloadError>(
        (device_type, field_text(name), c5),
    ));
    lemma_led_sections(d, c5, active_mode, leds, legacy);
    lemma_read_u16_at(d, c10, colors.len() as u16);
    assert((colors.len() as u16) as nat == colors.len());
    lemma_color_fields_at(d, c10 + 2, colors);
}

/// A payload laid out field by field reads back as what was written, for any
/// number of LEDs, by the current and the legacy reader: the device type and
/// name written, and as initial colors (and their count) exactly the colors
/// written after the LED records.
pub proof fn lemma_led_payload_reads_back(
    index: u32,
    size: u32,
    device_type: u32,
    name: Seq<u8>,
    texts: Seq<Seq<u8>>,
    active_mode: u32,
    leds: Seq<(Seq<u8>, u32)>,
    colors: Seq<RgbColor>,
    legacy: bool,
)
    requires
        name.len() < 65536,
        texts.len() == 5,
        short_strings(texts),
        leds.len() < 65536,
        short_led_names(leds),
        colors.len() < 65536,
    ensures
        spec_device_payload(index, led_payload(size, device_type, name, texts, active_mode, leds, colors), legacy)
            == Ok::<DeviceView, PayloadError>(
            DeviceView {
                index,
                device_type,
                name: field_text(name),
                num_leds: colors.len() as u16,
                initial_colors: colors,
            },
        ),
{
    lemma_led_layout(size, device_type, name, texts, active_mode, leds, colors);
    lemma_led_parse(
        led_payload(size, device_type, name, texts, active_mode, leds, colors),
        index,
        size,
        device_type,
        name,
        texts,
        active_mode,
        leds,
        colors,
        legacy,
    );
}

} // verus!
