//! Requests to an OpenRGB server and the checks made on its replies.
use vstd::prelude::*;
use super::protocol::RgbColor;
use super::wire::le_u32;
use vstd::string::StringSliceAdditionalSpecFns;

verus! {

/// The four bytes that open every OpenRGB packet: "ORGB".
pub const OPENRGB_MAGIC: [u8; 4] = [79u8, 82u8, 71u8, 66u8];
pub const OPENRGB_DEFAULT_PORT: u16 = 6742;
pub const CMD_GET_CONTROLLER_COUNT: u32 = 0;
pub const CMD_GET_CONTROLLER_DATA: u32 = 1;
pub const CMD_GET_PROTOCOL_VERSION: u32 = 40;
pub const CMD_SET_CLIENT_NAME: u32 = 50;
pub const CMD_LOAD_PROFILE: u32 = 150;
pub const CMD_SET_LAYER_COLORS: u32 = 1050;
pub const HEADER_SIZE: usize = 16;
pub const MAX_PAYLOAD_SIZE: u32 = 10485760;
pub const MODE_FIXED_FIELDS_SIZE: usize = 36;
pub const ZONE_FIXED_FIELDS_SIZE: usize = 16;
/// The device index that addresses the server rather than one controller.
pub const GLOBAL_DEVICE_INDEX: u32 = 4294967295;

/// The magic bytes as a sequence.
pub open spec fn magic() -> Seq<u8> {
    seq![79u8, 82u8, 71u8, 66u8]
}

/// Little-endian bytes of a `u16`.
pub open spec fn le16_bytes(v: u16) -> Seq<u8> {
    seq![(v % 256) as u8, (v / 256) as u8]
}

/// Little-endian bytes of a `u32`.
pub open spec fn le32_bytes(v: u32) -> Seq<u8> {
    seq![
        (v % 256) as u8,
        ((v / 256) % 256) as u8,
        ((v / 65536) % 256) as u8,
        (v / 16777216) as u8,
    ]
}

/// The 16-byte header of a packet: magic, device index, command, payload length.
pub open spec fn packet_header(device_index: u32, command: u32, payload_len: u32) -> Seq<u8> {
    magic() + le32_bytes(device_index) + le32_bytes(command) + le32_bytes(payload_len)
}

/// Appends the little-endian bytes of `v`.
pub fn push_u32_le(out: &mut Vec<u8>, v: u32)
    ensures
        final(out)@ == old(out)@ + le32_bytes(v),
{
    out.push((v % 256) as u8);
    out.push(((v / 256) % 256) as u8);
    out.push(((v / 65536) % 256) as u8);
    out.push((v / 16777216) as u8);
}

/// Appends the little-endian bytes of `v`.
pub fn push_u16_le(out: &mut Vec<u8>, v: u16)
    ensures
        final(out)@ == old(out)@ + le16_bytes(v),
{
    out.push((v % 256) as u8);
    out.push((v / 256) as u8);
}

/// Appends all of `bytes`.
pub fn push_bytes(out: &mut Vec<u8>, bytes: &[u8])
    ensures
        final(out)@ == old(out)@ + bytes@,
{
    for i in 0..bytes.len()
        invariant
            out@ == old(out)@ + bytes@.take(i as int),
    {
        out.push(bytes[i]);
        assert(bytes@.take(i + 1) == bytes@.take(i as int).push(bytes@[i as int]));
    }
    assert(bytes@.take(bytes.len() as int) == bytes@);
}

/// Builds the header of a packet.
pub fn build_header(device_index: u32, command: u32, payload_len: u32) -> (h: Vec<u8>)
    ensures
        h@ == packet_header(device_index, command, payload_len),
        h@.len() == HEADER_SIZE,
{
    let mut h: Vec<u8> = Vec::new();
    h.push(79u8);
    h.push(82u8);
    h.push(71u8);
    h.push(66u8);
    push_u32_le(&mut h, device_index);
    push_u32_le(&mut h, command);
    push_u32_le(&mut h, payload_len);
    assert(h@ == packet_header(device_index, command, payload_len));
    h
}

/// A header followed by its payload; the length field is the payload length
/// modulo 2^32.
pub open spec fn packet(device_index: u32, command: u32, payload: Seq<u8>) -> Seq<u8> {
    packet_header(device_index, command, (payload.len() % 4294967296) as u32) + payload
}

/// Builds a packet from its payload.
pub fn build_packet(device_index: u32, command: u32, payload: &Vec<u8>) -> (p: Vec<u8>)
    ensures
        p@ == packet(device_index, command, payload@),
{
    let len = (payload.len() as u64 % 4294967296) as u32;
    let mut p = build_header(device_index, command, len);
    push_bytes(&mut p, payload.as_slice());
    p
}

/// The request for the server's protocol version (this client speaks version 1).
pub fn protocol_version_request() -> (p: Vec<u8>)
    ensures
        p@ == packet(0, CMD_GET_PROTOCOL_VERSION, le32_bytes(1)),
{
    let mut payload: Vec<u8> = Vec::new();
    push_u32_le(&mut payload, 1);
    build_packet(0, CMD_GET_PROTOCOL_VERSION, &payload)
}

/// A name as sent to the server: its bytes, with a NUL added unless the last
/// byte already is one.
pub open spec fn nul_terminated(name: Seq<u8>) -> Seq<u8> {
    if name.len() > 0 && name.last() == 0 {
        name
    } else {
        name.push(0)
    }
}

/// A length-prefixed byte string; the length is the byte count modulo 2^16.
pub open spec fn counted_bytes(b: Seq<u8>) -> Seq<u8> {
    le16_bytes((b.len() % 65536) as u16) + b
}

fn counted_payload(b: &Vec<u8>) -> (p: Vec<u8>)
    ensures
        p@ == counted_bytes(b@),
{
    let mut p: Vec<u8> = Vec::new();
    push_u16_le(&mut p, (b.len() as u64 % 65536) as u16);
    push_bytes(&mut p, b.as_slice());
    p
}

/// The request that tells the server the client's name.
pub fn client_name_request(name: &str) -> (p: Vec<u8>)
    ensures
        p@ == packet(0, CMD_SET_CLIENT_NAME, counted_bytes(nul_terminated(name.spec_bytes()))),
{
    let bytes = name.as_bytes();
    let mut b: Vec<u8> = Vec::new();
    push_bytes(&mut b, bytes);
    if !(b.len() > 0 && b[b.len() - 1] == 0) {
        b.push(0);
    }
    let payload = counted_payload(&b);
    build_packet(0, CMD_SET_CLIENT_NAME, &payload)
}

/// The request for the number of controllers.
pub fn controller_count_request() -> (p: Vec<u8>)
    ensures
        p@ == packet_header(0, CMD_GET_CONTROLLER_COUNT, 0),
{
    build_header(0, CMD_GET_CONTROLLER_COUNT, 0)
}

/// The request for the data of controller `index` (protocol version 1).
pub fn controller_data_request(index: u32) -> (p: Vec<u8>)
    ensures
        p@ == packet(index, CMD_GET_CONTROLLER_DATA, le32_bytes(1)),
{
    let mut payload: Vec<u8> = Vec::new();
    push_u32_le(&mut payload, 1);
    build_packet(index, CMD_GET_CONTROLLER_DATA, &payload)
}

/// The four bytes of one LED color: red, green, blue, padding.
pub open spec fn color_bytes(c: RgbColor) -> Seq<u8> {
    seq![c.r, c.g, c.b, 0u8]
}

/// The color bytes of a list of colors, in order.
pub open spec fn colors_bytes(cs: Seq<RgbColor>) -> Seq<u8>
    decreases cs.len(),
{
    if cs.len() == 0 {
        Seq::empty()
    } else {
        colors_bytes(cs.drop_last()) + color_bytes(cs.last())
    }
}

/// The payload that sets the LEDs of a device: total size, color count (both
/// computed from the count modulo 2^16), then every color.
pub open spec fn leds_payload(cs: Seq<RgbColor>) -> Seq<u8> {
    let n = (cs.len() % 65536) as u16;
    le32_bytes((4 + 2 + n as int * 4) as u32) + le16_bytes(n) + colors_bytes(cs)
}

/// Builds the payload that sets the LEDs of a device.
pub fn leds_payload_bytes(colors: &[RgbColor]) -> (p: Vec<u8>)
    ensures
        p@ == leds_payload(colors@),
{
    let n: u16 = (colors.len() as u64 % 65536) as u16;
    let mut p: Vec<u8> = Vec::new();
    push_u32_le(&mut p, 4 + 2 + n as u32 * 4);
    push_u16_le(&mut p, n);
    let ghost prefix = p@;
    for i in 0..colors.len()
        invariant
            p@ == prefix + colors_bytes(colors@.take(i as int)),
    {
        let c = colors[i];
        p.push(c.r);
        p.push(c.g);
        p.push(c.b);
        p.push(0u8);
        assert(colors@.take(i + 1).drop_last() == colors@.take(i as int));
    }
    assert(colors@.take(colors.len() as int) == colors@);
    p
}

/// The request that sets the LEDs of device `device_index`.
pub fn update_leds_request(device_index: u32, colors: &[RgbColor]) -> (p: Vec<u8>)
    ensures
        p@ == packet(device_index, CMD_SET_LAYER_COLORS, leds_payload(colors@)),
{
    let payload = leds_payload_bytes(colors);
    build_packet(device_index, CMD_SET_LAYER_COLORS, &payload)
}

/// The request that makes the server load a saved profile.
pub fn load_profile_request(profile: &str) -> (p: Vec<u8>)
    ensures
        p@ == packet(GLOBAL_DEVICE_INDEX, CMD_LOAD_PROFILE, counted_bytes(profile.spec_bytes())),
{
    let mut b: Vec<u8> = Vec::new();
    push_bytes(&mut b, profile.as_bytes());
    let payload = counted_payload(&b);
    build_packet(GLOBAL_DEVICE_INDEX, CMD_LOAD_PROFILE, &payload)
}

/// Why a reply from the server was refused.
#[derive(Clone, Copy, Debug, PartialEq, Eq, Structural)]
pub enum ReplyError {
    /// The reply did not start with "ORGB".
    InvalidMagic,
    /// The reply announced a payload above `MAX_PAYLOAD_SIZE`.
    PayloadTooLarge,
}

/// Whether a reply header starts with the magic bytes.
pub open spec fn has_magic(h: Seq<u8>) -> bool {
    h.take(4) == magic()
}

/// The payload length announced by a 16-byte reply header.
pub open spec fn announced_size(h: Seq<u8>) -> u32 {
    le_u32(h, 12)
}

/// Reads the payload length from a reply header.
pub fn reply_payload_size(header: &[u8]) -> (n: u32)
    requires
        header@.len() == HEADER_SIZE,
    ensures
        n == announced_size(header@),
{
    header[12] as u32 + (header[13] as u32) * 256 + (header[14] as u32) * 65536 + (header[15] as u32)
        * 16777216
}

/// Whether a reply header carries the magic bytes.
pub fn reply_has_magic(header: &[u8]) -> (b: bool)
    requires
        header@.len() == HEADER_SIZE,
    ensures
        b == has_magic(header@),
{
    let ok = header[0] == 79u8 && header[1] == 82u8 && header[2] == 71u8 && header[3] == 66u8;
    proof {
        if ok {
            assert(header@.take(4) == magic());
        } else {
            assert(header@.take(4)[0] == header@[0]);
            assert(header@.take(4)[1] == header@[1]);
            assert(header@.take(4)[2] == header@[2]);
            assert(header@.take(4)[3] == header@[3]);
        }
    }
    ok
}

/// Checks the reply to the protocol-version request: it must carry the magic
/// bytes and announce at most `MAX_PAYLOAD_SIZE` bytes, which it gives back.
pub fn check_version_reply(header: &[u8]) -> (r: Result<u32, ReplyError>)
    requires
        header@.len() == HEADER_SIZE,
    ensures
        !has_magic(header@) ==> r == Err::<u32, ReplyError>(ReplyError::InvalidMagic),
        has_magic(header@) && announced_size(header@) > MAX_PAYLOAD_SIZE ==> r == Err::<
            u32,
            ReplyError,
        >(ReplyError::PayloadTooLarge),
        has_magic(header@) && announced_size(header@) <= MAX_PAYLOAD_SIZE ==> r == Ok::<
            u32,
            ReplyError,
        >(announced_size(header@)),
{
    if !reply_has_magic(header) {
        return Err(ReplyError::InvalidMagic);
    }
    let size = reply_payload_size(header);
    if size > MAX_PAYLOAD_SIZE {
        return Err(ReplyError::PayloadTooLarge);
    }
    Ok(size)
}

/// Checks the reply to a controller-data request: it must announce at most
/// `MAX_PAYLOAD_SIZE` bytes, which it gives back. (The magic is not checked.)
pub fn check_device_reply(header: &[u8]) -> (r: Result<u32, ReplyError>)
    requires
        header@.len() == HEADER_SIZE,
    ensures
        announced_size(header@) > MAX_PAYLOAD_SIZE ==> r == Err::<u32, ReplyError>(
            ReplyError::PayloadTooLarge,
        ),
        announced_size(header@) <= MAX_PAYLOAD_SIZE ==> r == Ok::<u32, ReplyError>(
            announced_size(header@),
        ),
{
    let size = reply_payload_size(header);
    if size > MAX_PAYLOAD_SIZE {
        return Err(ReplyError::PayloadTooLarge);
    }
    Ok(size)
}

/// The controller count carried by the reply to a count request: the 4-byte
/// payload when the reply announced exactly 4 bytes, zero otherwise.
pub fn controller_count(announced: u32, payload: &[u8]) -> (n: u32)
    requires
        announced == 4 ==> payload@.len() == 4,
    ensures
        n == (if announced == 4 { le_u32(payload@, 0) } else { 0 }),
{
    if announced == 4 {
        payload[0] as u32 + (payload[1] as u32) * 256 + (payload[2] as u32) * 65536 + (payload[3] as u32)
            * 16777216
    } else {
        0
    }
}

/// Reading a header back gives the payload length it was built with.
pub proof fn lemma_header_roundtrip(device_index: u32, command: u32, payload_len: u32)
    ensures
        has_magic(packet_header(device_index, command, payload_len)),
        announced_size(packet_header(device_index, command, payload_len)) == payload_len,
        le_u32(packet_header(device_index, command, payload_len), 4) == device_index,
        le_u32(packet_header(device_index, command, payload_len), 8) == command,
{
    let h = packet_header(device_index, command, payload_len);
    assert(h.take(4) == magic());
    lemma_le32_roundtrip(device_index);
    lemma_le32_roundtrip(command);
    lemma_le32_roundtrip(payload_len);
    assert(h.subrange(4, 8) == le32_bytes(device_index));
}

pub(crate) proof fn lemma_le32_roundtrip(v: u32)
    ensures
        le_u32(le32_bytes(v), 0) == v,
{
    let b = le32_bytes(v);
    assert(b[0] as int == v % 256);
    assert(b[1] as int == (v / 256) % 256);
    assert(b[2] as int == (v / 65536) % 256);
    assert(b[3] as int == v / 16777216);
}

} // verus!
