//! The byte layout of an OpenRGB controller-data payload, as a specification
//! and as verified readers over a byte slice with an explicit cursor.
use vstd::prelude::*;

verus! {

/// Why a controller-data payload could not be read: the data ended before
/// the named field.
#[derive(Clone, Copy, Debug, PartialEq, Eq, Structural)]
pub enum PayloadError {
    EofU16,
    EofU32,
    EofI32,
    EofString,
    EofSkipBytes,
    EofSkipString,
    EofModeColors,
    EofZoneMatrix,
    EofColors,
}

impl PayloadError {
    /// The text the payload readers report for this error.
    pub open spec fn text(self) -> Seq<char> {
        match self {
            PayloadError::EofU16 => "EOF u16"@,
            PayloadError::EofU32 => "EOF u32"@,
            PayloadError::EofI32 => "EOF i32"@,
            PayloadError::EofString => "EOF String"@,
            PayloadError::EofSkipBytes => "EOF skip_bytes"@,
            PayloadError::EofSkipString => "EOF skip_string"@,
            PayloadError::EofModeColors => "EOF Mode Colors"@,
            PayloadError::EofZoneMatrix => "EOF Zone Matrix"@,
            PayloadError::EofColors => "EOF Colors"@,
        }
    }

    /// The text the payload readers report for this error.
    pub fn message(&self) -> (m: &'static str)
        ensures
            m@ == self.text(),
    {
        match self {
            PayloadError::EofU16 => "EOF u16",
            PayloadError::EofU32 => "EOF u32",
            PayloadError::EofI32 => "EOF i32",
            PayloadError::EofString => "EOF String",
            PayloadError::EofSkipBytes => "EOF skip_bytes",
            PayloadError::EofSkipString => "EOF skip_string",
            PayloadError::EofModeColors => "EOF Mode Colors",
            PayloadError::EofZoneMatrix => "EOF Zone Matrix",
            PayloadError::EofColors => "EOF Colors",
        }
    }
}

/// The characters that `String::from_utf8_lossy` makes of a byte sequence.
pub uninterp spec fn utf8_lossy(bytes: Seq<u8>) -> Seq<char>;

/// Decodes bytes as UTF-8, replacing invalid sequences
/// (`String::from_utf8_lossy`). The contract claims that the result is
/// `utf8_lossy` of the bytes, a function of the bytes alone, and that valid
/// UTF-8 is decoded as it stands; how invalid sequences are replaced is left
/// unstated.
#[verifier::external_body]
pub fn string_from_utf8_lossy(bytes: &[u8]) -> (s: String)
    ensures
        s@ == utf8_lossy(bytes@),
        vstd::utf8::valid_utf8(bytes@) ==> s@ == vstd::utf8::decode_utf8(bytes@),
{
    String::from_utf8_lossy(bytes).into_owned()
}

/// Little-endian `u16` at position `c`.
pub open spec fn le_u16(d: Seq<u8>, c: int) -> u16 {
    (d[c] as int + d[c + 1] as int * 256) as u16
}

/// Little-endian `u32` at position `c`.
pub open spec fn le_u32(d: Seq<u8>, c: int) -> u32 {
    (d[c] as int + d[c + 1] as int * 256 + d[c + 2] as int * 65536 + d[c + 3] as int
        * 16777216) as u32
}

/// Reads a little-endian `u16` at `c`.
pub open spec fn spec_read_u16(d: Seq<u8>, c: int) -> Result<(u16, int), PayloadError> {
    if c + 2 > d.len() {
        Err(PayloadError::EofU16)
    } else {
        Ok((le_u16(d, c), c + 2))
    }
}

/// Reads a little-endian `u32` at `c`.
pub open spec fn spec_read_u32(d: Seq<u8>, c: int) -> Result<(u32, int), PayloadError> {
    if c + 4 > d.len() {
        Err(PayloadError::EofU32)
    } else {
        Ok((le_u32(d, c), c + 4))
    }
}

/// Moves the cursor over `n` bytes, failing with `e` when fewer remain.
pub open spec fn spec_skip(d: Seq<u8>, c: int, n: int, e: PayloadError) -> Result<int, PayloadError> {
    if c + n > d.len() {
        Err(e)
    } else {
        Ok(c + n)
    }
}

/// Moves the cursor over a length-prefixed string, failing with `e` when its
/// bytes run past the end.
pub open spec fn spec_skip_string(d: Seq<u8>, c: int, e: PayloadError) -> Result<int, PayloadError> {
    match spec_read_u16(d, c) {
        Err(err) => Err(err),
        Ok((len, c1)) => spec_skip(d, c1, len as int, e),
    }
}

/// A string's bytes without one trailing NUL.
pub open spec fn without_nul(b: Seq<u8>) -> Seq<u8> {
    if b.len() > 0 && b.last() == 0 {
        b.drop_last()
    } else {
        b
    }
}

/// Reads a length-prefixed string; one trailing NUL is not part of it.
pub open spec fn spec_read_string(d: Seq<u8>, c: int) -> Result<(Seq<char>, int), PayloadError> {
    match spec_read_u16(d, c) {
        Err(err) => Err(err),
        Ok((len, c1)) => if len == 0 {
            Ok((Seq::<char>::empty(), c1))
        } else if c1 + len > d.len() {
            Err(PayloadError::EofString)
        } else {
            Ok((utf8_lossy(without_nul(d.subrange(c1, c1 + len))), c1 + len))
        },
    }
}

/// The cursor of an exec reader agrees with the cursor of the specification.
pub open spec fn same_cursor(r: Result<usize, PayloadError>, s: Result<int, PayloadError>) -> bool {
    match r {
        Ok(c) => s == Ok::<int, PayloadError>(c as int),
        Err(e) => s == Err::<int, PayloadError>(e),
    }
}

/// Same as `same_cursor`, for readers that also give back a value.
pub open spec fn same_read<T>(r: Result<(T, usize), PayloadError>, s: Result<(T, int), PayloadError>) -> bool {
    match r {
        Ok((v, c)) => s == Ok::<(T, int), PayloadError>((v, c as int)),
        Err(e) => s == Err::<(T, int), PayloadError>(e),
    }
}

/// Reads a little-endian `u16` at `cur`.
pub fn read_u16(data: &[u8], cur: usize) -> (r: Result<(u16, usize), PayloadError>)
    requires
        cur <= data.len(),
    ensures
        same_read(r, spec_read_u16(data@, cur as int)),
        r matches Ok((_, c)) ==> c <= data.len(),
{
    if data.len() - cur < 2 {
        return Err(PayloadError::EofU16);
    }
    let v: u16 = data[cur] as u16 + (data[cur + 1] as u16) * 256;
    Ok((v, cur + 2))
}

/// Reads a little-endian `u32` at `cur`.
pub fn read_u32(data: &[u8], cur: usize) -> (r: Result<(u32, usize), PayloadError>)
    requires
        cur <= data.len(),
    ensures
        same_read(r, spec_read_u32(data@, cur as int)),
        r matches Ok((_, c)) ==> c <= data.len(),
{
    if data.len() - cur < 4 {
        return Err(PayloadError::EofU32);
    }
    let v: u32 = data[cur] as u32 + (data[cur + 1] as u32) * 256 + (data[cur + 2] as u32) * 65536
        + (data[cur + 3] as u32) * 16777216;
    Ok((v, cur + 4))
}

/// Moves the cursor over `n` bytes.
pub fn skip(data: &[u8], cur: usize, n: usize, e: PayloadError) -> (r: Result<usize, PayloadError>)
    requires
        cur <= data.len(),
    ensures
        same_cursor(r, spec_skip(data@, cur as int, n as int, e)),
        r matches Ok(c) ==> c <= data.len(),
{
    if n > data.len() - cur {
        return Err(e);
    }
    Ok(cur + n)
}

/// Moves the cursor over a length-prefixed string.
pub fn skip_string(data: &[u8], cur: usize, e: PayloadError) -> (r: Result<usize, PayloadError>)
    requires
        cur <= data.len(),
    ensures
        same_cursor(r, spec_skip_string(data@, cur as int, e)),
        r matches Ok(c) ==> c <= data.len(),
{
    let (len, c1) = match read_u16(data, cur) {
        Ok(p) => p,
        Err(err) => return Err(err),
    };
    skip(data, c1, len as usize, e)
}

/// Reads a length-prefixed string, dropping one trailing NUL.
pub fn read_string(data: &[u8], cur: usize) -> (r: Result<(String, usize), PayloadError>)
    requires
        cur <= data.len(),
    ensures
        match spec_read_string(data@, cur as int) {
            Ok((s, c)) => r matches Ok((rs, rc)) && rs@ == s && rc == c,
            Err(e) => r == Err::<(String, usize), PayloadError>(e),
        },
        r matches Ok((_, c)) ==> c <= data.len(),
{
    let (len16, c1) = match read_u16(data, cur) {
        Ok(p) => p,
        Err(err) => return Err(err),
    };
    let len = len16 as usize;
    if len == 0 {
        return Ok((String::new(), c1));
    }
    if len > data.len() - c1 {
        return Err(PayloadError::EofString);
    }
    let bytes = &data[c1..c1 + len];
    let clean_len = if bytes[len - 1] == 0 { len - 1 } else { len };
    let clean = &bytes[0..clean_len];
    proof {
        assert(clean@ == without_nul(data@.subrange(c1 as int, c1 + len)));
    }
    let s = string_from_utf8_lossy(clean);
    Ok((s, c1 + len))
}

} // verus!
