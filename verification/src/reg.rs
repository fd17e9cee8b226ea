//! A registry kept as lines of text, for hosts without a Windows registry.
//!
//! Each value is one line `<hive>::<path>::<key>=<type>:<value>`, with the path
//! and key lowercased; the type is `S` (string), `D` (32-bit number in decimal)
//! or `B` (bytes in lowercase hex). The first line whose start matches a value's
//! prefix holds that value. Reading and writing the file itself happen outside
//! the library; `RegistryStore` holds its lines.
use vstd::prelude::*;
use crate::text::{
    str_chars, string_from_chars, extend_with_str, extend_with, push_idecimal, push_decimal,
    has_prefix, starts_with, idecimal, decimal, lowercase, to_lowercase, parse_unsigned,
    parse_unsigned_chars, trim, trim_start, trim_end, trim_chars, lemma_parse_decimal, lemma_decimal_digits,
    is_digit,
};

verus! {

/// A registry root.
pub type HKEY = isize;

pub const HKEY_CLASSES_ROOT: HKEY = 0;
pub const HKEY_CURRENT_USER: HKEY = 1;
pub const HKEY_LOCAL_MACHINE: HKEY = 2;
pub const HKEY_USERS: HKEY = 3;

/// The start of the line of a value: `<hive>::<path>::<key>=`.
pub open spec fn entry_prefix(hive: int, path: Seq<char>, key: Seq<char>) -> Seq<char> {
    idecimal(hive) + "::"@ + lowercase(path) + "::"@ + lowercase(key) + "="@
}

/// The start of every line of a path: `<hive>::<path>::`.
pub open spec fn path_prefix(hive: int, path: Seq<char>) -> Seq<char> {
    idecimal(hive) + "::"@ + lowercase(path) + "::"@
}

/// The type and text of a value part `<type>:<value>`; the type must be one
/// ASCII character.
pub open spec fn value_part(v: Seq<char>) -> Option<(char, Seq<char>)> {
    if v.len() >= 2 && (v[0] as u32) < 128 && v[1] == ':' {
        Some((v[0], v.skip(2)))
    } else {
        None
    }
}

/// The value stored under `prefix`: the first line that starts with it and has
/// a well-formed value part.
pub open spec fn find_entry(lines: Seq<Seq<char>>, prefix: Seq<char>) -> Option<(char, Seq<char>)>
    decreases lines.len(),
{
    if lines.len() == 0 {
        None
    } else if starts_with(lines[0], prefix) && value_part(lines[0].skip(prefix.len() as int)) is Some {
        value_part(lines[0].skip(prefix.len() as int))
    } else {
        find_entry(lines.drop_first(), prefix)
    }
}

/// The lines after `new_line` replaces the first line that starts with
/// `prefix`, or is added at the end when none does.
pub open spec fn upsert(lines: Seq<Seq<char>>, prefix: Seq<char>, new_line: Seq<char>) -> Seq<Seq<char>>
    decreases lines.len(),
{
    if lines.len() == 0 {
        seq![new_line]
    } else if starts_with(lines[0], prefix) {
        seq![new_line] + lines.drop_first()
    } else {
        seq![lines[0]] + upsert(lines.drop_first(), prefix, new_line)
    }
}

/// The lines that do not start with `prefix`.
pub open spec fn remove_prefixed(lines: Seq<Seq<char>>, prefix: Seq<char>) -> Seq<Seq<char>>
    decreases lines.len(),
{
    if lines.len() == 0 {
        Seq::empty()
    } else if starts_with(lines[0], prefix) {
        remove_prefixed(lines.drop_first(), prefix)
    } else {
        seq![lines[0]] + remove_prefixed(lines.drop_first(), prefix)
    }
}

/// The position of the first `c` in `s`, or the length of `s` when there is none.
pub open spec fn first_index(s: Seq<char>, c: char) -> int
    decreases s.len(),
{
    if s.len() == 0 {
        0
    } else if s[0] == c {
        0
    } else {
        1 + first_index(s.drop_first(), c)
    }
}

/// The (key, value) of one line of a path listing, when the line is a string value.
pub open spec fn listed(line: Seq<char>, prefix: Seq<char>) -> Option<(Seq<char>, Seq<char>)> {
    if !starts_with(line, prefix) {
        None
    } else {
        let rest = line.skip(prefix.len() as int);
        let idx = first_index(rest, '=');
        if idx >= rest.len() {
            None
        } else {
            match value_part(rest.skip(idx + 1)) {
                Some((t, v)) => if t == 'S' { Some((rest.take(idx), v)) } else { None },
                None => None,
            }
        }
    }
}

/// The string values listed under a path prefix, in line order.
pub open spec fn list_entries(lines: Seq<Seq<char>>, prefix: Seq<char>) -> Seq<(Seq<char>, Seq<char>)>
    decreases lines.len(),
{
    if lines.len() == 0 {
        Seq::empty()
    } else {
        (match listed(lines[0], prefix) {
            Some(kv) => seq![kv],
            None => Seq::empty(),
        }) + list_entries(lines.drop_first(), prefix)
    }
}

/// The lowercase hex digit of `d < 16`.
pub open spec fn hex_digit(d: nat) -> char {
    if d < 10 {
        ((d + 48) as u32) as char
    } else {
        ((d + 87) as u32) as char
    }
}

/// Two lowercase hex digits per byte (`format!("{:02x}")`).
pub open spec fn hex_encode(b: Seq<u8>) -> Seq<char>
    decreases b.len(),
{
    if b.len() == 0 {
        Seq::empty()
    } else {
        hex_encode(b.drop_last()) + seq![hex_digit(b.last() as nat / 16), hex_digit(b.last() as nat % 16)]
    }
}

/// Whether `c` is a hex digit of either case.
pub open spec fn is_hex(c: char) -> bool {
    ('0' <= c <= '9') || ('a' <= c <= 'f') || ('A' <= c <= 'F')
}

/// The value of a hex digit.
pub open spec fn hex_value(c: char) -> nat {
    if '0' <= c <= '9' {
        (c as nat - 48) as nat
    } else if 'a' <= c <= 'f' {
        (c as nat - 87) as nat
    } else {
        (c as nat - 55) as nat
    }
}

/// What `u8::from_str_radix(_, 16)` gives for two characters: two hex digits,
/// or `+` and one hex digit.
pub open spec fn hex_pair(c1: char, c2: char) -> Option<u8> {
    if is_hex(c1) && is_hex(c2) {
        Some((hex_value(c1) * 16 + hex_value(c2)) as u8)
    } else if c1 == '+' && is_hex(c2) {
        Some(hex_value(c2) as u8)
    } else {
        None
    }
}

/// The bytes of a hex text read two characters at a time; a pair that is not
/// a number is left out, and so is a last character without a partner.
pub open spec fn hex_decode(s: Seq<char>) -> Seq<u8>
    decreases s.len(),
{
    if s.len() < 2 {
        Seq::empty()
    } else {
        (match hex_pair(s[0], s[1]) {
            Some(b) => seq![b],
            None => Seq::empty(),
        }) + hex_decode(s.skip(2))
    }
}

/// The lines of a text-file registry.
pub struct RegistryStore {
    pub lines: Vec<String>,
}

impl View for RegistryStore {
    type V = Seq<Seq<char>>;

    open spec fn view(&self) -> Seq<Seq<char>> {
        self.lines@.map_values(|l: String| l@)
    }
}

/// Builds the start of the line of a value.
pub fn make_entry_prefix(hive: HKEY, path: &str, key: &str) -> (p: Vec<char>)
    ensures
        p@ == entry_prefix(hive as int, path@, key@),
{
    let mut p: Vec<char> = Vec::new();
    push_idecimal(&mut p, hive);
    extend_with_str(&mut p, "::");
    let lp = to_lowercase(path);
    extend_with_str(&mut p, lp.as_str());
    extend_with_str(&mut p, "::");
    let lk = to_lowercase(key);
    extend_with_str(&mut p, lk.as_str());
    extend_with_str(&mut p, "=");
    p
}

/// Builds the start of every line of a path.
pub fn make_path_prefix(hive: HKEY, path: &str) -> (p: Vec<char>)
    ensures
        p@ == path_prefix(hive as int, path@),
{
    let mut p: Vec<char> = Vec::new();
    push_idecimal(&mut p, hive);
    extend_with_str(&mut p, "::");
    let lp = to_lowercase(path);
    extend_with_str(&mut p, lp.as_str());
    extend_with_str(&mut p, "::");
    p
}

fn value_part_exec(v: &Vec<char>, start: usize) -> (r: Option<(char, Vec<char>)>)
    requires
        start <= v.len(),
    ensures
        match value_part(v@.skip(start as int)) {
            Some((t, s)) => r matches Some((rt, rs)) && rt == t && rs@ == s,
            None => r is None,
        },
{
    let ghost w = v@.skip(start as int);
    if v.len() - start >= 2 && (v[start] as u32) < 128 && v[start + 1] == ':' {
        let mut out: Vec<char> = Vec::new();
        let mut k = start + 2;
        while k < v.len()
            invariant
                start + 2 <= k <= v.len(),
                out@ == v@.subrange(start + 2, k as int),
            decreases v.len() - k,
        {
            out.push(v[k]);
            assert(v@.subrange(start + 2, k + 1) == v@.subrange(start + 2, k as int).push(v@[k as int]));
            k = k + 1;
        }
        assert(w.skip(2) == v@.subrange(start + 2, v.len() as int));
        Some((v[start], out))
    } else {
        None
    }
}

impl RegistryStore {
    /// A registry with no values.
    pub fn new() -> (s: Self)
        ensures
            s@ == Seq::<Seq<char>>::empty(),
    {
        RegistryStore { lines: Vec::new() }
    }

    /// The registry made of the given lines.
    pub fn from_lines(lines: Vec<String>) -> (s: Self)
        ensures
            s.lines@ == lines@,
    {
        RegistryStore { lines }
    }

    /// Looks up the type and text of the value stored under `prefix`.
    pub fn find(&self, prefix: &Vec<char>) -> (r: Option<(char, String)>)
        ensures
            match find_entry(self@, prefix@) {
                Some((t, v)) => r matches Some((rt, rv)) && rt == t && rv@ == v,
                None => r is None,
            },
    {
        let ghost all = self@;
        assert(all.skip(0) == all);
        for i in 0..self.lines.len()
            invariant
                all == self@,
                all.len() == self.lines.len(),
                find_entry(all, prefix@) == find_entry(all.skip(i as int), prefix@),
        {
            let line = str_chars(self.lines[i].as_str());
            assert(all.skip(i as int)[0] == line@);
            assert(all.skip(i as int).drop_first() == all.skip(i + 1));
            if has_prefix(&line, prefix) {
                let r = value_part_exec(&line, prefix.len());
                match r {
                    Some((t, v)) => {
                        return Some((t, string_from_chars(&v)));
                    },
                    None => {},
                }
            }
        }
        None
    }

    /// Stores `val` with type `vtype` under `prefix`.
    pub fn put(&mut self, prefix: &Vec<char>, vtype: char, val: &str)
        ensures
            final(self)@ == upsert(old(self)@, prefix@, prefix@ + seq![vtype, ':'] + val@),
    {
        let mut line: Vec<char> = Vec::new();
        extend_with(&mut line, prefix);
        line.push(vtype);
        line.push(':');
        extend_with_str(&mut line, val);
        assert(line@ == prefix@ + seq![vtype, ':'] + val@);
        let new_line = string_from_chars(&line);
        let ghost all = self@;
        let ghost nl = new_line@;
        let mut out: Vec<String> = Vec::new();
        let mut found = false;
        assert(all.skip(0) == all);
        assert(out@.map_values(|l: String| l@) + upsert(all, prefix@, nl) == upsert(all, prefix@, nl));
        for i in 0..self.lines.len()
            invariant
                all == self@,
                all.len() == self.lines.len(),
                nl == new_line@,
                !found ==> upsert(all, prefix@, nl) == out@.map_values(|l: String| l@) + upsert(
                    all.skip(i as int),
                    prefix@,
                    nl,
                ),
                found ==> upsert(all, prefix@, nl) == out@.map_values(|l: String| l@) + all.skip(
                    i as int,
                ),
        {
            let line_chars = str_chars(self.lines[i].as_str());
            assert(all.skip(i as int)[0] == line_chars@);
            assert(all.skip(i as int).drop_first() == all.skip(i + 1));
            let ghost before = out@.map_values(|l: String| l@);
            if !found && has_prefix(&line_chars, prefix) {
                out.push(new_line.clone());
                found = true;
                assert(out@.map_values(|l: String| l@) == before.push(nl));
                assert(before + (seq![nl] + all.skip(i + 1)) == before.push(nl) + all.skip(i + 1));
            } else {
                out.push(self.lines[i].clone());
                assert(out@.map_values(|l: String| l@) == before.push(line_chars@));
                assert(before + (seq![line_chars@] + all.skip(i + 1)) == before.push(line_chars@)
                    + all.skip(i + 1));
                if found {
                    assert(all.skip(i as int) == seq![line_chars@] + all.skip(i + 1));
                } else {
                    assert(upsert(all.skip(i as int), prefix@, nl) == seq![line_chars@] + upsert(
                        all.skip(i + 1),
                        prefix@,
                        nl,
                    ));
                }
            }
        }
        assert(all.skip(all.len() as int) == Seq::<Seq<char>>::empty());
        assert(out@.map_values(|l: String| l@) + Seq::<Seq<char>>::empty() == out@.map_values(
            |l: String| l@,
        ));
        if !found {
            let ghost before = out@.map_values(|l: String| l@);
            out.push(new_line);
            assert(out@.map_values(|l: String| l@) == before.push(nl));
        }
        self.lines = out;
    }

    /// Removes every line that starts with `prefix`.
    pub fn remove(&mut self, prefix: &Vec<char>)
        ensures
            final(self)@ == remove_prefixed(old(self)@, prefix@),
    {
        let ghost all = self@;
        let mut out: Vec<String> = Vec::new();
        assert(all.skip(0) == all);
        assert(out@.map_values(|l: String| l@) + remove_prefixed(all, prefix@) == remove_prefixed(all, prefix@));
        for i in 0..self.lines.len()
            invariant
                all == self@,
                all.len() == self.lines.len(),
                remove_prefixed(all, prefix@) == out@.map_values(|l: String| l@) + remove_prefixed(
                    all.skip(i as int),
                    prefix@,
                ),
        {
            let line_chars = str_chars(self.lines[i].as_str());
            assert(all.skip(i as int)[0] == line_chars@);
            assert(all.skip(i as int).drop_first() == all.skip(i + 1));
            let ghost before = out@.map_values(|l: String| l@);
            if !has_prefix(&line_chars, prefix) {
                out.push(self.lines[i].clone());
                assert(out@.map_values(|l: String| l@) == before.push(line_chars@));
                assert(before + (seq![line_chars@] + remove_prefixed(all.skip(i + 1), prefix@))
                    == before.push(line_chars@) + remove_prefixed(all.skip(i + 1), prefix@));
            }
        }
        assert(all.skip(all.len() as int) == Seq::<Seq<char>>::empty());
        assert(out@.map_values(|l: String| l@) + Seq::<Seq<char>>::empty() == out@.map_values(
            |l: String| l@,
        ));
        self.lines = out;
    }
}


/// The text of a string value, if one is stored.
pub open spec fn spec_read_string(lines: Seq<Seq<char>>, hive: int, path: Seq<char>, key: Seq<char>) -> Option<Seq<char>> {
    match find_entry(lines, entry_prefix(hive, path, key)) {
        Some((t, v)) => if t == 'S' { Some(v) } else { None },
        None => None,
    }
}

/// The number of a 32-bit value, if one is stored and its text is a number.
pub open spec fn spec_read_u32(lines: Seq<Seq<char>>, hive: int, path: Seq<char>, key: Seq<char>) -> Option<u32> {
    match find_entry(lines, entry_prefix(hive, path, key)) {
        Some((t, v)) => if t == 'D' {
            match parse_unsigned(v, u32::MAX as nat) {
                Some(n) => Some(n as u32),
                None => None,
            }
        } else {
            None
        },
        None => None,
    }
}

/// The bytes of a binary value, if one is stored.
pub open spec fn spec_read_binary(lines: Seq<Seq<char>>, hive: int, path: Seq<char>, key: Seq<char>) -> Option<Seq<u8>> {
    match find_entry(lines, entry_prefix(hive, path, key)) {
        Some((t, v)) => if t == 'B' { Some(hex_decode(v)) } else { None },
        None => None,
    }
}

/// A flag stored as a string: set when the string, trimmed, is "1".
pub open spec fn spec_read_bool_str(lines: Seq<Seq<char>>, hive: int, path: Seq<char>, key: Seq<char>) -> bool {
    match spec_read_string(lines, hive, path, key) {
        Some(v) => trim(v) == "1"@,
        None => false,
    }
}

/// A flag from the text of a string value: set when the text, trimmed, is "1".
pub fn flag_from_text(s: &str) -> (b: bool)
    ensures
        b == (trim(s@) == "1"@),
{
    let cs = str_chars(s);
    let t = trim_chars(&cs);
    proof {
        reveal_strlit("1");
        assert("1"@ =~= seq!['1']);
    }
    let b = t.len() == 1 && t[0] == '1';
    proof {
        if b {
            assert(t@ =~= seq!['1']);
        }
    }
    b
}

fn hex_digit_exec(d: u8) -> (c: char)
    requires
        d < 16,
    ensures
        c == hex_digit(d as nat),
{
    if d < 10 {
        (d + 48) as char
    } else {
        (d + 87) as char
    }
}

/// Two lowercase hex digits per byte.
pub fn hex_encode_bytes(b: &[u8]) -> (r: Vec<char>)
    ensures
        r@ == hex_encode(b@),
{
    let mut r: Vec<char> = Vec::new();
    for i in 0..b.len()
        invariant
            r@ == hex_encode(b@.take(i as int)),
    {
        let x = b[i];
        r.push(hex_digit_exec(x / 16));
        r.push(hex_digit_exec(x % 16));
        assert(b@.take(i + 1).drop_last() == b@.take(i as int));
    }
    assert(b@.take(b.len() as int) == b@);
    r
}

fn hex_value_exec(c: char) -> (r: Option<u8>)
    ensures
        r == (if is_hex(c) { Some(hex_value(c) as u8) } else { None::<u8> }),
        r matches Some(v) ==> v < 16,
{
    if '0' <= c && c <= '9' {
        Some(((c as u32) - 48) as u8)
    } else if 'a' <= c && c <= 'f' {
        Some(((c as u32) - 87) as u8)
    } else if 'A' <= c && c <= 'F' {
        Some(((c as u32) - 55) as u8)
    } else {
        None
    }
}

fn hex_pair_exec(c1: char, c2: char) -> (r: Option<u8>)
    ensures
        r == hex_pair(c1, c2),
{
    match (hex_value_exec(c1), hex_value_exec(c2)) {
        (Some(a), Some(b)) => Some(a * 16 + b),
        (None, Some(b)) => if c1 == '+' { Some(b) } else { None },
        _ => None,
    }
}

/// Reads hex text two characters at a time.
pub fn hex_decode_chars(s: &Vec<char>) -> (r: Vec<u8>)
    ensures
        r@ == hex_decode(s@),
{
    let mut r: Vec<u8> = Vec::new();
    let mut i: usize = 0;
    assert(s@.skip(0) == s@);
    while s.len() - i >= 2
        invariant
            i <= s.len(),
            hex_decode(s@) == r@ + hex_decode(s@.skip(i as int)),
        decreases s.len() - i,
    {
        let ghost t = s@.skip(i as int);
        assert(t[0] == s@[i as int] && t[1] == s@[i + 1]);
        assert(t.skip(2) == s@.skip(i + 2));
        let ghost before = r@;
        match hex_pair_exec(s[i], s[i + 1]) {
            Some(b) => {
                r.push(b);
                assert(before + (seq![b] + hex_decode(s@.skip(i + 2))) == r@ + hex_decode(s@.skip(i + 2)));
            },
            None => {
                assert(before + (Seq::<u8>::empty() + hex_decode(s@.skip(i + 2))) == r@ + hex_decode(s@.skip(i + 2)));
            },
        }
        i = i + 2;
    }
    assert(hex_decode(s@.skip(i as int)) == Seq::<u8>::empty());
    assert(r@ + Seq::<u8>::empty() == r@);
    r
}

impl RegistryStore {
    /// Reads a string value.
    pub fn read_string(&self, hive: HKEY, path: &str, key: &str) -> (r: Option<String>)
        ensures
            match spec_read_string(self@, hive as int, path@, key@) {
                Some(v) => r matches Some(s) && s@ == v,
                None => r is None,
            },
    {
        let p = make_entry_prefix(hive, path, key);
        match self.find(&p) {
            Some((t, v)) => if t == 'S' { Some(v) } else { None },
            None => None,
        }
    }

    /// Writes a string value.
    pub fn write_string(&mut self, hive: HKEY, path: &str, key: &str, val: &str)
        ensures
            final(self)@ == upsert(
                old(self)@,
                entry_prefix(hive as int, path@, key@),
                entry_prefix(hive as int, path@, key@) + seq!['S', ':'] + val@,
            ),
    {
        let p = make_entry_prefix(hive, path, key);
        self.put(&p, 'S', val);
    }

    /// Reads a 32-bit number value.
    pub fn read_u32(&self, hive: HKEY, path: &str, key: &str) -> (r: Option<u32>)
        ensures
            r == spec_read_u32(self@, hive as int, path@, key@),
    {
        let p = make_entry_prefix(hive, path, key);
        match self.find(&p) {
            Some((t, v)) => if t == 'D' {
                let cs = str_chars(v.as_str());
                match parse_unsigned_chars(&cs, 4294967295) {
                    Some(n) => Some(n as u32),
                    None => None,
                }
            } else {
                None
            },
            None => None,
        }
    }

    /// Writes a 32-bit number value, in decimal.
    pub fn write_u32(&mut self, hive: HKEY, path: &str, key: &str, val: u32)
        ensures
            final(self)@ == upsert(
                old(self)@,
                entry_prefix(hive as int, path@, key@),
                entry_prefix(hive as int, path@, key@) + seq!['D', ':'] + decimal(val as nat),
            ),
    {
        let p = make_entry_prefix(hive, path, key);
        let mut digits: Vec<char> = Vec::new();
        push_decimal(&mut digits, val as u64);
        let text = string_from_chars(&digits);
        self.put(&p, 'D', text.as_str());
    }

    /// Reads a flag stored as the string "1" or "0".
    pub fn read_bool_str(&self, hive: HKEY, path: &str, key: &str) -> (b: bool)
        ensures
            b == spec_read_bool_str(self@, hive as int, path@, key@),
    {
        match self.read_string(hive, path, key) {
            Some(s) => flag_from_text(s.as_str()),
            None => false,
        }
    }

    /// Writes a flag as the string "1" or "0".
    pub fn write_bool_str(&mut self, hive: HKEY, path: &str, key: &str, val: bool)
        ensures
            final(self)@ == upsert(
                old(self)@,
                entry_prefix(hive as int, path@, key@),
                entry_prefix(hive as int, path@, key@) + seq!['S', ':'] + (if val { "1"@ } else { "0"@ }),
            ),
    {
        let s = if val { "1" } else { "0" };
        self.write_string(hive, path, key, s);
    }

    /// Reads a binary value.
    pub fn read_binary(&self, hive: HKEY, path: &str, key: &str) -> (r: Option<Vec<u8>>)
        ensures
            match spec_read_binary(self@, hive as int, path@, key@) {
                Some(b) => r matches Some(v) && v@ == b,
                None => r is None,
            },
    {
        let p = make_entry_prefix(hive, path, key);
        match self.find(&p) {
            Some((t, v)) => if t == 'B' {
                let cs = str_chars(v.as_str());
                Some(hex_decode_chars(&cs))
            } else {
                None
            },
            None => None,
        }
    }

    /// Writes a binary value as lowercase hex.
    pub fn write_binary(&mut self, hive: HKEY, path: &str, key: &str, val: &[u8])
        ensures
            final(self)@ == upsert(
                old(self)@,
                entry_prefix(hive as int, path@, key@),
                entry_prefix(hive as int, path@, key@) + seq!['B', ':'] + hex_encode(val@),
            ),
    {
        let p = make_entry_prefix(hive, path, key);
        let hex = hex_encode_bytes(val);
        let text = string_from_chars(&hex);
        self.put(&p, 'B', text.as_str());
    }

    /// Deletes a value.
    pub fn delete_value(&mut self, hive: HKEY, path: &str, key: &str)
        ensures
            final(self)@ == remove_prefixed(old(self)@, entry_prefix(hive as int, path@, key@)),
    {
        let p = make_entry_prefix(hive, path, key);
        self.remove(&p);
    }

    /// Lists the string values under a path, as (key, value) pairs in line order.
    pub fn list_values(&self, hive: HKEY, path: &str) -> (r: Vec<(String, String)>)
        ensures
            r@.map_values(|kv: (String, String)| (kv.0@, kv.1@)) == list_entries(
                self@,
                path_prefix(hive as int, path@),
            ),
    {
        let p = make_path_prefix(hive, path);
        let ghost all = self@;
        let mut out: Vec<(String, String)> = Vec::new();
        assert(all.skip(0) == all);
        for i in 0..self.lines.len()
            invariant
                all == self@,
                all.len() == self.lines.len(),
                list_entries(all, p@) == out@.map_values(|kv: (String, String)| (kv.0@, kv.1@))
                    + list_entries(all.skip(i as int), p@),
        {
            let line = str_chars(self.lines[i].as_str());
            assert(all.skip(i as int)[0] == line@);
            assert(all.skip(i as int).drop_first() == all.skip(i + 1));
            let ghost before = out@.map_values(|kv: (String, String)| (kv.0@, kv.1@));
            match listed_exec(&line, &p) {
                Some((k, v)) => {
                    out.push((string_from_chars(&k), string_from_chars(&v)));
                    assert(out@.map_values(|kv: (String, String)| (kv.0@, kv.1@)) == before.push((k@, v@)));
                    assert(before + (seq![(k@, v@)] + list_entries(all.skip(i + 1), p@)) == before.push((k@, v@))
                        + list_entries(all.skip(i + 1), p@));
                },
                None => {
                    assert(before + (Seq::<(Seq<char>, Seq<char>)>::empty() + list_entries(all.skip(i + 1), p@))
                        == before + list_entries(all.skip(i + 1), p@));
                },
            }
        }
        assert(all.skip(all.len() as int) == Seq::<Seq<char>>::empty());
        let ghost fin = out@.map_values(|kv: (String, String)| (kv.0@, kv.1@));
        assert(fin + Seq::<(Seq<char>, Seq<char>)>::empty() == fin);
        out
    }
}

fn listed_exec(line: &Vec<char>, prefix: &Vec<char>) -> (r: Option<(Vec<char>, Vec<char>)>)
    ensures
        match listed(line@, prefix@) {
            Some((k, v)) => r matches Some((rk, rv)) && rk@ == k && rv@ == v,
            None => r is None,
        },
{
    if !has_prefix(line, prefix) {
        return None;
    }
    let start = prefix.len();
    let ghost rest = line@.skip(start as int);
    let mut j = start;
    while j < line.len() && line[j] != '='
        invariant
            start <= j <= line.len(),
            rest == line@.skip(start as int),
            first_index(rest, '=') == (j - start) + first_index(line@.skip(j as int), '='),
        decreases line.len() - j,
    {
        assert(line@.skip(j as int).drop_first() == line@.skip(j + 1));
        j = j + 1;
    }
    if j >= line.len() {
        assert(line@.skip(j as int).len() == 0);
        return None;
    }
    assert(line@.skip(j as int)[0] == '=');
    let idx = j - start;
    let mut key: Vec<char> = Vec::new();
    let mut k = start;
    while k < j
        invariant
            start <= k <= j < line.len(),
            key@ == line@.subrange(start as int, k as int),
        decreases j - k,
    {
        key.push(line[k]);
        assert(line@.subrange(start as int, k + 1) == line@.subrange(start as int, k as int).push(line@[k as int]));
        k = k + 1;
    }
    assert(rest.take(idx as int) == key@);
    assert(rest.skip(idx + 1) == line@.skip(j + 1));
    match value_part_exec(line, j + 1) {
        Some((t, v)) => if t == 'S' { Some((key, v)) } else { None },
        None => None,
    }
}

proof fn lemma_first_index(s: Seq<char>, c: char)
    ensures
        0 <= first_index(s, c) <= s.len(),
        first_index(s, c) < s.len() ==> s[first_index(s, c)] == c,
        forall|i: int| 0 <= i < first_index(s, c) ==> s[i] != c,
    decreases s.len(),
{
    if s.len() > 0 && s[0] != c {
        lemma_first_index(s.drop_first(), c);
        assert forall|i: int| 0 <= i < first_index(s, c) implies s[i] != c by {
            if i > 0 {
                assert(s[i] == s.drop_first()[i - 1]);
            }
        }
    }
}

/// A listed line is a string value: it is the path's prefix, the key (which
/// holds no '='), "=S:" and the value.
proof fn lemma_listed_line(line: Seq<char>, prefix: Seq<char>)
    requires
        listed(line, prefix) is Some,
    ensures
        ({
            let (k, v) = listed(line, prefix)->Some_0;
            &&& line == prefix + k + seq!['=', 'S', ':'] + v
            &&& has_no_eq(k)
        }),
{
    let rest = line.skip(prefix.len() as int);
    let idx = first_index(rest, '=');
    lemma_first_index(rest, '=');
    let (k, v) = listed(line, prefix)->Some_0;
    let tail = rest.skip(idx + 1);
    assert(tail == seq!['S', ':'] + v) by {
        assert(tail.skip(2) == v);
        assert(tail[0] == 'S' && tail[1] == ':');
        assert(tail =~= seq!['S', ':'] + v);
    }
    assert(rest =~= k + seq!['='] + tail);
    assert(line =~= prefix + rest);
    assert(line =~= prefix + k + seq!['=', 'S', ':'] + v);
}

/// A path listing holds only string values: every (key, value) it gives is a
/// line of the registry made of the path's prefix, the key (without '='),
/// "=S:" and the value; so a number or binary value is never listed.
pub proof fn lemma_list_only_strings(lines: Seq<Seq<char>>, prefix: Seq<char>, j: int)
    requires
        0 <= j < list_entries(lines, prefix).len(),
    ensures
        ({
            let (k, v) = list_entries(lines, prefix)[j];
            &&& has_no_eq(k)
            &&& lines.contains(prefix + k + seq!['=', 'S', ':'] + v)
        }),
    decreases lines.len(),
{
    let head: Seq<(Seq<char>, Seq<char>)> = match listed(lines[0], prefix) {
        Some(kv) => seq![kv],
        None => Seq::empty(),
    };
    let rest = list_entries(lines.drop_first(), prefix);
    assert(list_entries(lines, prefix) == head + rest);
    if j < head.len() {
        lemma_listed_line(lines[0], prefix);
        assert(list_entries(lines, prefix)[j] == listed(lines[0], prefix)->Some_0);
        assert(lines[0] == lines[0]);
    } else {
        assert(list_entries(lines, prefix)[j] == rest[j - head.len()]);
        lemma_list_only_strings(lines.drop_first(), prefix, j - head.len());
        let (k, v) = rest[j - head.len()];
        let x = prefix + k + seq!['=', 'S', ':'] + v;
        let m = choose|m: int| 0 <= m < lines.drop_first().len() && lines.drop_first()[m] == x;
        assert(lines[m + 1] == x);
    }
}

/// What a write stores is what a read then finds: after storing a line with a
/// well-formed value part under `prefix`, looking up `prefix` gives that value.
pub proof fn lemma_find_after_upsert(lines: Seq<Seq<char>>, prefix: Seq<char>, t: char, v: Seq<char>)
    requires
        (t as u32) < 128,
    ensures
        find_entry(upsert(lines, prefix, prefix + seq![t, ':'] + v), prefix) == Some((t, v)),
    decreases lines.len(),
{
    let nl = prefix + seq![t, ':'] + v;
    assert(nl.take(prefix.len() as int) == prefix);
    assert(nl.skip(prefix.len() as int) == seq![t, ':'] + v);
    assert((seq![t, ':'] + v).skip(2) == v);
    if lines.len() == 0 {
        assert(upsert(lines, prefix, nl)[0] == nl);
    } else if starts_with(lines[0], prefix) {
        assert((seq![nl] + lines.drop_first())[0] == nl);
    } else {
        lemma_find_after_upsert(lines.drop_first(), prefix, t, v);
        let u = upsert(lines, prefix, nl);
        assert(u[0] == lines[0]);
        assert(u.drop_first() == upsert(lines.drop_first(), prefix, nl));
    }
}

/// A line that starts with two prefixes shows that one of them starts the other.
proof fn lemma_two_prefixes(x: Seq<char>, pa: Seq<char>, pb: Seq<char>)
    requires
        starts_with(x, pa),
        starts_with(x, pb),
    ensures
        starts_with(pa, pb) || starts_with(pb, pa),
{
    if pa.len() <= pb.len() {
        assert(pb.take(pa.len() as int) == x.take(pa.len() as int));
    } else {
        assert(pa.take(pb.len() as int) == x.take(pb.len() as int));
    }
}

/// Writing or deleting one value leaves every other value as it was, as long
/// as neither of the two line prefixes starts the other.
pub proof fn lemma_other_values_unchanged(lines: Seq<Seq<char>>, pa: Seq<char>, new_line: Seq<char>, pb: Seq<char>)
    requires
        starts_with(new_line, pa),
        !starts_with(pa, pb),
        !starts_with(pb, pa),
    ensures
        find_entry(upsert(lines, pa, new_line), pb) == find_entry(lines, pb),
        find_entry(remove_prefixed(lines, pa), pb) == find_entry(lines, pb),
    decreases lines.len(),
{
    if starts_with(new_line, pb) {
        lemma_two_prefixes(new_line, pa, pb);
    }
    if lines.len() == 0 {
        assert(upsert(lines, pa, new_line) == seq![new_line]);
        assert(seq![new_line].drop_first() == Seq::<Seq<char>>::empty());
    } else {
        lemma_other_values_unchanged(lines.drop_first(), pa, new_line, pb);
        if starts_with(lines[0], pa) {
            if starts_with(lines[0], pb) {
                lemma_two_prefixes(lines[0], pa, pb);
            }
            let u = upsert(lines, pa, new_line);
            assert(u[0] == new_line);
            assert(u.drop_first() == lines.drop_first());
        } else {
            let u = upsert(lines, pa, new_line);
            assert(u[0] == lines[0]);
            assert(u.drop_first() == upsert(lines.drop_first(), pa, new_line));
            let r = remove_prefixed(lines, pa);
            assert(r[0] == lines[0]);
            assert(r.drop_first() == remove_prefixed(lines.drop_first(), pa));
        }
    }
}

/// A deleted value is gone: no line of what remains starts with its prefix.
pub proof fn lemma_find_after_remove(lines: Seq<Seq<char>>, prefix: Seq<char>)
    ensures
        find_entry(remove_prefixed(lines, prefix), prefix) is None,
    decreases lines.len(),
{
    if lines.len() > 0 {
        lemma_find_after_remove(lines.drop_first(), prefix);
        if !starts_with(lines[0], prefix) {
            let r = remove_prefixed(lines, prefix);
            assert(r[0] == lines[0]);
            assert(r.drop_first() == remove_prefixed(lines.drop_first(), prefix));
        }
    }
}

proof fn lemma_hex_decode_append(a: Seq<char>, b: Seq<char>)
    requires
        a.len() % 2 == 0,
    ensures
        hex_decode(a + b) == hex_decode(a) + hex_decode(b),
    decreases a.len(),
{
    if a.len() == 0 {
        assert(a + b == b);
    } else {
        assert((a + b)[0] == a[0] && (a + b)[1] == a[1]);
        assert((a + b).skip(2) == a.skip(2) + b);
        lemma_hex_decode_append(a.skip(2), b);
    }
}

proof fn lemma_hex_byte(x: u8)
    ensures
        hex_decode(seq![hex_digit(x as nat / 16), hex_digit(x as nat % 16)]) == seq![x],
{
    let s = seq![hex_digit(x as nat / 16), hex_digit(x as nat % 16)];
    assert(s.skip(2).len() == 0);
    assert(hex_decode(s.skip(2)) == Seq::<u8>::empty());
    assert(is_hex(s[0]) && is_hex(s[1]));
    assert(hex_value(s[0]) == x as nat / 16);
    assert(hex_value(s[1]) == x as nat % 16);
    assert(seq![x] + Seq::<u8>::empty() == seq![x]);
}

/// Hex text read back gives the bytes it was written from.
pub proof fn lemma_hex_roundtrip(b: Seq<u8>)
    ensures
        hex_decode(hex_encode(b)) == b,
        hex_encode(b).len() == 2 * b.len(),
    decreases b.len(),
{
    if b.len() > 0 {
        lemma_hex_roundtrip(b.drop_last());
        let x = b.last();
        lemma_hex_decode_append(hex_encode(b.drop_last()), seq![hex_digit(x as nat / 16), hex_digit(x as nat % 16)]);
        lemma_hex_byte(x);
        assert(b.drop_last().push(x) == b);
    }
}

/// Reading a value after writing it gives it back: a string, a number, bytes
/// or a flag; and a deleted value reads as absent.
pub proof fn lemma_registry_roundtrip(lines: Seq<Seq<char>>, hive: int, path: Seq<char>, key: Seq<char>, s: Seq<char>, n: u32, b: Seq<u8>, flag: bool)
    ensures
        spec_read_string(
            upsert(lines, entry_prefix(hive, path, key), entry_prefix(hive, path, key) + seq!['S', ':'] + s),
            hive,
            path,
            key,
        ) == Some(s),
        spec_read_u32(
            upsert(lines, entry_prefix(hive, path, key), entry_prefix(hive, path, key) + seq!['D', ':'] + decimal(n as nat)),
            hive,
            path,
            key,
        ) == Some(n),
        spec_read_binary(
            upsert(lines, entry_prefix(hive, path, key), entry_prefix(hive, path, key) + seq!['B', ':'] + hex_encode(b)),
            hive,
            path,
            key,
        ) == Some(b),
        spec_read_bool_str(
            upsert(lines, entry_prefix(hive, path, key), entry_prefix(hive, path, key) + seq!['S', ':'] + (if flag { "1"@ } else { "0"@ })),
            hive,
            path,
            key,
        ) == flag,
        spec_read_string(remove_prefixed(lines, entry_prefix(hive, path, key)), hive, path, key) is None,
{
    let p = entry_prefix(hive, path, key);
    lemma_find_after_upsert(lines, p, 'S', s);
    lemma_find_after_upsert(lines, p, 'D', decimal(n as nat));
    lemma_parse_decimal(n as nat, u32::MAX as nat);
    lemma_find_after_upsert(lines, p, 'B', hex_encode(b));
    lemma_hex_roundtrip(b);
    let f = if flag { "1"@ } else { "0"@ };
    lemma_find_after_upsert(lines, p, 'S', f);
    reveal_strlit("1");
    reveal_strlit("0");
    assert(trim_start(seq!['1']) == seq!['1']);
    assert(trim_end(seq!['1']) == seq!['1']);
    assert(trim_start(seq!['0']) == seq!['0']);
    assert(trim_end(seq!['0']) == seq!['0']);
    lemma_find_after_remove(lines, p);
}

/// Whether a text holds no '='.
pub open spec fn has_no_eq(s: Seq<char>) -> bool {
    forall|i: int| 0 <= i < s.len() ==> s[i] != '='
}

/// Whether a text holds no "::".
pub open spec fn has_no_separator(s: Seq<char>) -> bool {
    forall|i: int| 0 <= i < s.len() - 1 ==> !(#[trigger] s[i] == ':' && s[i + 1] == ':')
}

/// Whether a value can be told apart from every other by its line: its path,
/// as stored (lowercased), holds no "::" and its key, as stored, no '='.
pub open spec fn plain_value(path: Seq<char>, key: Seq<char>) -> bool {
    has_no_separator(lowercase(path)) && has_no_eq(lowercase(key))
}

/// A later change to the registry, as (is a delete, hive, path, key, value
/// part): a delete of that value, or a write of the line made of its prefix
/// and the value part.
pub open spec fn apply_changes(
    lines: Seq<Seq<char>>,
    changes: Seq<(bool, int, Seq<char>, Seq<char>, Seq<char>)>,
) -> Seq<Seq<char>>
    decreases changes.len(),
{
    if changes.len() == 0 {
        lines
    } else {
        let c = changes[0];
        let p = entry_prefix(c.1, c.2, c.3);
        apply_changes(
            if c.0 { remove_prefixed(lines, p) } else { upsert(lines, p, p + c.4) },
            changes.drop_first(),
        )
    }
}

/// The decimal text of a hive holds neither ':' nor '='.
proof fn lemma_hive_text(hive: int)
    ensures
        forall|i: int| 0 <= i < idecimal(hive).len() ==> idecimal(hive)[i] != ':' && idecimal(hive)[i] != '=',
{
    let d = idecimal(hive);
    if hive < 0 {
        lemma_decimal_digits((-hive) as nat);
        assert forall|i: int| 0 <= i < d.len() implies d[i] != ':' && d[i] != '=' by {
            if i > 0 {
                assert(d[i] == decimal((-hive) as nat)[i - 1]);
                assert(is_digit(decimal((-hive) as nat)[i - 1]));
            }
        }
    } else {
        lemma_decimal_digits(hive as nat);
        assert forall|i: int| 0 <= i < d.len() implies d[i] != ':' && d[i] != '=' by {
            assert(is_digit(decimal(hive as nat)[i]));
        }
    }
}

/// The characters of a value's line prefix, by position.
proof fn lemma_prefix_chars(hive: int, path: Seq<char>, key: Seq<char>)
    ensures
        ({
            let x = entry_prefix(hive, path, key);
            let d: int = idecimal(hive).len() as int;
            let e: int = d + 2 + lowercase(path).len();
            &&& x.len() == e + 2 + lowercase(key).len() + 1
            &&& forall|i: int| 0 <= i < d ==> x[i] == idecimal(hive)[i]
            &&& x[d] == ':' && x[d + 1] == ':'
            &&& forall|i: int| d + 2 <= i < e ==> x[i] == lowercase(path)[i - d - 2]
            &&& x[e] == ':' && x[e + 1] == ':'
            &&& forall|i: int| e + 2 <= i < x.len() - 1 ==> x[i] == lowercase(key)[i - e - 2]
            &&& x[x.len() - 1] == '='
        }),
{
    reveal_strlit("::");
    reveal_strlit("=");
}

/// Of two values that can be told apart by their lines, a line prefix that
/// starts the other is the same prefix.
proof fn lemma_prefix_of_prefix(ha: int, pa: Seq<char>, ka: Seq<char>, hb: int, pb: Seq<char>, kb: Seq<char>)
    requires
        plain_value(pa, ka),
        plain_value(pb, kb),
        starts_with(entry_prefix(ha, pa, ka), entry_prefix(hb, pb, kb)),
    ensures
        entry_prefix(ha, pa, ka) == entry_prefix(hb, pb, kb),
{
    let x = entry_prefix(ha, pa, ka);
    let y = entry_prefix(hb, pb, kb);
    let n: int = y.len() as int;
    lemma_prefix_chars(ha, pa, ka);
    lemma_prefix_chars(hb, pb, kb);
    lemma_hive_text(ha);
    lemma_hive_text(hb);
    assert forall|i: int| 0 <= i < n implies x[i] == y[i] by {
        assert(x.take(n)[i] == x[i]);
    }
    let da: int = idecimal(ha).len() as int;
    let db: int = idecimal(hb).len() as int;
    let lpa = lowercase(pa);
    let lpb = lowercase(pb);
    let lka = lowercase(ka);
    // Both hives' texts end at the first ':'.
    if db < da {
        assert(x[db] == y[db]);
        assert(x[db] == idecimal(ha)[db]);
    }
    if da < db {
        assert(x[da] == y[da]);
        assert(y[da] == idecimal(hb)[da]);
    }
    assert(da == db);
    let ea: int = da + 2 + lpa.len();
    let eb: int = db + 2 + lpb.len();
    assert(x[eb] == y[eb] && x[eb + 1] == y[eb + 1]);
    if eb <= ea - 2 {
        assert(x[eb] == lpa[eb - da - 2]);
        assert(x[eb + 1] == lpa[eb + 1 - da - 2]);
        assert(!(lpa[eb - da - 2] == ':' && lpa[eb - da - 2 + 1] == ':'));
    }
    if eb >= ea + 2 {
        assert(x[ea] == y[ea] && x[ea + 1] == y[ea + 1]);
        assert(y[ea] == lpb[ea - db - 2]);
        assert(y[ea + 1] == lpb[ea + 1 - db - 2]);
        assert(!(lpb[ea - db - 2] == ':' && lpb[ea - db - 2 + 1] == ':'));
    }
    assert(x[n - 1] == y[n - 1]);
    if n < x.len() {
        if n - 1 >= ea + 2 {
            assert(x[n - 1] == lka[n - 1 - ea - 2]);
        }
    }
    assert(n == x.len());
    assert(x == x.take(n));
}

/// The line prefixes of two different values that can be told apart by their
/// lines are such that neither starts the other.
proof fn lemma_plain_prefixes_apart(ha: int, pa: Seq<char>, ka: Seq<char>, hb: int, pb: Seq<char>, kb: Seq<char>)
    requires
        plain_value(pa, ka),
        plain_value(pb, kb),
        entry_prefix(ha, pa, ka) != entry_prefix(hb, pb, kb),
    ensures
        !starts_with(entry_prefix(ha, pa, ka), entry_prefix(hb, pb, kb)),
        !starts_with(entry_prefix(hb, pb, kb), entry_prefix(ha, pa, ka)),
{
    if starts_with(entry_prefix(ha, pa, ka), entry_prefix(hb, pb, kb)) {
        lemma_prefix_of_prefix(ha, pa, ka, hb, pb, kb);
    }
    if starts_with(entry_prefix(hb, pb, kb), entry_prefix(ha, pa, ka)) {
        lemma_prefix_of_prefix(hb, pb, kb, ha, pa, ka);
    }
}

proof fn lemma_changes_elsewhere(
    lines: Seq<Seq<char>>,
    hive: int,
    path: Seq<char>,
    key: Seq<char>,
    changes: Seq<(bool, int, Seq<char>, Seq<char>, Seq<char>)>,
)
    requires
        plain_value(path, key),
        forall|i: int| 0 <= i < changes.len() ==> plain_value(#[trigger] changes[i].2, changes[i].3),
        forall|i: int| 0 <= i < changes.len()
            ==> entry_prefix(#[trigger] changes[i].1, changes[i].2, changes[i].3) != entry_prefix(hive, path, key),
    ensures
        find_entry(apply_changes(lines, changes), entry_prefix(hive, path, key)) == find_entry(
            lines,
            entry_prefix(hive, path, key),
        ),
    decreases changes.len(),
{
    if changes.len() > 0 {
        let c = changes[0];
        let p = entry_prefix(c.1, c.2, c.3);
        lemma_plain_prefixes_apart(c.1, c.2, c.3, hive, path, key);
        let next = if c.0 { remove_prefixed(lines, p) } else { upsert(lines, p, p + c.4) };
        assert((p + c.4).take(p.len() as int) == p);
        lemma_other_values_unchanged(lines, p, p + c.4, entry_prefix(hive, path, key));
        let rest = changes.drop_first();
        assert forall|i: int| 0 <= i < rest.len() implies plain_value(#[trigger] rest[i].2, rest[i].3) by {
            assert(rest[i] == changes[i + 1]);
        }
        assert forall|i: int| 0 <= i < rest.len() implies entry_prefix(#[trigger] rest[i].1, rest[i].2, rest[i].3)
            != entry_prefix(hive, path, key) by {
            assert(rest[i] == changes[i + 1]);
        }
        lemma_changes_elsewhere(next, hive, path, key, rest);
    }
}

/// A written value reads back, under any path and key that lowercase to the
/// ones it was written under, however many writes and deletes of other values
/// follow: a string, a number, bytes or a flag. Paths, as stored (lowercased),
/// must hold no "::" and keys, as stored, no '='.
pub proof fn lemma_write_then_read(
    lines: Seq<Seq<char>>,
    hive: int,
    path: Seq<char>,
    key: Seq<char>,
    path2: Seq<char>,
    key2: Seq<char>,
    s: Seq<char>,
    n: u32,
    b: Seq<u8>,
    flag: bool,
    changes: Seq<(bool, int, Seq<char>, Seq<char>, Seq<char>)>,
)
    requires
        lowercase(path2) == lowercase(path),
        lowercase(key2) == lowercase(key),
        plain_value(path, key),
        forall|i: int| 0 <= i < changes.len() ==> plain_value(#[trigger] changes[i].2, changes[i].3),
        forall|i: int| 0 <= i < changes.len()
            ==> entry_prefix(#[trigger] changes[i].1, changes[i].2, changes[i].3) != entry_prefix(hive, path, key),
    ensures
        spec_read_string(
            apply_changes(
                upsert(lines, entry_prefix(hive, path, key), entry_prefix(hive, path, key) + seq!['S', ':'] + s),
                changes,
            ),
            hive,
            path2,
            key2,
        ) == Some(s),
        spec_read_u32(
            apply_changes(
                upsert(lines, entry_prefix(hive, path, key), entry_prefix(hive, path, key) + seq!['D', ':'] + decimal(n as nat)),
                changes,
            ),
            hive,
            path2,
            key2,
        ) == Some(n),
        spec_read_binary(
            apply_changes(
                upsert(lines, entry_prefix(hive, path, key), entry_prefix(hive, path, key) + seq!['B', ':'] + hex_encode(b)),
                changes,
            ),
            hive,
            path2,
            key2,
        ) == Some(b),
        spec_read_bool_str(
            apply_changes(
                upsert(
                    lines,
                    entry_prefix(hive, path, key),
                    entry_prefix(hive, path, key) + seq!['S', ':'] + (if flag { "1"@ } else { "0"@ }),
                ),
                changes,
            ),
            hive,
            path2,
            key2,
        ) == flag,
{
    let p = entry_prefix(hive, path, key);
    assert(entry_prefix(hive, path2, key2) == p);
    let f = if flag { "1"@ } else { "0"@ };
    lemma_changes_elsewhere(upsert(lines, p, p + seq!['S', ':'] + s), hive, path, key, changes);
    lemma_changes_elsewhere(upsert(lines, p, p + seq!['D', ':'] + decimal(n as nat)), hive, path, key, changes);
    lemma_changes_elsewhere(upsert(lines, p, p + seq!['B', ':'] + hex_encode(b)), hive, path, key, changes);
    lemma_changes_elsewhere(upsert(lines, p, p + seq!['S', ':'] + f), hive, path, key, changes);
    lemma_registry_roundtrip(lines, hive, path, key, s, n, b, flag);
}

} // verus!
