//! Character-level helpers shared by the parsers and formatters of the library.
use vstd::prelude::*;

verus! {

/// Collects the characters of `s` into a vector.
pub fn str_chars(s: &str) -> (v: Vec<char>)
    ensures
        v@ == s@,
{
    let mut v: Vec<char> = Vec::new();
    for c in it: s.chars()
        invariant
            v@ == it.seq().take(it.index() as int),
    {
        v.push(c);
    }
    assert(v@ == s@);
    v
}

/// Appends one character to a string (`String::push`). The contract claims
/// that the string then holds its old characters followed by `c`.
#[verifier::external_body]
pub fn string_push(s: &mut String, c: char)
    ensures
        final(s)@ == old(s)@.push(c),
{
    s.push(c)
}

/// Appends a sequence of characters to a string.
pub fn push_chars(s: &mut String, cs: &Vec<char>)
    ensures
        final(s)@ == old(s)@ + cs@,
{
    for i in 0..cs.len()
        invariant
            s@ == old(s)@ + cs@.take(i as int),
    {
        string_push(s, cs[i]);
        assert(cs@.take(i + 1) == cs@.take(i as int).push(cs@[i as int]));
    }
    assert(cs@.take(cs.len() as int) == cs@);
}

/// Builds a string from a sequence of characters.
pub fn string_from_chars(cs: &Vec<char>) -> (s: String)
    ensures
        s@ == cs@,
{
    let mut s = String::new();
    push_chars(&mut s, cs);
    s
}

/// Appends the characters of a string slice to a character vector.
pub fn extend_with_str(v: &mut Vec<char>, s: &str)
    ensures
        final(v)@ == old(v)@ + s@,
{
    let cs = str_chars(s);
    extend_with(v, &cs);
}

/// Appends the characters of `cs` to `v`.
pub fn extend_with(v: &mut Vec<char>, cs: &Vec<char>)
    ensures
        final(v)@ == old(v)@ + cs@,
{
    for i in 0..cs.len()
        invariant
            v@ == old(v)@ + cs@.take(i as int),
    {
        v.push(cs[i]);
        assert(cs@.take(i + 1) == cs@.take(i as int).push(cs@[i as int]));
    }
    assert(cs@.take(cs.len() as int) == cs@);
}

/// The ASCII character of a decimal digit.
pub open spec fn digit_char(d: nat) -> char {
    if d == 0 { '0' }
    else if d == 1 { '1' }
    else if d == 2 { '2' }
    else if d == 3 { '3' }
    else if d == 4 { '4' }
    else if d == 5 { '5' }
    else if d == 6 { '6' }
    else if d == 7 { '7' }
    else if d == 8 { '8' }
    else { '9' }
}

/// The decimal representation of `n`, without leading zeros (as `u64::to_string`).
pub open spec fn decimal(n: nat) -> Seq<char>
    decreases n,
{
    if n < 10 {
        seq![digit_char(n)]
    } else {
        decimal(n / 10).push(digit_char(n % 10))
    }
}

fn digit_of(d: u64) -> (c: char)
    requires
        d < 10,
    ensures
        c == digit_char(d as nat),
{
    if d == 0 { '0' }
    else if d == 1 { '1' }
    else if d == 2 { '2' }
    else if d == 3 { '3' }
    else if d == 4 { '4' }
    else if d == 5 { '5' }
    else if d == 6 { '6' }
    else if d == 7 { '7' }
    else if d == 8 { '8' }
    else { '9' }
}

/// Appends the decimal representation of `n` to `out`.
pub fn push_decimal(out: &mut Vec<char>, n: u64)
    ensures
        final(out)@ == old(out)@ + decimal(n as nat),
    decreases n,
{
    if n < 10 {
        out.push(digit_of(n));
        assert(decimal(n as nat) == seq![digit_char(n as nat)]);
    } else {
        push_decimal(out, n / 10);
        out.push(digit_of(n % 10));
        assert(old(out)@ + decimal(n as nat) == old(out)@ + decimal((n / 10) as nat) + seq![
            digit_char((n % 10) as nat),
        ]);
    }
}

/// Whether `c` is an ASCII decimal digit.
pub open spec fn is_digit(c: char) -> bool {
    '0' <= c <= '9'
}

/// The numeric value of an ASCII decimal digit.
pub open spec fn digit_value(c: char) -> nat {
    (c as nat - '0' as nat) as nat
}

/// The value of a sequence of decimal digits, most significant first.
pub open spec fn digits_value(s: Seq<char>) -> nat
    decreases s.len(),
{
    if s.len() == 0 {
        0
    } else {
        digits_value(s.drop_last()) * 10 + digit_value(s.last())
    }
}

/// Whether every character of `s` is a decimal digit.
pub open spec fn all_digits(s: Seq<char>) -> bool {
    forall|i: int| 0 <= i < s.len() ==> is_digit(#[trigger] s[i])
}

/// The digits that `str::parse` reads for an unsigned integer: an optional
/// leading `+` is dropped.
pub open spec fn unsigned_body(s: Seq<char>) -> Seq<char> {
    if s.len() > 0 && s[0] == '+' {
        s.drop_first()
    } else {
        s
    }
}

/// What `str::parse` gives for an unsigned integer type whose largest value is
/// `max`: the value when the text is one or more digits (after an optional `+`)
/// and the value does not exceed `max`, `None` otherwise.
pub open spec fn parse_unsigned(s: Seq<char>, max: nat) -> Option<nat> {
    let body = unsigned_body(s);
    if body.len() > 0 && all_digits(body) && digits_value(body) <= max {
        Some(digits_value(body))
    } else {
        None
    }
}

proof fn lemma_digits_value_push(s: Seq<char>, c: char)
    ensures
        digits_value(s.push(c)) == digits_value(s) * 10 + digit_value(c),
{
    assert(s.push(c).drop_last() == s);
}

proof fn lemma_digits_value_monotone(s: Seq<char>, i: int)
    requires
        0 <= i <= s.len(),
        all_digits(s),
    ensures
        digits_value(s.take(i)) <= digits_value(s),
    decreases s.len() - i,
{
    if i < s.len() {
        lemma_digits_value_monotone(s, i + 1);
        assert(s.take(i + 1) == s.take(i).push(s[i]));
        lemma_digits_value_push(s.take(i), s[i]);
    } else {
        assert(s.take(i) == s);
    }
}

/// Parses the digits of `s[start..]` as an unsigned value not above `max`.
fn parse_digits(s: &Vec<char>, start: usize, max: u64) -> (r: Option<u64>)
    requires
        start <= s.len(),
    ensures
        match r {
            Some(v) => {
                &&& start < s.len()
                &&& all_digits(s@.skip(start as int))
                &&& digits_value(s@.skip(start as int)) <= max
                &&& v == digits_value(s@.skip(start as int))
            },
            None => !(start < s.len() && all_digits(s@.skip(start as int)) && digits_value(
                s@.skip(start as int),
            ) <= max),
        },
{
    if start >= s.len() {
        return None;
    }
    let ghost body = s@.skip(start as int);
    let mut acc: u64 = 0;
    let mut i = start;
    while i < s.len()
        invariant
            start <= i <= s.len(),
            body == s@.skip(start as int),
            all_digits(body.take(i - start)),
            acc == digits_value(body.take(i - start)),
            acc <= max,
        decreases s.len() - i,
    {
        let c = s[i];
        assert(body[i - start] == c);
        assert(body.take(i - start + 1) == body.take(i - start).push(c));
        if !('0' <= c && c <= '9') {
            assert(!all_digits(body)) by {
                assert(!is_digit(body[i - start]));
            }
            return None;
        }
        let d = (c as u64) - ('0' as u64);
        proof {
            lemma_digits_value_push(body.take(i - start), c);
        }
        let next: u128 = (acc as u128) * 10 + (d as u128);
        if next > max as u128 {
            proof {
                if all_digits(body) {
                    lemma_digits_value_monotone(body, i - start + 1);
                }
            }
            return None;
        }
        acc = next as u64;
        i = i + 1;
    }
    assert(body.take(i - start) == body);
    Some(acc)
}

} // verus!

verus! {

/// Parses `s` as `str::parse` does for an unsigned integer type whose largest
/// value is `max`.
pub fn parse_unsigned_chars(s: &Vec<char>, max: u64) -> (r: Option<u64>)
    ensures
        r == (match parse_unsigned(s@, max as nat) {
            Some(v) => Some(v as u64),
            None => None::<u64>,
        }),
{
    let start: usize = if s.len() > 0 && s[0] == '+' { 1 } else { 0 };
    assert(unsigned_body(s@) == s@.skip(start as int));
    parse_digits(s, start, max)
}

/// What `str::parse::<i32>` gives: a leading `-` followed by one or more
/// digits whose value is at most 2^31 gives the negated value; otherwise the
/// text is read as an unsigned value of at most 2^31 - 1 (after an optional `+`).
pub open spec fn parse_i32(s: Seq<char>) -> Option<int> {
    if s.len() > 0 && s[0] == '-' {
        let body = s.drop_first();
        if body.len() > 0 && all_digits(body) && digits_value(body) <= 0x8000_0000 {
            Some(-(digits_value(body) as int))
        } else {
            None
        }
    } else {
        match parse_unsigned(s, 0x7fff_ffff) {
            Some(v) => Some(v as int),
            None => None,
        }
    }
}

/// Parses `s` as `str::parse::<i32>` does.
pub fn parse_i32_chars(s: &Vec<char>) -> (r: Option<i32>)
    ensures
        r == (match parse_i32(s@) {
            Some(v) => Some(v as i32),
            None => None::<i32>,
        }),
{
    if s.len() > 0 && s[0] == '-' {
        assert(s@.drop_first() == s@.skip(1));
        match parse_digits(s, 1, 0x8000_0000) {
            Some(v) => {
                let n: i64 = -(v as i64);
                Some(n as i32)
            },
            None => None,
        }
    } else {
        match parse_unsigned_chars(s, 0x7fff_ffff) {
            Some(v) => Some(v as i32),
            None => None,
        }
    }
}

/// The characters that `str::to_lowercase` makes of a string.
pub uninterp spec fn lowercase(s: Seq<char>) -> Seq<char>;

/// Whether every character of a text is ASCII.
pub open spec fn is_ascii_text(s: Seq<char>) -> bool {
    forall|i: int| 0 <= i < s.len() ==> (s[i] as u32) < 128
}

/// An ASCII letter 'A'..='Z' made lowercase; any other character unchanged.
pub open spec fn ascii_lower_char(c: char) -> char {
    if 'A' <= c <= 'Z' {
        ((c as u32) + 32) as char
    } else {
        c
    }
}

/// A text with its ASCII capitals made lowercase.
pub open spec fn ascii_lowercase(s: Seq<char>) -> Seq<char> {
    s.map_values(|c: char| ascii_lower_char(c))
}

/// Lowercases a string (`str::to_lowercase`). The contract claims that the
/// result is `lowercase` of the text, a function of the text alone, and that
/// an ASCII text has exactly its capitals 'A'..='Z' made lowercase; which
/// characters Unicode lowercasing gives for other text is left unstated.
#[verifier::external_body]
pub fn to_lowercase(s: &str) -> (r: String)
    ensures
        r@ == lowercase(s@),
        is_ascii_text(s@) ==> r@ == ascii_lowercase(s@),
{
    s.to_lowercase()
}

/// Whether `s` begins with `p`.
pub open spec fn starts_with(s: Seq<char>, p: Seq<char>) -> bool {
    p.len() <= s.len() && s.take(p.len() as int) == p
}

/// Whether `s` ends with `p`.
pub open spec fn ends_with(s: Seq<char>, p: Seq<char>) -> bool {
    p.len() <= s.len() && s.skip(s.len() - p.len()) == p
}

/// Whether `p` occurs in `s` at position `i`.
pub open spec fn occurs_at(s: Seq<char>, p: Seq<char>, i: int) -> bool {
    0 <= i && i + p.len() <= s.len() && s.subrange(i, i + p.len()) == p
}

/// Whether `p` occurs somewhere in `s` (`str::contains`).
pub open spec fn contains(s: Seq<char>, p: Seq<char>) -> bool {
    exists|i: int| occurs_at(s, p, i)
}

/// Whether `s` begins with `p`.
pub fn has_prefix(s: &Vec<char>, p: &Vec<char>) -> (b: bool)
    ensures
        b == starts_with(s@, p@),
{
    if p.len() > s.len() {
        return false;
    }
    for i in 0..p.len()
        invariant
            p.len() <= s.len(),
            s@.take(i as int) == p@.take(i as int),
    {
        if s[i] != p[i] {
            assert(s@.take(p.len() as int)[i as int] != p@[i as int]);
            return false;
        }
        assert(s@.take(i + 1) == s@.take(i as int).push(s@[i as int]));
        assert(p@.take(i + 1) == p@.take(i as int).push(p@[i as int]));
    }
    assert(p@.take(p.len() as int) == p@);
    true
}

/// Whether `p` occurs in `s` at position `i`.
fn occurs_at_exec(s: &Vec<char>, p: &Vec<char>, i: usize) -> (b: bool)
    ensures
        b == occurs_at(s@, p@, i as int),
{
    if p.len() > s.len() || i > s.len() - p.len() {
        return false;
    }
    for j in 0..p.len()
        invariant
            i + p.len() <= s.len(),
            forall|k: int| 0 <= k < j ==> s@[i + k] == p@[k],
    {
        if s[i + j] != p[j] {
            assert(s@.subrange(i as int, i + p.len())[j as int] != p@[j as int]);
            return false;
        }
    }
    assert(s@.subrange(i as int, i + p.len()) == p@);
    true
}

/// Whether `p` occurs somewhere in `s`.
pub fn has_substring(s: &Vec<char>, p: &Vec<char>) -> (b: bool)
    ensures
        b == contains(s@, p@),
{
    if p.len() > s.len() {
        assert forall|i: int| !occurs_at(s@, p@, i) by {}
        return false;
    }
    let last = s.len() - p.len();
    let mut i: usize = 0;
    loop
        invariant
            last == s.len() - p.len(),
            p.len() <= s.len(),
            i <= last,
            forall|k: int| 0 <= k < i ==> !occurs_at(s@, p@, k),
        ensures
            forall|k: int| 0 <= k <= last ==> !occurs_at(s@, p@, k),
        decreases last - i,
    {
        if occurs_at_exec(s, p, i) {
            return true;
        }
        if i == last {
            break;
        }
        i = i + 1;
    }
    assert forall|k: int| !occurs_at(s@, p@, k) by {
        if 0 <= k && k + p.len() <= s.len() {
            assert(k <= last);
        }
    }
    false
}

/// Whether `s` ends with `p`.
pub fn has_suffix(s: &Vec<char>, p: &Vec<char>) -> (b: bool)
    ensures
        b == ends_with(s@, p@),
{
    if p.len() > s.len() {
        return false;
    }
    let b = occurs_at_exec(s, p, s.len() - p.len());
    assert(s@.subrange(s.len() - p.len(), s.len() as int) == s@.skip(s.len() - p.len()));
    b
}

/// Whether `s` ends with the characters of `lit`.
pub fn ends_with_str(s: &Vec<char>, lit: &str) -> (b: bool)
    ensures
        b == ends_with(s@, lit@),
{
    let p = str_chars(lit);
    has_suffix(s, &p)
}

/// Whether `s` contains the characters of the literal `lit`.
pub fn contains_str(s: &Vec<char>, lit: &str) -> (b: bool)
    ensures
        b == contains(s@, lit@),
{
    let p = str_chars(lit);
    has_substring(s, &p)
}

/// Whether `s` begins with the characters of `lit`.
pub fn starts_with_str(s: &Vec<char>, lit: &str) -> (b: bool)
    ensures
        b == starts_with(s@, lit@),
{
    let p = str_chars(lit);
    has_prefix(s, &p)
}

/// Whether `c` is Unicode white space (`char::is_whitespace`).
pub open spec fn is_whitespace(c: char) -> bool {
    let u = c as u32;
    (0x9 <= u && u <= 0xd) || u == 0x20 || u == 0x85 || u == 0xa0 || u == 0x1680 || (0x2000 <= u
        && u <= 0x200a) || u == 0x2028 || u == 0x2029 || u == 0x202f || u == 0x205f || u == 0x3000
}

/// Whether `c` is Unicode white space.
pub fn char_is_whitespace(c: char) -> (b: bool)
    ensures
        b == is_whitespace(c),
{
    let u = c as u32;
    (0x9 <= u && u <= 0xd) || u == 0x20 || u == 0x85 || u == 0xa0 || u == 0x1680 || (0x2000 <= u
        && u <= 0x200a) || u == 0x2028 || u == 0x2029 || u == 0x202f || u == 0x205f || u == 0x3000
}

/// `s` without its leading white space.
pub open spec fn trim_start(s: Seq<char>) -> Seq<char>
    decreases s.len(),
{
    if s.len() > 0 && is_whitespace(s[0]) {
        trim_start(s.drop_first())
    } else {
        s
    }
}

/// `s` without its trailing white space.
pub open spec fn trim_end(s: Seq<char>) -> Seq<char>
    decreases s.len(),
{
    if s.len() > 0 && is_whitespace(s.last()) {
        trim_end(s.drop_last())
    } else {
        s
    }
}

/// `s` without leading and trailing white space (`str::trim`).
pub open spec fn trim(s: Seq<char>) -> Seq<char> {
    trim_end(trim_start(s))
}

proof fn lemma_trim_start_skip(s: Seq<char>, i: int)
    requires
        0 <= i <= s.len(),
        forall|k: int| 0 <= k < i ==> is_whitespace(#[trigger] s[k]),
    ensures
        trim_start(s) == trim_start(s.skip(i)),
    decreases i,
{
    if i > 0 {
        assert(s.drop_first().skip(i - 1) == s.skip(i));
        assert forall|k: int| 0 <= k < i - 1 implies is_whitespace(#[trigger] s.drop_first()[k]) by {
            assert(s.drop_first()[k] == s[k + 1]);
        }
        lemma_trim_start_skip(s.drop_first(), i - 1);
    } else {
        assert(s.skip(0) == s);
    }
}

proof fn lemma_trim_end_take(s: Seq<char>, j: int)
    requires
        0 <= j <= s.len(),
        forall|k: int| j <= k < s.len() ==> is_whitespace(#[trigger] s[k]),
    ensures
        trim_end(s) == trim_end(s.take(j)),
    decreases s.len() - j,
{
    if j < s.len() {
        assert(s.drop_last().take(j) == s.take(j));
        assert forall|k: int| j <= k < s.len() - 1 implies is_whitespace(#[trigger] s.drop_last()[k]) by {
            assert(s.drop_last()[k] == s[k]);
        }
        lemma_trim_end_take(s.drop_last(), j);
    } else {
        assert(s.take(j) == s);
    }
}

/// Trimming the end only shortens: it keeps a prefix of `s`, which is not empty
/// when `s` starts with a non-white-space character.
pub proof fn lemma_trim_end_prefix(s: Seq<char>)
    ensures
        trim_end(s).len() <= s.len(),
        trim_end(s) == s.take(trim_end(s).len() as int),
        s.len() > 0 && !is_whitespace(s[0]) ==> trim_end(s).len() > 0,
    decreases s.len(),
{
    if s.len() > 0 && is_whitespace(s.last()) {
        lemma_trim_end_prefix(s.drop_last());
        assert(s.drop_last().take(trim_end(s).len() as int) == s.take(trim_end(s).len() as int));
        if s.len() > 0 && !is_whitespace(s[0]) {
            assert(s.drop_last()[0] == s[0]);
        }
    } else {
        assert(s.take(s.len() as int) == s);
    }
}

/// Trimming the start only shortens.
pub proof fn lemma_trim_start_len(s: Seq<char>)
    ensures
        trim_start(s).len() <= s.len(),
    decreases s.len(),
{
    if s.len() > 0 && is_whitespace(s[0]) {
        lemma_trim_start_len(s.drop_first());
    }
}

/// Trimming the start keeps a suffix of `s`.
pub proof fn lemma_trim_start_suffix(s: Seq<char>)
    ensures
        trim_start(s).len() <= s.len(),
        trim_start(s) == s.skip(s.len() - trim_start(s).len()),
    decreases s.len(),
{
    if s.len() > 0 && is_whitespace(s[0]) {
        lemma_trim_start_suffix(s.drop_first());
        assert(s.drop_first().skip(s.len() - 1 - trim_start(s).len()) == s.skip(s.len() - trim_start(s).len()));
    } else {
        assert(s.skip(0) == s);
    }
}

/// Every character of the trimmed sequence is a character of `s`.
pub proof fn lemma_trim_within(s: Seq<char>)
    ensures
        forall|k: int| 0 <= k < trim(s).len() ==> exists|j: int| 0 <= j < s.len() && s[j] == #[trigger] trim(s)[k],
{
    lemma_trim_start_suffix(s);
    let a = trim_start(s);
    lemma_trim_end_prefix(a);
    let off = s.len() - a.len();
    assert forall|k: int| 0 <= k < trim(s).len() implies exists|j: int| 0 <= j < s.len() && s[j] == #[trigger] trim(s)[k] by {
        assert(trim(s)[k] == a[k]);
        assert(a[k] == s[off + k]);
    }
}

/// What trimming the end leaves does not end with white space.
pub proof fn lemma_trim_end_last(s: Seq<char>)
    ensures
        trim_end(s).len() > 0 ==> !is_whitespace(trim_end(s).last()),
    decreases s.len(),
{
    if s.len() > 0 && is_whitespace(s.last()) {
        lemma_trim_end_last(s.drop_last());
    }
}

/// What trimming the start leaves does not start with white space.
pub proof fn lemma_trim_start_first(s: Seq<char>)
    ensures
        trim_start(s).len() > 0 ==> !is_whitespace(trim_start(s)[0]),
    decreases s.len(),
{
    if s.len() > 0 && is_whitespace(s[0]) {
        lemma_trim_start_first(s.drop_first());
    }
}

/// A trimmed sequence neither starts nor ends with white space.
pub proof fn lemma_trim_ends(s: Seq<char>)
    ensures
        trim(s).len() > 0 ==> !is_whitespace(trim(s)[0]) && !is_whitespace(trim(s).last()),
{
    let a = trim_start(s);
    lemma_trim_start_first(s);
    lemma_trim_end_prefix(a);
    lemma_trim_end_last(a);
    if trim(s).len() > 0 {
        assert(trim(s)[0] == a[0]);
    }
}

/// Trimming twice is trimming once.
pub proof fn lemma_trim_idempotent(s: Seq<char>)
    ensures
        trim(trim(s)) == trim(s),
{
    let t = trim(s);
    lemma_trim_ends(s);
    if t.len() > 0 {
        assert(trim_start(t) == t);
        assert(trim_end(t) == t);
    } else {
        assert(trim_start(t) == t);
        assert(trim_end(t) == t);
    }
}

/// A trimmed sequence that starts with a non-white-space character keeps it first.
pub proof fn lemma_trim_keeps_first(s: Seq<char>)
    requires
        s.len() > 0,
        !is_whitespace(s[0]),
    ensures
        trim(s).len() > 0,
        trim(s)[0] == s[0],
{
    assert(trim_start(s) == s);
    lemma_trim_end_prefix(s);
}

/// A sequence equal to its own trim neither starts nor ends with white space.
pub proof fn lemma_trimmed_ends(s: Seq<char>)
    requires
        trim(s) == s,
        s.len() > 0,
    ensures
        !is_whitespace(s[0]),
        !is_whitespace(s.last()),
{
    lemma_trim_start_len(s);
    lemma_trim_end_prefix(trim_start(s));
    if is_whitespace(s[0]) {
        lemma_trim_start_len(s.drop_first());
        assert(false);
    }
    assert(trim_start(s) == s);
    if is_whitespace(s.last()) {
        lemma_trim_end_prefix(s.drop_last());
        assert(false);
    }
}

/// `s` without leading and trailing white space.
pub fn trim_chars(s: &Vec<char>) -> (r: Vec<char>)
    ensures
        r@ == trim(s@),
{
    let mut i: usize = 0;
    while i < s.len() && char_is_whitespace(s[i])
        invariant
            i <= s.len(),
            forall|k: int| 0 <= k < i ==> is_whitespace(#[trigger] s@[k]),
        decreases s.len() - i,
    {
        i = i + 1;
    }
    proof {
        lemma_trim_start_skip(s@, i as int);
    }
    let ghost t = s@.skip(i as int);
    assert(trim_start(t) == t);
    let mut j: usize = s.len();
    while j > i && char_is_whitespace(s[j - 1])
        invariant
            i <= j <= s.len(),
            t == s@.skip(i as int),
            forall|k: int| j - i <= k < t.len() ==> is_whitespace(#[trigger] t[k]),
        decreases j,
    {
        assert(t[j - 1 - i] == s@[j - 1]);
        j = j - 1;
    }
    proof {
        lemma_trim_end_take(t, (j - i) as int);
    }
    let ghost u = t.take((j - i) as int);
    assert(trim_end(u) == u);
    let mut r: Vec<char> = Vec::new();
    let mut k = i;
    while k < j
        invariant
            i <= k <= j <= s.len(),
            r@ == s@.subrange(i as int, k as int),
        decreases j - k,
    {
        r.push(s[k]);
        assert(s@.subrange(i as int, k + 1) == s@.subrange(i as int, k as int).push(s@[k as int]));
        k = k + 1;
    }
    assert(r@ == u);
    r
}

/// The decimal representation of a signed number, with `-` when negative.
pub open spec fn idecimal(n: int) -> Seq<char> {
    if n < 0 {
        seq!['-'] + decimal((-n) as nat)
    } else {
        decimal(n as nat)
    }
}

/// Appends the decimal representation of a signed number.
pub fn push_idecimal(out: &mut Vec<char>, n: isize)
    ensures
        final(out)@ == old(out)@ + idecimal(n as int),
{
    if n < 0 {
        out.push('-');
        let m: u64 = (0i128 - n as i128) as u64;
        push_decimal(out, m);
        assert(old(out)@ + idecimal(n as int) == old(out)@.push('-') + decimal(m as nat));
    } else {
        push_decimal(out, n as u64);
    }
}

/// Every character of a decimal representation is a digit, the first is not
/// `+`, and the digits read back as the number.
pub proof fn lemma_decimal_digits(n: nat)
    ensures
        decimal(n).len() > 0,
        all_digits(decimal(n)),
        digits_value(decimal(n)) == n,
        decimal(n)[0] != '+',
    decreases n,
{
    lemma_digit_char_value(n % 10);
    if n < 10 {
        assert(decimal(n) == seq![digit_char(n)]);
        assert(decimal(n).drop_last() == Seq::<char>::empty());
        assert(decimal(n).last() == digit_char(n));
        assert(digits_value(Seq::<char>::empty()) == 0);
        assert(digits_value(decimal(n)) == digits_value(decimal(n).drop_last()) * 10 + digit_value(decimal(n).last()));
    } else {
        lemma_decimal_digits(n / 10);
        let d = decimal(n / 10);
        assert(decimal(n) == d.push(digit_char(n % 10)));
        assert(decimal(n).drop_last() == d);
        assert(decimal(n).last() == digit_char(n % 10));
        assert(digits_value(decimal(n)) == digits_value(d) * 10 + digit_value(digit_char(n % 10)));
        assert((n / 10) * 10 + n % 10 == n);
        assert(decimal(n)[0] == d[0]);
        assert forall|i: int| 0 <= i < decimal(n).len() implies is_digit(#[trigger] decimal(n)[i]) by {
            if i < d.len() {
                assert(decimal(n)[i] == d[i]);
            }
        }
    }
}

proof fn lemma_digit_char_value(d: nat)
    requires
        d < 10,
    ensures
        is_digit(digit_char(d)),
        digit_value(digit_char(d)) == d,
        digit_char(d) != '+',
{
}

/// Parsing the decimal representation of a number gives it back.
pub proof fn lemma_parse_decimal(n: nat, max: nat)
    requires
        n <= max,
    ensures
        parse_unsigned(decimal(n), max) == Some(n),
{
    lemma_decimal_digits(n);
}

} // verus!

verus! {

/// The parts joined with `sep` between consecutive parts (`[String]::join`).
pub open spec fn join(parts: Seq<Seq<char>>, sep: Seq<char>) -> Seq<char>
    decreases parts.len(),
{
    if parts.len() == 0 {
        Seq::empty()
    } else if parts.len() == 1 {
        parts[0]
    } else {
        join(parts.drop_last(), sep) + sep + parts.last()
    }
}

/// Joins strings with a separator.
pub fn join_strings(parts: &Vec<String>, sep: &str) -> (s: String)
    ensures
        s@ == join(parts@.map_values(|p: String| p@), sep@),
{
    let ghost views = parts@.map_values(|p: String| p@);
    let mut out: Vec<char> = Vec::new();
    for i in 0..parts.len()
        invariant
            views == parts@.map_values(|p: String| p@),
            out@ == join(views.take(i as int), sep@),
    {
        assert(views.take(i + 1).drop_last() == views.take(i as int));
        assert(views.take(i + 1).last() == parts@[i as int]@);
        if i > 0 {
            extend_with_str(&mut out, sep);
        } else {
            assert(views.take(0) == Seq::<Seq<char>>::empty());
        }
        extend_with_str(&mut out, parts[i].as_str());
        assert(i == 0 ==> views.take(1)[0] == parts@[0]@);
    }
    assert(views.take(parts.len() as int) == views);
    string_from_chars(&out)
}

/// Joins character sequences with a separator.
pub fn join_chars(parts: &Vec<Vec<char>>, sep: &str) -> (s: Vec<char>)
    ensures
        s@ == join(parts@.map_values(|p: Vec<char>| p@), sep@),
{
    let ghost views = parts@.map_values(|p: Vec<char>| p@);
    let mut out: Vec<char> = Vec::new();
    for i in 0..parts.len()
        invariant
            views == parts@.map_values(|p: Vec<char>| p@),
            out@ == join(views.take(i as int), sep@),
    {
        assert(views.take(i + 1).drop_last() == views.take(i as int));
        assert(views.take(i + 1).last() == parts@[i as int]@);
        if i > 0 {
            extend_with_str(&mut out, sep);
        } else {
            assert(views.take(0) == Seq::<Seq<char>>::empty());
        }
        extend_with(&mut out, &parts[i]);
        assert(i == 0 ==> views.take(1)[0] == parts@[0]@);
    }
    assert(views.take(parts.len() as int) == views);
    out
}

} // verus!

verus! {

/// Whether two character sequences are equal.
pub fn chars_eq(a: &Vec<char>, b: &Vec<char>) -> (r: bool)
    ensures
        r == (a@ == b@),
{
    if a.len() != b.len() {
        return false;
    }
    for k in 0..a.len()
        invariant
            a.len() == b.len(),
            forall|j: int| 0 <= j < k ==> a@[j] == b@[j],
    {
        if a[k] != b[k] {
            return false;
        }
    }
    assert(a@ =~= b@);
    true
}

/// Whether two strings are equal.
pub fn str_eq(a: &str, b: &str) -> (r: bool)
    ensures
        r == (a@ == b@),
{
    let x = str_chars(a);
    let y = str_chars(b);
    chars_eq(&x, &y)
}


/// Index of the first `c` in `s`, or -1 when `s` holds none.
pub open spec fn find_char(s: Seq<char>, c: char) -> int
    decreases s.len(),
{
    if s.len() == 0 {
        -1
    } else {
        let r = find_char(s.drop_last(), c);
        if r >= 0 {
            r
        } else if s.last() == c {
            s.len() - 1
        } else {
            -1
        }
    }
}

/// What the first `c` in `s` is, or that there is none.
pub proof fn lemma_find_char(s: Seq<char>, c: char)
    ensures
        -1 <= find_char(s, c) < s.len(),
        find_char(s, c) == -1 <==> (forall|k: int| 0 <= k < s.len() ==> s[k] != c),
        find_char(s, c) >= 0 ==> s[find_char(s, c)] == c,
        forall|k: int| 0 <= k < find_char(s, c) ==> s[k] != c,
    decreases s.len(),
{
    if s.len() > 0 {
        lemma_find_char(s.drop_last(), c);
        assert forall|k: int| 0 <= k < s.len() - 1 implies s.drop_last()[k] == s[k] by {}
        if find_char(s.drop_last(), c) < 0 && s.last() != c {
            assert forall|k: int| 0 <= k < s.len() implies s[k] != c by {
                if k < s.len() - 1 {
                    assert(s.drop_last()[k] == s[k]);
                }
            }
        }
    }
}

/// The first index of `c` in `t` with no `c` before it is what `find_char` gives.
pub proof fn lemma_find_char_at(t: Seq<char>, c: char, p: int)
    requires
        0 <= p < t.len(),
        t[p] == c,
        forall|k: int| 0 <= k < p ==> t[k] != c,
    ensures
        find_char(t, c) == p,
{
    lemma_find_char(t, c);
}

/// Position of the first `c` in `t`.
pub fn find_char_index(t: &Vec<char>, c: char) -> (r: Option<usize>)
    ensures
        match r {
            Some(p) => p < t@.len() && find_char(t@, c) == p as int,
            None => find_char(t@, c) == -1,
        },
{
    for i in 0..t.len()
        invariant
            forall|k: int| 0 <= k < i ==> t@[k] != c,
    {
        if t[i] == c {
            proof {
                lemma_find_char_at(t@, c, i as int);
            }
            return Some(i);
        }
    }
    proof {
        lemma_find_char(t@, c);
    }
    None
}

/// The characters of `t` from `lo` up to `hi`.
pub fn slice_chars(t: &Vec<char>, lo: usize, hi: usize) -> (r: Vec<char>)
    requires
        lo <= hi <= t.len(),
    ensures
        r@ == t@.subrange(lo as int, hi as int),
{
    let mut r: Vec<char> = Vec::new();
    for k in lo..hi
        invariant
            lo <= hi <= t.len(),
            r@ == t@.subrange(lo as int, k as int),
    {
        r.push(t[k]);
        assert(t@.subrange(lo as int, k + 1) == t@.subrange(lo as int, k as int).push(t@[k as int]));
    }
    r
}


/// The pieces of `s` between occurrences of `sep` (`str::split` with a
/// character); there is always at least one piece.
pub open spec fn pieces(s: Seq<char>, sep: char) -> Seq<Seq<char>>
    decreases s.len(),
{
    if s.len() == 0 {
        seq![Seq::empty()]
    } else {
        let prev = pieces(s.drop_last(), sep);
        if s.last() == sep {
            prev.push(Seq::empty())
        } else {
            prev.update(prev.len() - 1, prev.last().push(s.last()))
        }
    }
}

/// A text has at least one piece.
pub proof fn lemma_pieces_len(s: Seq<char>, sep: char)
    ensures
        pieces(s, sep).len() >= 1,
    decreases s.len(),
{
    if s.len() > 0 {
        lemma_pieces_len(s.drop_last(), sep);
    }
}

/// The `n`-th piece of `s` split at `sep`, or nothing when there are fewer
/// pieces (`split(sep).nth(n).unwrap_or("")`).
pub open spec fn nth_piece(s: Seq<char>, sep: char, n: int) -> Seq<char> {
    let ps = pieces(s, sep);
    if 0 <= n < ps.len() {
        ps[n]
    } else {
        Seq::empty()
    }
}

/// Splits `s` at every `sep`.
pub fn split_char(s: &Vec<char>, sep: char) -> (r: Vec<Vec<char>>)
    ensures
        r@.map_values(|l: Vec<char>| l@) == pieces(s@, sep),
{
    let mut done: Vec<Vec<char>> = Vec::new();
    let mut cur: Vec<char> = Vec::new();
    for i in 0..s.len()
        invariant
            done@.map_values(|l: Vec<char>| l@).push(cur@) == pieces(s@.take(i as int), sep),
    {
        assert(s@.take(i + 1).drop_last() == s@.take(i as int));
        let ghost before = done@;
        if s[i] == sep {
            done.push(cur);
            cur = Vec::new();
            assert(done@.map_values(|l: Vec<char>| l@) == before.map_values(|l: Vec<char>| l@).push(
                done@.last()@,
            ));
        } else {
            cur.push(s[i]);
        }
    }
    assert(s@.take(s.len() as int) == s@);
    let ghost before = done@;
    done.push(cur);
    assert(done@.map_values(|l: Vec<char>| l@) == before.map_values(|l: Vec<char>| l@).push(
        done@.last()@,
    ));
    done
}

/// The `n`-th piece of `s` split at `sep`, or an empty sequence.
pub fn nth_piece_chars(s: &Vec<char>, sep: char, n: usize) -> (r: Vec<char>)
    ensures
        r@ == nth_piece(s@, sep, n as int),
{
    let ps = split_char(s, sep);
    if n < ps.len() {
        let mut r: Vec<char> = Vec::new();
        extend_with(&mut r, &ps[n]);
        assert(r@ == ps@[n as int]@);
        r
    } else {
        Vec::new()
    }
}

/// The white-space separated words of `s` (`str::split_whitespace`).
pub open spec fn words(s: Seq<char>) -> Seq<Seq<char>>
    decreases s.len(),
{
    if s.len() == 0 {
        Seq::empty()
    } else {
        let prev = words(s.drop_last());
        let c = s.last();
        if is_whitespace(c) {
            prev
        } else if s.len() >= 2 && !is_whitespace(s[s.len() - 2]) {
            prev.update(prev.len() - 1, prev.last().push(c))
        } else {
            prev.push(seq![c])
        }
    }
}

/// A text that ends inside a word has at least one word.
pub proof fn lemma_words_nonempty(s: Seq<char>)
    requires
        s.len() > 0,
        !is_whitespace(s.last()),
    ensures
        words(s).len() > 0,
    decreases s.len(),
{
    if s.len() >= 2 && !is_whitespace(s[s.len() - 2]) {
        assert(s.drop_last().last() == s[s.len() - 2]);
        lemma_words_nonempty(s.drop_last());
    }
}

/// Splits `s` into its white-space separated words.
pub fn split_words(s: &Vec<char>) -> (r: Vec<Vec<char>>)
    ensures
        r@.map_values(|l: Vec<char>| l@) == words(s@),
{
    let mut out: Vec<Vec<char>> = Vec::new();
    for i in 0..s.len()
        invariant
            out@.map_values(|l: Vec<char>| l@) == words(s@.take(i as int)),
    {
        let ghost pre = s@.take(i as int);
        let ghost cur = s@.take(i + 1);
        assert(cur.drop_last() == pre);
        assert(cur.last() == s@[i as int]);
        let ghost before = out@;
        let c = s[i];
        if char_is_whitespace(c) {
        } else if i >= 1 && !char_is_whitespace(s[i - 1]) {
            assert(cur[cur.len() - 2] == s@[i - 1]);
            assert(pre.last() == s@[i - 1]);
            proof {
                lemma_words_nonempty(pre);
            }
            let mut w = out.pop().unwrap();
            w.push(c);
            out.push(w);
            assert(out@.map_values(|l: Vec<char>| l@) =~= before.map_values(|l: Vec<char>| l@).update(
                before.len() - 1,
                before.map_values(|l: Vec<char>| l@).last().push(c),
            ));
        } else {
            let mut w: Vec<char> = Vec::new();
            w.push(c);
            out.push(w);
            assert(out@.map_values(|l: Vec<char>| l@) =~= before.map_values(|l: Vec<char>| l@).push(
                seq![c],
            ));
        }
    }
    assert(s@.take(s.len() as int) == s@);
    out
}

/// `s` with every repetition of `p` at its end removed (`str::trim_end_matches`).
pub open spec fn strip_suffixes(s: Seq<char>, p: Seq<char>) -> Seq<char>
    decreases s.len(),
{
    if p.len() > 0 && ends_with(s, p) {
        strip_suffixes(s.take(s.len() - p.len()), p)
    } else {
        s
    }
}

/// `s` with every repetition of `p` at its start removed (`str::trim_start_matches`).
pub open spec fn strip_prefixes(s: Seq<char>, p: Seq<char>) -> Seq<char>
    decreases s.len(),
{
    if p.len() > 0 && starts_with(s, p) {
        strip_prefixes(s.skip(p.len() as int), p)
    } else {
        s
    }
}

/// Removes every repetition of `p` from the end of `s`.
pub fn strip_suffixes_chars(s: &Vec<char>, p: &Vec<char>) -> (r: Vec<char>)
    ensures
        r@ == strip_suffixes(s@, p@),
{
    let mut end = s.len();
    assert(s@.take(s.len() as int) == s@);
    if p.len() > 0 {
        while end >= p.len() && occurs_at_exec(s, p, end - p.len())
            invariant
                end <= s.len(),
                p.len() > 0,
                strip_suffixes(s@.take(end as int), p@) == strip_suffixes(s@, p@),
            decreases end,
        {
            let ghost t = s@.take(end as int);
            assert(t.skip(t.len() - p.len()) == s@.subrange(end - p.len(), end as int));
            assert(t.take(t.len() - p.len()) == s@.take(end - p.len()));
            end = end - p.len();
        }
        let ghost t = s@.take(end as int);
        if end >= p.len() {
            assert(t.skip(t.len() - p.len()) == s@.subrange(end - p.len(), end as int));
        }
    }
    assert(s@.take(s.len() as int) == s@);
    slice_chars(s, 0, end)
}

/// Removes every repetition of `p` from the start of `s`.
pub fn strip_prefixes_chars(s: &Vec<char>, p: &Vec<char>) -> (r: Vec<char>)
    ensures
        r@ == strip_prefixes(s@, p@),
{
    let mut start: usize = 0;
    assert(s@.skip(0) == s@);
    if p.len() > 0 {
        while p.len() <= s.len() - start && occurs_at_exec(s, p, start)
            invariant
                start <= s.len(),
                p.len() > 0,
                strip_prefixes(s@.skip(start as int), p@) == strip_prefixes(s@, p@),
            decreases s.len() - start,
        {
            let ghost t = s@.skip(start as int);
            assert(t.take(p.len() as int) == s@.subrange(start as int, start + p.len()));
            assert(t.skip(p.len() as int) == s@.skip(start + p.len()));
            start = start + p.len();
        }
        let ghost t = s@.skip(start as int);
        if p.len() <= s.len() - start {
            assert(t.take(p.len() as int) == s@.subrange(start as int, start + p.len()));
        }
    }
    assert(s@.skip(0) == s@);
    slice_chars(s, start, s.len())
}


/// The segments of `s` between line feeds (`s` split at every `'\n'`); there is
/// always at least one segment.
pub open spec fn segments(s: Seq<char>) -> Seq<Seq<char>>
    decreases s.len(),
{
    if s.len() == 0 {
        seq![Seq::empty()]
    } else {
        let prev = segments(s.drop_last());
        if s.last() == '\n' {
            prev.push(Seq::empty())
        } else {
            prev.update(prev.len() - 1, prev.last().push(s.last()))
        }
    }
}

/// A line without the carriage return that ends it, if any.
pub open spec fn strip_cr(l: Seq<char>) -> Seq<char> {
    if l.len() > 0 && l.last() == '\r' {
        l.drop_last()
    } else {
        l
    }
}

/// The lines of a text (`str::lines`): its segments, each one that a line feed
/// ends without a carriage return before that line feed, and without the empty
/// segment that follows a final line feed.
pub open spec fn text_lines(s: Seq<char>) -> Seq<Seq<char>> {
    let segs = segments(s);
    let body = segs.drop_last().map_values(|l: Seq<char>| strip_cr(l));
    if segs.last().len() == 0 {
        body
    } else {
        body.push(segs.last())
    }
}

/// A text has at least one segment.
pub proof fn lemma_segments_len(s: Seq<char>)
    ensures
        segments(s).len() >= 1,
    decreases s.len(),
{
    if s.len() > 0 {
        lemma_segments_len(s.drop_last());
    }
}

/// Splits a text at every line feed.
pub fn split_segments(s: &Vec<char>) -> (r: Vec<Vec<char>>)
    ensures
        r@.map_values(|l: Vec<char>| l@) == segments(s@),
{
    let mut done: Vec<Vec<char>> = Vec::new();
    let mut cur: Vec<char> = Vec::new();
    for i in 0..s.len()
        invariant
            done@.map_values(|l: Vec<char>| l@).push(cur@) == segments(s@.take(i as int)),
    {
        assert(s@.take(i + 1).drop_last() == s@.take(i as int));
        let ghost before = done@;
        if s[i] == '\n' {
            done.push(cur);
            cur = Vec::new();
            assert(done@.map_values(|l: Vec<char>| l@) == before.map_values(|l: Vec<char>| l@).push(
                done@.last()@,
            ));
        } else {
            cur.push(s[i]);
        }
    }
    assert(s@.take(s.len() as int) == s@);
    let ghost before = done@;
    done.push(cur);
    assert(done@.map_values(|l: Vec<char>| l@) == before.map_values(|l: Vec<char>| l@).push(
        done@.last()@,
    ));
    done
}

/// The lines of a text (`str::lines`).
pub fn split_lines(s: &Vec<char>) -> (r: Vec<Vec<char>>)
    ensures
        r@.map_values(|l: Vec<char>| l@) == text_lines(s@),
{
    let segs = split_segments(s);
    proof {
        lemma_segments_len(s@);
    }
    let ghost all = segs@.map_values(|l: Vec<char>| l@);
    let n = segs.len();
    let mut out: Vec<Vec<char>> = Vec::new();
    for i in 0..n - 1
        invariant
            n == segs.len(),
            n >= 1,
            all == segs@.map_values(|l: Vec<char>| l@),
            out@.map_values(|l: Vec<char>| l@) == all.take(i as int).map_values(|l: Seq<char>| strip_cr(l)),
    {
        let seg = &segs[i];
        let mut line: Vec<char> = Vec::new();
        extend_with(&mut line, seg);
        if line.len() > 0 && line[line.len() - 1] == '\r' {
            line.pop();
        }
        assert(line@ == strip_cr(all[i as int]));
        let ghost before = out@;
        out.push(line);
        assert(out@.map_values(|l: Vec<char>| l@) == before.map_values(|l: Vec<char>| l@).push(line@));
        assert(all.take(i + 1).map_values(|l: Seq<char>| strip_cr(l)) == all.take(i as int).map_values(
            |l: Seq<char>| strip_cr(l),
        ).push(strip_cr(all[i as int])));
    }
    assert(all.take(n - 1) == all.drop_last());
    if segs[n - 1].len() > 0 {
        let mut last: Vec<char> = Vec::new();
        extend_with(&mut last, &segs[n - 1]);
        let ghost before = out@;
        out.push(last);
        assert(out@.map_values(|l: Vec<char>| l@) == before.map_values(|l: Vec<char>| l@).push(all.last()));
    }
    out
}


/// `s` with every occurrence of the non-empty pattern `from` replaced by `to`,
/// from left to right without overlaps (`str::replace`).
pub open spec fn replace_all(s: Seq<char>, from: Seq<char>, to: Seq<char>) -> Seq<char>
    decreases s.len(),
{
    if from.len() == 0 || s.len() < from.len() {
        s
    } else if starts_with(s, from) {
        to + replace_all(s.skip(from.len() as int), from, to)
    } else {
        seq![s[0]] + replace_all(s.drop_first(), from, to)
    }
}

/// Replaces every occurrence of `from` in `s` by `to`.
pub fn replace_chars(s: &Vec<char>, from: &Vec<char>, to: &Vec<char>) -> (r: Vec<char>)
    requires
        from.len() > 0,
    ensures
        r@ == replace_all(s@, from@, to@),
{
    let mut out: Vec<char> = Vec::new();
    let mut i: usize = 0;
    assert(s@.skip(0) == s@);
    while i < s.len()
        invariant
            i <= s.len(),
            from.len() > 0,
            out@ + replace_all(s@.skip(i as int), from@, to@) == replace_all(s@, from@, to@),
        decreases s.len() - i,
    {
        let ghost rest = s@.skip(i as int);
        if from.len() <= s.len() - i && occurs_at_exec(s, from, i) {
            assert(rest.take(from.len() as int) == s@.subrange(i as int, i + from.len()));
            assert(rest.skip(from.len() as int) == s@.skip(i + from.len()));
            let ghost before = out@;
            extend_with(&mut out, to);
            assert(before + (to@ + replace_all(s@.skip(i + from.len()), from@, to@)) == out@
                + replace_all(s@.skip(i + from.len()), from@, to@));
            i = i + from.len();
        } else {
            if from.len() <= s.len() - i {
                assert(rest.take(from.len() as int) == s@.subrange(i as int, i + from.len()));
            }
            assert(rest.drop_first() == s@.skip(i + 1));
            if from.len() > s.len() - i {
                assert(replace_all(rest, from@, to@) == rest);
                let ghost before = out@;
                let tail = slice_chars(s, i, s.len());
                extend_with(&mut out, &tail);
                assert(s@.skip(s.len() as int) == Seq::<char>::empty());
                assert(replace_all(s@.skip(s.len() as int), from@, to@) == Seq::<char>::empty());
                assert(out@ + replace_all(s@.skip(s.len() as int), from@, to@) == before + rest);
                i = s.len();
            } else {
                let ghost before = out@;
                out.push(s[i]);
                assert(before + (seq![s@[i as int]] + replace_all(s@.skip(i + 1), from@, to@)) == out@
                    + replace_all(s@.skip(i + 1), from@, to@));
                i = i + 1;
            }
        }
    }
    assert(s@.skip(s.len() as int) == Seq::<char>::empty());
    assert(out@ + Seq::<char>::empty() == out@);
    out
}


/// Index of the first occurrence of the non-empty pattern `p` in `s`, or -1
/// when there is none.
pub open spec fn find_str(s: Seq<char>, p: Seq<char>) -> int
    decreases s.len(),
{
    if p.len() == 0 || s.len() < p.len() {
        -1
    } else {
        let r = find_str(s.drop_last(), p);
        if r >= 0 {
            r
        } else if ends_with(s, p) {
            s.len() - p.len()
        } else {
            -1
        }
    }
}

/// Where the first occurrence of a non-empty pattern is, or that there is none.
pub proof fn lemma_find_str(s: Seq<char>, p: Seq<char>)
    requires
        p.len() > 0,
    ensures
        -1 <= find_str(s, p),
        find_str(s, p) >= 0 ==> find_str(s, p) + p.len() <= s.len(),
        find_str(s, p) == -1 <==> (forall|i: int| !occurs_at(s, p, i)),
        find_str(s, p) >= 0 ==> occurs_at(s, p, find_str(s, p)),
        forall|i: int| 0 <= i < find_str(s, p) ==> !occurs_at(s, p, i),
    decreases s.len(),
{
    if s.len() >= p.len() {
        let d = s.drop_last();
        lemma_find_str(d, p);
        assert forall|i: int| 0 <= i && i + p.len() <= d.len() implies (occurs_at(d, p, i) == occurs_at(s, p, i)) by {
            assert(d.subrange(i, i + p.len()) == s.subrange(i, i + p.len()));
        }
        assert(ends_with(s, p) == occurs_at(s, p, s.len() - p.len())) by {
            assert(s.skip(s.len() - p.len()) == s.subrange(s.len() - p.len(), s.len() as int));
        }
        assert forall|i: int| 0 <= i < find_str(s, p) implies !occurs_at(s, p, i) by {
            if i + p.len() <= d.len() {
                assert(occurs_at(d, p, i) == occurs_at(s, p, i));
            }
        }
        if find_str(s, p) == -1 {
            assert forall|i: int| !occurs_at(s, p, i) by {
                if 0 <= i && i + p.len() <= d.len() {
                    assert(occurs_at(d, p, i) == occurs_at(s, p, i));
                }
            }
        }
        if find_str(d, p) >= 0 {
            assert(occurs_at(d, p, find_str(d, p)) == occurs_at(s, p, find_str(d, p)));
        }
    }
}

/// Position of the first occurrence of the non-empty pattern `p` in `s`.
pub fn find_str_index(s: &Vec<char>, p: &Vec<char>) -> (r: Option<usize>)
    requires
        p.len() > 0,
    ensures
        match r {
            Some(i) => find_str(s@, p@) == i as int && i + p.len() <= s.len(),
            None => find_str(s@, p@) == -1,
        },
{
    proof {
        lemma_find_str(s@, p@);
    }
    if p.len() > s.len() {
        return None;
    }
    let last = s.len() - p.len();
    let mut i: usize = 0;
    loop
        invariant
            p.len() > 0,
            last == s.len() - p.len(),
            i <= last,
            forall|k: int| 0 <= k < i ==> !occurs_at(s@, p@, k),
            -1 <= find_str(s@, p@),
            find_str(s@, p@) >= 0 ==> find_str(s@, p@) + p.len() <= s.len(),
            find_str(s@, p@) == -1 <==> (forall|k: int| !occurs_at(s@, p@, k)),
            find_str(s@, p@) >= 0 ==> occurs_at(s@, p@, find_str(s@, p@)),
            forall|k: int| 0 <= k < find_str(s@, p@) ==> !occurs_at(s@, p@, k),
        decreases last - i,
    {
        if occurs_at_exec(s, p, i) {
            return Some(i);
        }
        if i == last {
            assert forall|k: int| !occurs_at(s@, p@, k) by {
                if 0 <= k && k + p.len() <= s.len() {
                    assert(k <= last);
                }
            }
            return None;
        }
        i = i + 1;
    }
}

/// The second piece of `s` split at the non-empty pattern `p`
/// (`split(p).nth(1)`): the text after the first occurrence up to the next one.
pub open spec fn second_piece(s: Seq<char>, p: Seq<char>) -> Option<Seq<char>> {
    let i = find_str(s, p);
    if i < 0 {
        None
    } else {
        let rest = s.skip(i + p.len());
        let j = find_str(rest, p);
        Some(if j < 0 { rest } else { rest.take(j) })
    }
}

/// The second piece of `s` split at `p`.
pub fn second_piece_chars(s: &Vec<char>, p: &Vec<char>) -> (r: Option<Vec<char>>)
    requires
        p.len() > 0,
    ensures
        match r {
            Some(v) => second_piece(s@, p@) == Some(v@),
            None => second_piece(s@, p@) is None,
        },
{
    match find_str_index(s, p) {
        None => None,
        Some(i) => {
            let rest = slice_chars(s, i + p.len(), s.len());
            assert(rest@ == s@.skip(i + p.len()));
            match find_str_index(&rest, p) {
                None => Some(rest),
                Some(j) => {
                    let head = slice_chars(&rest, 0, j);
                    assert(head@ == rest@.take(j as int));
                    Some(head)
                },
            }
        },
    }
}

} // verus!
