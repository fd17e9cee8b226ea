//! Generic configuration in a yaml-like `key: value` text form: parsing the text
//! into entries and rendering entries (with a comment header) back into text.
//!
//! Reading and writing the file itself happens outside the library; here the
//! text is turned into entries and entries into text.
use vstd::prelude::*;
use crate::text::{
    str_chars, string_from_chars, trim, trim_chars, is_whitespace, extend_with, extend_with_str,
    lemma_trim_keeps_first, lemma_trimmed_ends, lemma_trim_within, trim_start, trim_end, find_char,
    lemma_find_char, lemma_find_char_at, find_char_index, slice_chars, segments, text_lines,
    lemma_segments_len, split_lines, strip_cr, lemma_trim_end_last, lemma_trim_idempotent, lemma_trim_ends,
};

verus! {

/// Implemented by application-specific configuration field structures.
pub trait ConfigFields: Default {
    /// Update the field matching `key` with value `val`.
    fn parse_field(&mut self, key: &str, val: &str);

    /// The fields as a list of key-value string pairs.
    fn serialize_fields(&self) -> Vec<(String, String)>;
}

/// Generic application configuration wrapper.
pub struct AppConfig<T: ConfigFields> {
    pub fields: T,
}

/// The entry a configuration line holds: none for a blank line or a `#` comment
/// or a line without `:`; else the trimmed text before the first `:` as key and
/// the trimmed text after it as value.
pub open spec fn line_entry(line: Seq<char>) -> Option<(Seq<char>, Seq<char>)> {
    let t = trim(line);
    if t.len() == 0 || t[0] == '#' {
        None
    } else {
        let p = find_char(t, ':');
        if p < 0 {
            None
        } else {
            Some((trim(t.take(p)), trim(t.skip(p + 1))))
        }
    }
}

/// The entries of a sequence of lines, in order.
pub open spec fn config_entries(lines: Seq<Seq<char>>) -> Seq<(Seq<char>, Seq<char>)>
    decreases lines.len(),
{
    if lines.len() == 0 {
        Seq::empty()
    } else {
        let prev = config_entries(lines.drop_last());
        match line_entry(lines.last()) {
            Some(e) => prev.push(e),
            None => prev,
        }
    }
}

/// The entries of a configuration text.
pub open spec fn text_entries(s: Seq<char>) -> Seq<(Seq<char>, Seq<char>)> {
    config_entries(text_lines(s))
}

/// The views of a list of string pairs.
pub open spec fn pair_views(v: Seq<(String, String)>) -> Seq<(Seq<char>, Seq<char>)> {
    v.map_values(|p: (String, String)| (p.0@, p.1@))
}

/// The entry a configuration line holds, if any.
pub fn parse_line_entry(line: &Vec<char>) -> (r: Option<(Vec<char>, Vec<char>)>)
    ensures
        match r {
            Some(e) => line_entry(line@) == Some((e.0@, e.1@)),
            None => line_entry(line@) is None,
        },
{
    let t = trim_chars(line);
    if t.len() == 0 || t[0] == '#' {
        return None;
    }
    match find_char_index(&t, ':') {
        None => None,
        Some(p) => {
            let before = slice_chars(&t, 0, p);
            let after = slice_chars(&t, p + 1, t.len());
            assert(before@ == t@.take(p as int));
            assert(after@ == t@.skip(p + 1));
            let k = trim_chars(&before);
            let v = trim_chars(&after);
            Some((k, v))
        },
    }
}

/// The entries of a configuration text, in order: for each line that is not
/// blank, not a `#` comment and holds a `:`, the trimmed key before the first
/// `:` and the trimmed value after it.
pub fn parse_config_text(content: &str) -> (r: Vec<(String, String)>)
    ensures
        pair_views(r@) == text_entries(content@),
{
    let cs = str_chars(content);
    let lines = split_lines(&cs);
    let ghost views = lines@.map_values(|l: Vec<char>| l@);
    let mut out: Vec<(String, String)> = Vec::new();
    for i in 0..lines.len()
        invariant
            views == lines@.map_values(|l: Vec<char>| l@),
            views == text_lines(content@),
            pair_views(out@) == config_entries(views.take(i as int)),
    {
        assert(views.take(i + 1).drop_last() == views.take(i as int));
        assert(views.take(i + 1).last() == lines@[i as int]@);
        let ghost before = out@;
        match parse_line_entry(&lines[i]) {
            Some(e) => {
                let k = string_from_chars(&e.0);
                let v = string_from_chars(&e.1);
                out.push((k, v));
                assert(pair_views(out@) == pair_views(before).push((e.0@, e.1@)));
            },
            None => {},
        }
    }
    assert(views.take(lines.len() as int) == views);
    out
}

impl<T: ConfigFields> AppConfig<T> {
    /// A configuration built from the defaults, with each entry of `content`
    /// handed in order to `ConfigFields::parse_field`: the fields pass through
    /// one state per entry, from what `T::default()` gave to the result, each
    /// step one call of `parse_field` with that entry's key and value.
    pub fn from_text(content: &str) -> (r: Self)
        ensures
            exists|states: Seq<T>|
                #![trigger states.len()]
                states.len() == text_entries(content@).len() + 1
                    && call_ensures(T::default, (), states[0])
                    && states.last() == r.fields
                    && forall|i: int|
                        #![trigger states[i]]
                        0 <= i < text_entries(content@).len() ==> exists|m: &mut T, k: &str, v: &str|
                            mut_ref_current(m) == states[i] && mut_ref_future(m) == states[i + 1]
                                && k@ == text_entries(content@)[i].0 && v@ == text_entries(content@)[i].1
                                && #[trigger] call_ensures(T::parse_field, (m, k, v), ()),
    {
        let entries = parse_config_text(content);
        let make = T::default;
        let parse = T::parse_field;
        let mut fields = make();
        let ghost mut states: Seq<T> = seq![fields];
        let ghost es = pair_views(entries@);
        for i in 0..entries.len()
            invariant
                es == pair_views(entries@),
                es == text_entries(content@),
                parse == T::parse_field,
                states.len() == i + 1,
                call_ensures(T::default, (), states[0]),
                states.last() == fields,
                forall|j: int|
                    #![trigger states[j]]
                    0 <= j < i ==> exists|m: &mut T, k: &str, v: &str|
                        mut_ref_current(m) == states[j] && mut_ref_future(m) == states[j + 1]
                            && k@ == es[j].0 && v@ == es[j].1
                            && #[trigger] call_ensures(T::parse_field, (m, k, v), ()),
        {
            parse(&mut fields, entries[i].0.as_str(), entries[i].1.as_str());
            proof {
                states = states.push(fields);
            }
        }
        AppConfig { fields }
    }

    /// The configuration text of these fields under `header`: the header
    /// followed by the pairs that `serialize_fields` gives for them.
    pub fn to_text(&self, header: &str) -> (r: String)
        ensures
            exists|pairs: Vec<(String, String)>|
                call_ensures(T::serialize_fields, (&self.fields,), pairs)
                && r@ == config_text(header@, #[trigger] pair_views(pairs@)),
    {
        let serialize = T::serialize_fields;
        let pairs = serialize(&self.fields);
        render_config_text(header, &pairs)
    }
}

// ---------------------------------------------------------------------------
// Rendering
// ---------------------------------------------------------------------------

/// A header line as a comment: the trimmed line, behind `"# "` unless it
/// already starts with `#`.
pub open spec fn comment_line(line: Seq<char>) -> Seq<char> {
    let t = trim(line);
    if t.len() > 0 && t[0] == '#' {
        t
    } else {
        "# "@ + t
    }
}

/// The lines a header becomes: one comment per header line, then a blank line;
/// nothing for an empty header.
pub open spec fn header_lines(header: Seq<char>) -> Seq<Seq<char>> {
    if header.len() == 0 {
        Seq::empty()
    } else {
        text_lines(header).map_values(|l: Seq<char>| comment_line(l)).push(Seq::empty())
    }
}

/// The line of one entry: `key: value`.
pub open spec fn entry_line(e: (Seq<char>, Seq<char>)) -> Seq<char> {
    e.0 + ": "@ + e.1
}

/// The lines of the entries, in order.
pub open spec fn entry_lines(entries: Seq<(Seq<char>, Seq<char>)>) -> Seq<Seq<char>> {
    entries.map_values(|e: (Seq<char>, Seq<char>)| entry_line(e))
}

/// Lines, each followed by a line feed.
pub open spec fn unlines(ls: Seq<Seq<char>>) -> Seq<char>
    decreases ls.len(),
{
    if ls.len() == 0 {
        Seq::empty()
    } else {
        unlines(ls.drop_last()) + ls.last() + "\n"@
    }
}

/// The configuration text of `entries` under `header`.
pub open spec fn config_text(header: Seq<char>, entries: Seq<(Seq<char>, Seq<char>)>) -> Seq<char> {
    unlines(header_lines(header) + entry_lines(entries))
}

/// Appends `line` and a line feed.
fn push_line(out: &mut Vec<char>, line: &Vec<char>)
    ensures
        final(out)@ == old(out)@ + line@ + "\n"@,
{
    extend_with(out, line);
    extend_with_str(out, "\n");
}

/// A header line as a comment.
fn make_comment_line(line: &Vec<char>) -> (r: Vec<char>)
    ensures
        r@ == comment_line(line@),
{
    let t = trim_chars(line);
    if t.len() > 0 && t[0] == '#' {
        t
    } else {
        let mut r: Vec<char> = Vec::new();
        extend_with_str(&mut r, "# ");
        extend_with(&mut r, &t);
        r
    }
}

/// The configuration text of `pairs` under `header`: each header line as a `#`
/// comment and a blank line after the header (when it is not empty), then one
/// `key: value` line per pair.
pub fn render_config_text(header: &str, pairs: &Vec<(String, String)>) -> (r: String)
    ensures
        r@ == config_text(header@, pair_views(pairs@)),
{
    let mut out: Vec<char> = Vec::new();
    let ghost mut all: Seq<Seq<char>> = Seq::empty();
    let hs = str_chars(header);
    if hs.len() > 0 {
        let lines = split_lines(&hs);
        let ghost views = lines@.map_values(|l: Vec<char>| l@);
        for i in 0..lines.len()
            invariant
                views == lines@.map_values(|l: Vec<char>| l@),
                all == views.take(i as int).map_values(|l: Seq<char>| comment_line(l)),
                out@ == unlines(all),
        {
            let c = make_comment_line(&lines[i]);
            push_line(&mut out, &c);
            proof {
                assert(views.take(i + 1).map_values(|l: Seq<char>| comment_line(l)) == all.push(c@));
                all = all.push(c@);
                assert(all.drop_last() =~= views.take(i as int).map_values(|l: Seq<char>| comment_line(l)));
            }
        }
        let empty: Vec<char> = Vec::new();
        push_line(&mut out, &empty);
        proof {
            assert(views.take(lines.len() as int) == views);
            let prev = all;
            all = all.push(Seq::empty());
            assert(all.drop_last() == prev);
            assert(all == header_lines(header@));
        }
    } else {
        assert(all == header_lines(header@));
    }
    let ghost hl = all;
    let ghost entries = pair_views(pairs@);
    for i in 0..pairs.len()
        invariant
            hl == header_lines(header@),
            entries == pair_views(pairs@),
            all == hl + entry_lines(entries.take(i as int)),
            out@ == unlines(all),
    {
        let mut line: Vec<char> = Vec::new();
        extend_with_str(&mut line, pairs[i].0.as_str());
        extend_with_str(&mut line, ": ");
        extend_with_str(&mut line, pairs[i].1.as_str());
        push_line(&mut out, &line);
        proof {
            let prev = all;
            assert(line@ == entry_line(entries[i as int]));
            all = all.push(line@);
            assert(all.drop_last() == prev);
            assert(entry_lines(entries.take(i + 1)) == entry_lines(entries.take(i as int)).push(line@));
            assert(all == hl + entry_lines(entries.take(i + 1)));
        }
    }
    assert(entries.take(pairs.len() as int) == entries);
    string_from_chars(&out)
}


// ---------------------------------------------------------------------------
// Saving and loading again
// ---------------------------------------------------------------------------

/// `s` holds no line feed.
pub open spec fn no_newline(s: Seq<char>) -> bool {
    forall|k: int| 0 <= k < s.len() ==> s[k] != '\n'
}

/// An entry whose line reads back as the same entry: its key is trimmed, holds
/// no `:` and does not start with `#`; its value is trimmed; neither holds a
/// line feed.
pub open spec fn entry_reads_back(e: (Seq<char>, Seq<char>)) -> bool {
    &&& trim(e.0) == e.0
    &&& no_newline(e.0)
    &&& forall|k: int| 0 <= k < e.0.len() ==> e.0[k] != ':'
    &&& !(e.0.len() > 0 && e.0[0] == '#')
    &&& trim(e.1) == e.1
    &&& no_newline(e.1)
}

/// Appending text without a line feed extends the last segment.
proof fn lemma_segments_append(s: Seq<char>, t: Seq<char>)
    requires
        no_newline(t),
    ensures
        segments(s + t) == segments(s).update(segments(s).len() - 1, segments(s).last() + t),
    decreases t.len(),
{
    lemma_segments_len(s);
    if t.len() == 0 {
        assert(s + t == s);
        assert(segments(s).last() + t == segments(s).last());
        assert(segments(s).update(segments(s).len() - 1, segments(s).last()) == segments(s));
    } else {
        let t0 = t.drop_last();
        lemma_segments_append(s, t0);
        assert((s + t).drop_last() == s + t0);
        assert((s + t).last() == t.last());
        assert(t.last() != '\n');
        lemma_segments_len(s + t0);
        let sg = segments(s);
        let n = sg.len() - 1;
        let p = segments(s + t0);
        assert(p == sg.update(n, sg.last() + t0));
        assert(p.len() == sg.len());
        assert(p.last() == sg.last() + t0);
        assert(segments(s + t) == p.update(n, p.last().push(t.last())));
        assert(sg.last() + t0 + seq![t.last()] =~= sg.last() + t);
        assert(p.last().push(t.last()) =~= sg.last() + t);
        assert(p.update(n, p.last().push(t.last())) =~= sg.update(n, sg.last() + t));
    }
}

/// The segments of lines each followed by a line feed are those lines and an
/// empty last segment.
proof fn lemma_segments_unlines(ls: Seq<Seq<char>>)
    requires
        forall|i: int| 0 <= i < ls.len() ==> no_newline(#[trigger] ls[i]),
    ensures
        segments(unlines(ls)) == ls.push(Seq::empty()),
    decreases ls.len(),
{
    if ls.len() == 0 {
        assert(segments(Seq::<char>::empty()) == seq![Seq::<char>::empty()]);
    } else {
        let prev = ls.drop_last();
        assert forall|i: int| 0 <= i < prev.len() implies no_newline(#[trigger] prev[i]) by {
            assert(prev[i] == ls[i]);
        }
        lemma_segments_unlines(prev);
        let u = unlines(prev);
        let l = ls.last();
        assert(no_newline(ls[ls.len() - 1]));
        lemma_segments_append(u, l);
        reveal_strlit("\n");
        let w = u + l + "\n"@;
        assert(w.drop_last() == u + l);
        assert(w.last() == '\n');
        assert(Seq::<char>::empty() + l == l);
        assert(segments(w) == segments(u + l).push(Seq::empty()));
        assert(prev.push(Seq::empty()).update(prev.len() as int, l) == ls);
    }
}

/// The entries of two runs of lines are the entries of the first, then those of
/// the second.
proof fn lemma_entries_concat(a: Seq<Seq<char>>, b: Seq<Seq<char>>)
    ensures
        config_entries(a + b) == config_entries(a) + config_entries(b),
    decreases b.len(),
{
    if b.len() == 0 {
        assert(a + b == a);
        assert(config_entries(a) + config_entries(b) == config_entries(a));
    } else {
        lemma_entries_concat(a, b.drop_last());
        assert((a + b).drop_last() == a + b.drop_last());
        assert((a + b).last() == b.last());
        match line_entry(b.last()) {
            Some(e) => {
                assert(config_entries(a) + config_entries(b.drop_last()).push(e) == (config_entries(a)
                    + config_entries(b.drop_last())).push(e));
            },
            None => {},
        }
    }
}

/// A comment line holds no entry.
proof fn lemma_comment_no_entry(l: Seq<char>)
    ensures
        line_entry(comment_line(l)) is None,
{
    let t = trim(l);
    let c = comment_line(l);
    reveal_strlit("# ");
    assert(!is_whitespace('#'));
    if t.len() > 0 && t[0] == '#' {
        lemma_trim_keeps_first(t);
    } else {
        assert(c[0] == '#');
        lemma_trim_keeps_first(c);
    }
}

/// The header holds no entry.
proof fn lemma_header_no_entries(hs: Seq<Seq<char>>, header: Seq<char>)
    requires
        hs.len() <= header_lines(header).len(),
        hs == header_lines(header).take(hs.len() as int),
    ensures
        config_entries(hs) == Seq::<(Seq<char>, Seq<char>)>::empty(),
    decreases hs.len(),
{
    if hs.len() > 0 {
        let n = hs.len() - 1;
        assert(hs.drop_last() == header_lines(header).take(n));
        lemma_header_no_entries(hs.drop_last(), header);
        let tl = text_lines(header);
        if n < tl.len() {
            assert(hs.last() == comment_line(tl[n]));
            lemma_comment_no_entry(tl[n]);
        } else {
            assert(hs.last() == Seq::<char>::empty());
            assert(trim_start(Seq::<char>::empty()) == Seq::<char>::empty());
            assert(trim_end(Seq::<char>::empty()) == Seq::<char>::empty());
        }
    }
}

/// The line of an entry that reads back holds exactly that entry.
proof fn lemma_entry_line_reads_back(e: (Seq<char>, Seq<char>))
    requires
        entry_reads_back(e),
    ensures
        line_entry(entry_line(e)) == Some(e),
        no_newline(entry_line(e)),
{
    let (k, v) = e;
    reveal_strlit(": ");
    reveal_strlit(":");
    let body = entry_line(e);
    assert(body == k + ": "@ + v);
    assert(body.len() == k.len() + 2 + v.len());
    assert(body[k.len() as int] == ':');
    assert(body[k.len() as int + 1] == ' ');
    assert forall|j: int| 0 <= j < k.len() implies body[j] == k[j] by {}
    assert forall|j: int| 0 <= j < v.len() implies body[k.len() + 2 + j] == v[j] by {}
    assert(!is_whitespace(':'));
    assert(!is_whitespace('#'));
    assert(is_whitespace(' '));
    if k.len() > 0 {
        lemma_trimmed_ends(k);
    }
    if v.len() > 0 {
        lemma_trimmed_ends(v);
    }
    assert(!is_whitespace(body[0]));
    assert(trim_start(body) == body);
    let rest = if v.len() > 0 { " "@ + v } else { Seq::empty() };
    let t = k + ":"@ + rest;
    if v.len() > 0 {
        reveal_strlit(" ");
        assert(body.last() == v.last());
        assert(trim_end(body) == body);
        assert(body =~= t);
    } else {
        assert(body.drop_last() == k + ":"@);
        assert((k + ":"@).last() == ':');
        assert(trim_end(k + ":"@) == k + ":"@);
        assert(trim_end(body) == k + ":"@);
        assert(t == k + ":"@);
    }
    assert(trim(body) == t);
    assert(t[k.len() as int] == ':');
    assert forall|j: int| 0 <= j < k.len() implies t[j] != ':' by {
        assert(t[j] == k[j]);
    }
    lemma_find_char_at(t, ':', k.len() as int);
    assert(t.take(k.len() as int) == k);
    assert(t.skip(k.len() as int + 1) == rest);
    if v.len() > 0 {
        assert(rest.drop_first() == v);
        assert(trim_start(rest) == trim_start(v));
        assert(trim_start(v) == v);
        assert(trim_end(v) == v);
    } else {
        assert(trim_start(rest) == rest);
        assert(trim_end(rest) == rest);
    }
    assert(t[0] != '#');
    assert forall|j: int| 0 <= j < body.len() implies body[j] != '\n' by {
        if j < k.len() {
            assert(body[j] == k[j]);
        } else if j >= k.len() + 2 {
            assert(body[j] == v[j - k.len() - 2]);
        }
    }
}

/// The entry lines of entries that read back hold exactly those entries.
proof fn lemma_entry_lines(entries: Seq<(Seq<char>, Seq<char>)>)
    requires
        forall|i: int| 0 <= i < entries.len() ==> entry_reads_back(#[trigger] entries[i]),
    ensures
        config_entries(entry_lines(entries)) == entries,
        forall|i: int| 0 <= i < entries.len() ==> no_newline(#[trigger] entry_lines(entries)[i]),
    decreases entries.len(),
{
    let ls = entry_lines(entries);
    if entries.len() > 0 {
        let prev = entries.drop_last();
        assert forall|i: int| 0 <= i < prev.len() implies entry_reads_back(#[trigger] prev[i]) by {
            assert(prev[i] == entries[i]);
        }
        lemma_entry_lines(prev);
        assert(ls.drop_last() == entry_lines(prev));
        assert(entry_reads_back(entries[entries.len() - 1]));
        lemma_entry_line_reads_back(entries.last());
        assert(ls.last() == entry_line(entries.last()));
        assert(prev.push(entries.last()) == entries);
        assert forall|i: int| 0 <= i < entries.len() implies no_newline(#[trigger] ls[i]) by {
            assert(entry_reads_back(entries[i]));
            lemma_entry_line_reads_back(entries[i]);
        }
    }
}

/// Segments hold no line feed.
proof fn lemma_segments_no_newline(s: Seq<char>)
    ensures
        forall|i: int| 0 <= i < segments(s).len() ==> no_newline(#[trigger] segments(s)[i]),
    decreases s.len(),
{
    if s.len() > 0 {
        lemma_segments_no_newline(s.drop_last());
        lemma_segments_len(s.drop_last());
        let prev = segments(s.drop_last());
        if s.last() != '\n' {
            let l = prev.last().push(s.last());
            assert(no_newline(prev[prev.len() - 1]));
            assert(no_newline(l));
        }
    }
}

/// Header comment lines hold no line feed.
proof fn lemma_header_no_newline(header: Seq<char>)
    ensures
        forall|i: int| 0 <= i < header_lines(header).len() ==> no_newline(#[trigger] header_lines(header)[i]),
{
    if header.len() > 0 {
        let tl = text_lines(header);
        lemma_segments_no_newline(header);
        lemma_segments_len(header);
        let segs = segments(header);
        assert forall|i: int| 0 <= i < tl.len() implies no_newline(#[trigger] tl[i]) by {
            assert(no_newline(segs[i]));
            if i < segs.len() - 1 {
                assert(tl[i] == strip_cr(segs[i]));
            } else {
                assert(tl[i] == segs[i]);
            }
        }
        assert forall|i: int| 0 <= i < header_lines(header).len() implies no_newline(#[trigger] header_lines(header)[i]) by {
            if i < tl.len() {
                let l = tl[i];
                lemma_trim_within(l);
                let t = trim(l);
                assert forall|k: int| 0 <= k < t.len() implies t[k] != '\n' by {
                    let j = choose|j: int| 0 <= j < l.len() && l[j] == t[k];
                }
                let c = comment_line(l);
                reveal_strlit("# ");
                assert forall|k: int| 0 <= k < c.len() implies c[k] != '\n' by {
                    if !(t.len() > 0 && t[0] == '#') && k >= 2 {
                        assert(c[k] == t[k - 2]);
                    }
                }
            }
        }
    }
}

/// Header comment lines do not end with a carriage return.
proof fn lemma_header_no_cr(header: Seq<char>)
    ensures
        forall|i: int| 0 <= i < header_lines(header).len() ==> strip_cr(#[trigger] header_lines(header)[i])
            == header_lines(header)[i],
{
    reveal_strlit("# ");
    let hl = header_lines(header);
    assert forall|i: int| 0 <= i < hl.len() implies strip_cr(#[trigger] hl[i]) == hl[i] by {
        if header.len() > 0 && i < text_lines(header).len() {
            let l = text_lines(header)[i];
            let t = trim(l);
            lemma_trim_end_last(trim_start(l));
            let c = comment_line(l);
            if t.len() > 0 {
                assert(c.last() == t.last());
            } else {
                assert(c.last() == ' ');
            }
        }
    }
}

/// Entry lines do not end with a carriage return.
proof fn lemma_entry_lines_no_cr(entries: Seq<(Seq<char>, Seq<char>)>)
    requires
        forall|i: int| 0 <= i < entries.len() ==> entry_reads_back(#[trigger] entries[i]),
    ensures
        forall|i: int| 0 <= i < entries.len() ==> strip_cr(#[trigger] entry_lines(entries)[i])
            == entry_lines(entries)[i],
{
    reveal_strlit(": ");
    assert forall|i: int| 0 <= i < entries.len() implies strip_cr(#[trigger] entry_lines(entries)[i])
        == entry_lines(entries)[i] by {
        let e = entries[i];
        assert(entry_reads_back(e));
        let l = entry_lines(entries)[i];
        assert(l == e.0 + ": "@ + e.1);
        if e.1.len() > 0 {
            lemma_trimmed_ends(e.1);
            assert(l.last() == e.1.last());
        } else {
            assert(l.last() == ' ');
        }
    }
}

/// Saving entries under a header and loading the text again gives back the
/// same entries, in the same order, for entries whose keys are trimmed, hold
/// no `:` and do not start with `#`, and whose values are trimmed, with no
/// line feed in either.
pub proof fn lemma_config_roundtrip(header: Seq<char>, entries: Seq<(Seq<char>, Seq<char>)>)
    requires
        forall|i: int| 0 <= i < entries.len() ==> entry_reads_back(#[trigger] entries[i]),
    ensures
        text_entries(config_text(header, entries)) == entries,
{
    let hl = header_lines(header);
    let el = entry_lines(entries);
    let ls = hl + el;
    lemma_header_no_newline(header);
    lemma_entry_lines(entries);
    assert forall|i: int| 0 <= i < ls.len() implies no_newline(#[trigger] ls[i]) by {
        if i < hl.len() {
            assert(ls[i] == hl[i]);
        } else {
            assert(ls[i] == el[i - hl.len()]);
        }
    }
    lemma_segments_unlines(ls);
    lemma_header_no_cr(header);
    lemma_entry_lines_no_cr(entries);
    assert forall|i: int| 0 <= i < ls.len() implies strip_cr(#[trigger] ls[i]) == ls[i] by {
        if i < hl.len() {
            assert(ls[i] == hl[i]);
        } else {
            assert(ls[i] == el[i - hl.len()]);
        }
    }
    assert(ls.push(Seq::empty()).drop_last() == ls);
    assert(ls.map_values(|l: Seq<char>| strip_cr(l)) == ls);
    assert(text_lines(unlines(ls)) == ls);
    lemma_entries_concat(hl, el);
    assert(hl.take(hl.len() as int) == hl);
    lemma_header_no_entries(hl, header);
    assert(Seq::<(Seq<char>, Seq<char>)>::empty() + entries == entries);
}


/// The characters of a trimmed sequence are characters of the sequence.
proof fn lemma_trim_subset(s: Seq<char>, c: char)
    requires
        forall|k: int| 0 <= k < s.len() ==> s[k] != c,
    ensures
        forall|k: int| 0 <= k < trim(s).len() ==> trim(s)[k] != c,
{
    lemma_trim_within(s);
    assert forall|k: int| 0 <= k < trim(s).len() implies trim(s)[k] != c by {
        let j = choose|j: int| 0 <= j < s.len() && s[j] == trim(s)[k];
    }
}

/// The entry of a line without a line feed reads back.
proof fn lemma_line_entry_reads_back(line: Seq<char>)
    requires
        no_newline(line),
        line_entry(line) is Some,
    ensures
        entry_reads_back(line_entry(line)->0),
{
    let t = trim(line);
    let p = find_char(t, ':');
    lemma_find_char(t, ':');
    let before = t.take(p);
    let after = t.skip(p + 1);
    let key = trim(before);
    let val = trim(after);
    lemma_trim_idempotent(before);
    lemma_trim_idempotent(after);
    lemma_trim_subset(line, '\n');
    assert forall|k: int| 0 <= k < before.len() implies before[k] != '\n' && before[k] != ':' by {
        assert(before[k] == t[k]);
    }
    assert forall|k: int| 0 <= k < after.len() implies after[k] != '\n' by {
        assert(after[k] == t[k + p + 1]);
    }
    lemma_trim_subset(before, '\n');
    lemma_trim_subset(before, ':');
    lemma_trim_subset(after, '\n');
    if p > 0 {
        lemma_trim_ends(line);
        assert(before[0] == t[0]);
        lemma_trim_keeps_first(before);
    } else {
        assert(before.len() == 0);
        assert(trim_start(before) == before);
        assert(trim_end(before) == before);
    }
}

/// Every entry of lines without line feeds reads back.
proof fn lemma_entries_read_back(lines: Seq<Seq<char>>)
    requires
        forall|i: int| 0 <= i < lines.len() ==> no_newline(#[trigger] lines[i]),
    ensures
        forall|i: int| 0 <= i < config_entries(lines).len() ==> entry_reads_back(#[trigger] config_entries(lines)[i]),
    decreases lines.len(),
{
    if lines.len() > 0 {
        let prev = lines.drop_last();
        assert forall|i: int| 0 <= i < prev.len() implies no_newline(#[trigger] prev[i]) by {
            assert(prev[i] == lines[i]);
        }
        lemma_entries_read_back(prev);
        assert(no_newline(lines[lines.len() - 1]));
        if line_entry(lines.last()) is Some {
            lemma_line_entry_reads_back(lines.last());
        }
        let es = config_entries(lines);
        let ps = config_entries(prev);
        assert forall|i: int| 0 <= i < es.len() implies entry_reads_back(#[trigger] es[i]) by {
            if i < ps.len() {
                assert(es[i] == ps[i]);
            }
        }
    }
}

/// The lines of a text hold no line feed.
proof fn lemma_text_lines_no_newline(s: Seq<char>)
    ensures
        forall|i: int| 0 <= i < text_lines(s).len() ==> no_newline(#[trigger] text_lines(s)[i]),
{
    let tl = text_lines(s);
    let segs = segments(s);
    lemma_segments_no_newline(s);
    lemma_segments_len(s);
    assert forall|i: int| 0 <= i < tl.len() implies no_newline(#[trigger] tl[i]) by {
        assert(no_newline(segs[i]));
        if i < segs.len() - 1 {
            assert(tl[i] == strip_cr(segs[i]));
        } else {
            assert(tl[i] == segs[i]);
        }
    }
}

/// Loading a configuration, saving it under any header and loading it again
/// gives the same entries as the first load.
pub proof fn lemma_config_reload(content: Seq<char>, header: Seq<char>)
    ensures
        text_entries(config_text(header, text_entries(content))) == text_entries(content),
{
    lemma_text_lines_no_newline(content);
    lemma_entries_read_back(text_lines(content));
    lemma_config_roundtrip(header, text_entries(content));
}

} // verus!
