//! Layout of the accent widgets for terminal dashboards: which text goes in
//! which cells. Drawing into a terminal buffer happens outside the library.
use vstd::prelude::*;
use crate::text::{str_chars, string_from_chars, extend_with, extend_with_str, words, split_words};

verus! {

/// Category of TUI visual toast notifications.
#[derive(Debug, Clone, Copy, PartialEq, Eq, Structural)]
pub enum ToastKind {
    Success,
    Warning,
    Error,
    Info,
}

/// The border color of a toast of this kind; none for `Info`, which uses the
/// accent color.
pub fn toast_rgb(kind: ToastKind) -> (c: Option<(u8, u8, u8)>)
    ensures
        c == (match kind {
            ToastKind::Success => Some((0u8, 255u8, 127u8)),
            ToastKind::Error => Some((255u8, 85u8, 85u8)),
            ToastKind::Warning => Some((250u8, 210u8, 50u8)),
            ToastKind::Info => None,
        }),
{
    match kind {
        ToastKind::Success => Some((0, 255, 127)),
        ToastKind::Error => Some((255, 85, 85)),
        ToastKind::Warning => Some((250, 210, 50)),
        ToastKind::Info => None,
    }
}

/// The icon of a toast of this kind.
pub open spec fn toast_icon_text(kind: ToastKind) -> Seq<char> {
    match kind {
        ToastKind::Success => "✔️"@,
        ToastKind::Error => "❌"@,
        ToastKind::Warning => "⚠️"@,
        ToastKind::Info => "ℹ️"@,
    }
}

/// The icon of a toast of this kind.
pub fn toast_icon(kind: ToastKind) -> (s: &'static str)
    ensures
        s@ == toast_icon_text(kind),
{
    match kind {
        ToastKind::Success => "✔️",
        ToastKind::Error => "❌",
        ToastKind::Warning => "⚠️",
        ToastKind::Info => "ℹ️",
    }
}

/// The border title of a toast: " <icon> <title> ".
pub fn toast_title(kind: ToastKind, title: &str) -> (s: String)
    ensures
        s@ == " "@ + toast_icon_text(kind) + " "@ + title@ + " "@,
{
    let mut cs: Vec<char> = Vec::new();
    extend_with_str(&mut cs, " ");
    extend_with_str(&mut cs, toast_icon(kind));
    extend_with_str(&mut cs, " ");
    extend_with_str(&mut cs, title);
    extend_with_str(&mut cs, " ");
    string_from_chars(&cs)
}

/// The number of bytes of a character in UTF-8.
pub open spec fn utf8_len(c: char) -> nat {
    let u = c as u32;
    if u < 0x80 {
        1
    } else if u < 0x800 {
        2
    } else if u < 0x10000 {
        3
    } else {
        4
    }
}

/// The number of bytes of a text in UTF-8 (`str::len`).
pub open spec fn byte_len(s: Seq<char>) -> nat
    decreases s.len(),
{
    if s.len() == 0 {
        0
    } else {
        byte_len(s.drop_last()) + utf8_len(s.last())
    }
}

proof fn lemma_byte_len_bound(s: Seq<char>)
    ensures
        byte_len(s) <= 4 * s.len(),
    decreases s.len(),
{
    if s.len() > 0 {
        lemma_byte_len_bound(s.drop_last());
    }
}

/// The UTF-8 length of a text.
fn byte_len_chars(s: &Vec<char>) -> (n: u128)
    ensures
        n == byte_len(s@),
        n <= 4 * s.len(),
{
    let mut n: u128 = 0;
    for i in 0..s.len()
        invariant
            n == byte_len(s@.take(i as int)),
            i <= s.len(),
    {
        proof {
            lemma_byte_len_bound(s@.take(i as int));
        }
        assert(s@.take(i + 1).drop_last() == s@.take(i as int));
        let u = s[i] as u32;
        let w: u128 = if u < 0x80 {
            1
        } else if u < 0x800 {
            2
        } else if u < 0x10000 {
            3
        } else {
            4
        };
        n = n + w;
    }
    assert(s@.take(s.len() as int) == s@);
    proof {
        lemma_byte_len_bound(s@);
    }
    n
}

/// Word wrapping so far: the finished lines and the line being filled.
pub open spec fn wrap_step(st: (Seq<Seq<char>>, Seq<char>), word: Seq<char>, width: nat) -> (Seq<Seq<char>>, Seq<char>) {
    let (lines, cur) = st;
    if cur.len() == 0 {
        (lines, cur + word)
    } else if byte_len(cur) + 1 + byte_len(word) <= width {
        (lines, cur + " "@ + word)
    } else {
        (lines.push(cur), word)
    }
}

/// Word wrapping after the given words.
pub open spec fn wrap_scan(ws: Seq<Seq<char>>, width: nat) -> (Seq<Seq<char>>, Seq<char>)
    decreases ws.len(),
{
    if ws.len() == 0 {
        (Seq::empty(), Seq::empty())
    } else {
        wrap_step(wrap_scan(ws.drop_last(), width), ws.last(), width)
    }
}

/// The lines of a toast message wrapped to `width` bytes: its words in order,
/// joined by single spaces while a line stays within the width; a word that
/// does not fit starts a new line.
pub open spec fn wrapped_lines(message: Seq<char>, width: nat) -> Seq<Seq<char>> {
    let (lines, cur) = wrap_scan(words(message), width);
    if cur.len() > 0 {
        lines.push(cur)
    } else {
        lines
    }
}

proof fn lemma_byte_len_concat(a: Seq<char>, b: Seq<char>)
    ensures
        byte_len(a + b) == byte_len(a) + byte_len(b),
    decreases b.len(),
{
    if b.len() == 0 {
        assert(a + b == a);
    } else {
        lemma_byte_len_concat(a, b.drop_last());
        assert((a + b).drop_last() == a + b.drop_last());
        assert((a + b).last() == b.last());
    }
}

/// A line fits the width or is one of the words.
pub open spec fn fits_or_word(line: Seq<char>, ws: Seq<Seq<char>>, width: nat) -> bool {
    byte_len(line) <= width || ws.contains(line)
}

proof fn lemma_wrap_scan_fits(ws: Seq<Seq<char>>, width: nat)
    ensures
        ({
            let (lines, cur) = wrap_scan(ws, width);
            &&& forall|i: int| 0 <= i < lines.len() ==> fits_or_word(#[trigger] lines[i], ws, width)
            &&& cur.len() > 0 ==> fits_or_word(cur, ws, width)
        }),
    decreases ws.len(),
{
    if ws.len() > 0 {
        let prev = ws.drop_last();
        lemma_wrap_scan_fits(prev, width);
        let (lines, cur) = wrap_scan(prev, width);
        let word = ws.last();
        assert(ws.contains(word)) by {
            assert(ws[ws.len() - 1] == word);
        }
        assert forall|x: Seq<char>| prev.contains(x) implies ws.contains(x) by {
            let i = choose|i: int| 0 <= i < prev.len() && prev[i] == x;
            assert(ws[i] == x);
        }
        if cur.len() == 0 {
            assert(cur + word == word);
        } else if byte_len(cur) + 1 + byte_len(word) <= width {
            reveal_strlit(" ");
            lemma_byte_len_concat(cur, " "@);
            lemma_byte_len_concat(cur + " "@, word);
            assert(byte_len(" "@) == 1) by {
                reveal_strlit(" ");
                assert(" "@.len() == 1);
                assert(" "@.last() == ' ');
                assert(" "@.drop_last() == Seq::<char>::empty());
                assert(byte_len(Seq::<char>::empty()) == 0);
                assert(utf8_len(' ') == 1);
            }
        }
        let (lines2, cur2) = wrap_scan(ws, width);
        assert forall|i: int| 0 <= i < lines2.len() implies fits_or_word(#[trigger] lines2[i], ws, width) by {
            if i < lines.len() {
                assert(lines2[i] == lines[i]);
                assert(fits_or_word(lines[i], prev, width));
            }
        }
    }
}

/// A wrapped line is never wider than the box, unless it is a single word
/// that alone is wider.
pub proof fn lemma_wrapped_lines_fit(message: Seq<char>, width: nat)
    ensures
        forall|i: int| 0 <= i < wrapped_lines(message, width).len() ==> fits_or_word(
            #[trigger] wrapped_lines(message, width)[i],
            words(message),
            width,
        ),
{
    lemma_wrap_scan_fits(words(message), width);
}

/// At most the first `n` characters of `s`.
pub open spec fn truncated(s: Seq<char>, n: nat) -> Seq<char> {
    if s.len() <= n {
        s
    } else {
        s.take(n as int)
    }
}

/// The rows a toast shows inside a box of `width` by `height` cells: the
/// wrapped lines that fit in the height, each cut to the width.
pub open spec fn toast_rows_spec(message: Seq<char>, width: nat, height: nat) -> Seq<Seq<char>> {
    let ls = wrapped_lines(message, width);
    let shown = if ls.len() <= height {
        ls
    } else {
        ls.take(height as int)
    };
    shown.map_values(|l: Seq<char>| truncated(l, width))
}

/// Wraps a toast message to `width` bytes.
pub fn wrap_message(message: &str, width: usize) -> (r: Vec<Vec<char>>)
    ensures
        r@.map_values(|l: Vec<char>| l@) == wrapped_lines(message@, width as nat),
{
    let cs = str_chars(message);
    let ws = split_words(&cs);
    let ghost wv = ws@.map_values(|l: Vec<char>| l@);
    let mut lines: Vec<Vec<char>> = Vec::new();
    let mut cur: Vec<char> = Vec::new();
    for i in 0..ws.len()
        invariant
            wv == ws@.map_values(|l: Vec<char>| l@),
            wv == words(message@),
            (lines@.map_values(|l: Vec<char>| l@), cur@) == wrap_scan(wv.take(i as int), width as nat),
    {
        assert(wv.take(i + 1).drop_last() == wv.take(i as int));
        assert(wv.take(i + 1).last() == ws@[i as int]@);
        let word = &ws[i];
        if cur.len() == 0 {
            extend_with(&mut cur, word);
        } else if byte_len_chars(&cur) + 1 + byte_len_chars(word) <= width as u128 {
            extend_with_str(&mut cur, " ");
            extend_with(&mut cur, word);
        } else {
            let ghost before = lines@;
            let mut next: Vec<char> = Vec::new();
            extend_with(&mut next, word);
            let done = cur;
            lines.push(done);
            cur = next;
            assert(lines@.map_values(|l: Vec<char>| l@) == before.map_values(|l: Vec<char>| l@).push(
                lines@.last()@,
            ));
        }
    }
    assert(wv.take(ws.len() as int) == wv);
    if cur.len() > 0 {
        let ghost before = lines@;
        lines.push(cur);
        assert(lines@.map_values(|l: Vec<char>| l@) == before.map_values(|l: Vec<char>| l@).push(
            lines@.last()@,
        ));
    }
    lines
}

/// The rows a toast shows inside a box of `width` by `height` cells.
pub fn toast_rows(message: &str, width: usize, height: usize) -> (r: Vec<Vec<char>>)
    ensures
        r@.map_values(|l: Vec<char>| l@) == toast_rows_spec(message@, width as nat, height as nat),
{
    let ls = wrap_message(message, width);
    let ghost lv = ls@.map_values(|l: Vec<char>| l@);
    let n = if ls.len() <= height { ls.len() } else { height };
    let ghost shown = if lv.len() <= height { lv } else { lv.take(height as int) };
    assert(shown.len() == n);
    let mut out: Vec<Vec<char>> = Vec::new();
    for i in 0..n
        invariant
            lv == ls@.map_values(|l: Vec<char>| l@),
            n <= ls.len(),
            shown.len() == n,
            forall|k: int| 0 <= k < n ==> shown[k] == lv[k],
            out@.map_values(|l: Vec<char>| l@) == shown.take(i as int).map_values(|l: Seq<char>| truncated(l, width as nat)),
    {
        let line = &ls[i];
        let m = if line.len() <= width { line.len() } else { width };
        let mut t: Vec<char> = Vec::new();
        for k in 0..m
            invariant
                m <= line.len(),
                t@ == line@.take(k as int),
        {
            t.push(line[k]);
            assert(line@.take(k + 1) == line@.take(k as int).push(line@[k as int]));
        }
        assert(line@.take(line.len() as int) == line@);
        assert(t@ == truncated(shown[i as int], width as nat));
        let ghost before = out@;
        out.push(t);
        assert(out@.map_values(|l: Vec<char>| l@) == before.map_values(|l: Vec<char>| l@).push(t@));
        assert(shown.take(i + 1).map_values(|l: Seq<char>| truncated(l, width as nat)) == shown.take(
            i as int,
        ).map_values(|l: Seq<char>| truncated(l, width as nat)).push(truncated(shown[i as int], width as nat)));
    }
    assert(shown.take(n as int) == shown);
    out
}

/// The cursor character of a focused text box.
pub open spec fn cursor_char() -> char {
    '▕'
}

/// What a text box shows in a row of `max_width` cells: the text, or the
/// placeholder when the text is empty; when focused, a cursor after a
/// non-empty text that leaves room for it, or before the placeholder; cut to
/// the width.
pub open spec fn text_box_chars(text: Seq<char>, placeholder: Seq<char>, focused: bool, max_width: nat) -> Seq<char> {
    let is_empty = text.len() == 0;
    let shown = if is_empty {
        placeholder
    } else {
        text
    };
    let with_cursor = if focused && !is_empty && shown.len() < max_width {
        shown.push(cursor_char())
    } else if focused && is_empty {
        seq![cursor_char()] + shown
    } else {
        shown
    };
    truncated(with_cursor, max_width)
}

/// The characters a text box shows in a row of `max_width` cells.
pub fn text_box_display(text: &str, placeholder: &str, focused: bool, max_width: usize) -> (r: Vec<char>)
    ensures
        r@ == text_box_chars(text@, placeholder@, focused, max_width as nat),
{
    let t = str_chars(text);
    let is_empty = t.len() == 0;
    let mut cv: Vec<char> = if is_empty { str_chars(placeholder) } else { t };
    if focused && !is_empty && cv.len() < max_width {
        cv.push('▕');
    } else if focused && is_empty {
        let mut c2: Vec<char> = Vec::new();
        c2.push('▕');
        extend_with(&mut c2, &cv);
        cv = c2;
    }
    let m = if cv.len() <= max_width { cv.len() } else { max_width };
    let mut r: Vec<char> = Vec::new();
    for k in 0..m
        invariant
            m <= cv.len(),
            r@ == cv@.take(k as int),
    {
        r.push(cv[k]);
        assert(cv@.take(k + 1) == cv@.take(k as int).push(cv@[k as int]));
    }
    assert(cv@.take(cv.len() as int) == cv@);
    r
}

/// Where the tab labels ("  <tab>  ", `n + 4` characters for a tab of `n`)
/// start, from `x`, while a label ends before `limit`; the first label that
/// does not fit ends the header.
pub open spec fn tab_starts(counts: Seq<nat>, x: int, limit: int) -> Seq<int>
    decreases counts.len(),
{
    if counts.len() == 0 {
        Seq::empty()
    } else {
        let w = counts[0] + 4;
        if x + w >= limit {
            Seq::empty()
        } else {
            seq![x] + tab_starts(counts.drop_first(), x + w, limit)
        }
    }
}

/// The columns where the tab labels start in a header from `area_x` over
/// `area_width` cells, for tabs of the given character counts; the tabs that
/// do not fit are left out.
pub fn tab_layout(counts: &Vec<usize>, area_x: u16, area_width: u16) -> (r: Vec<u64>)
    ensures
        r@.map_values(|v: u64| v as int) == tab_starts(
            counts@.map_values(|c: usize| c as nat),
            area_x as int,
            area_x + area_width,
        ),
{
    let ghost cv = counts@.map_values(|c: usize| c as nat);
    let limit: u64 = area_x as u64 + area_width as u64;
    let mut x: u64 = area_x as u64;
    let mut out: Vec<u64> = Vec::new();
    let ghost total = tab_starts(cv, area_x as int, limit as int);
    assert(cv.skip(0) == cv);
    let mut i: usize = 0;
    while i < counts.len()
        invariant
            cv == counts@.map_values(|c: usize| c as nat),
            i <= counts.len(),
            limit == area_x as u64 + area_width as u64,
            x < 0x1_0000_0000,
            total == tab_starts(cv, area_x as int, limit as int),
            total == out@.map_values(|v: u64| v as int) + tab_starts(cv.skip(i as int), x as int, limit as int),
        decreases counts.len() - i,
    {
        let ghost rest = cv.skip(i as int);
        assert(rest[0] == counts@[i as int] as nat);
        assert(rest.drop_first() == cv.skip(i + 1));
        let w: u128 = counts[i] as u128 + 4;
        if x as u128 + w >= limit as u128 {
            assert(tab_starts(rest, x as int, limit as int) == Seq::<int>::empty());
            assert(out@.map_values(|v: u64| v as int) + Seq::<int>::empty() == out@.map_values(|v: u64| v as int));
            return out;
        }
        let ghost before = out@;
        out.push(x);
        assert(out@.map_values(|v: u64| v as int) == before.map_values(|v: u64| v as int).push(x as int));
        assert(before.map_values(|v: u64| v as int) + (seq![x as int] + tab_starts(cv.skip(i + 1), x + w, limit as int))
            == out@.map_values(|v: u64| v as int) + tab_starts(cv.skip(i + 1), x + w, limit as int));
        x = (x as u128 + w) as u64;
        i = i + 1;
    }
    assert(cv.skip(counts.len() as int) == Seq::<nat>::empty());
    assert(out@.map_values(|v: u64| v as int) + Seq::<int>::empty() == out@.map_values(|v: u64| v as int));
    out
}


/// The tab labels are laid out from the left edge in order, each right after
/// the previous one, and every label drawn ends before the header does.
pub proof fn lemma_tab_starts_fit(counts: Seq<nat>, x: int, limit: int)
    ensures
        tab_starts(counts, x, limit).len() <= counts.len(),
        tab_starts(counts, x, limit).len() > 0 ==> tab_starts(counts, x, limit)[0] == x,
        forall|i: int| 0 <= i < tab_starts(counts, x, limit).len() ==> #[trigger] tab_starts(counts, x, limit)[i]
            + counts[i] + 4 < limit,
        forall|i: int| 0 <= i < tab_starts(counts, x, limit).len() - 1 ==> tab_starts(counts, x, limit)[i + 1]
            == #[trigger] tab_starts(counts, x, limit)[i] + counts[i] + 4,
    decreases counts.len(),
{
    if counts.len() > 0 {
        let w = counts[0] + 4;
        if x + w < limit {
            let rest = counts.drop_first();
            lemma_tab_starts_fit(rest, x + w, limit);
            let ps = tab_starts(counts, x, limit);
            let qs = tab_starts(rest, x + w, limit);
            assert(ps == seq![x] + qs);
            assert forall|i: int| 0 <= i < ps.len() implies #[trigger] ps[i] + counts[i] + 4 < limit by {
                if i > 0 {
                    assert(ps[i] == qs[i - 1]);
                    assert(counts[i] == rest[i - 1]);
                }
            }
            assert forall|i: int| 0 <= i < ps.len() - 1 implies ps[i + 1] == #[trigger] ps[i] + counts[i] + 4 by {
                if i > 0 {
                    assert(ps[i] == qs[i - 1]);
                    assert(ps[i + 1] == qs[i]);
                    assert(counts[i] == rest[i - 1]);
                } else if qs.len() > 0 {
                    assert(ps[1] == qs[0]);
                }
            }
        }
    }
}

} // verus!
