//! Scrolling of the in-TUI markdown documentation viewer.
use vstd::prelude::*;

verus! {

/// The scroll offset after scrolling up by `n` lines: never above the top.
pub fn scroll_up(scroll: usize, n: usize) -> (r: usize)
    ensures
        r == (if scroll >= n { scroll - n } else { 0 }),
{
    scroll.saturating_sub(n)
}

/// The largest scroll offset for `line_count` lines in `visible_rows` rows.
pub open spec fn max_scroll(line_count: nat, visible_rows: nat) -> nat {
    if line_count > visible_rows {
        (line_count - visible_rows) as nat
    } else {
        0
    }
}

/// The scroll offset after scrolling down by `n` lines: clamped so that the
/// last screenful is not passed; unchanged when already at or past it.
pub open spec fn scrolled_down(scroll: nat, n: nat, line_count: nat, visible_rows: nat) -> nat {
    let m = max_scroll(line_count, visible_rows);
    if scroll < m {
        if scroll + n < m {
            scroll + n
        } else {
            m
        }
    } else {
        scroll
    }
}

/// Scrolls down by `n` lines over a document of `line_count` lines shown in
/// `visible_rows` rows.
pub fn scroll_down(scroll: usize, n: usize, line_count: usize, visible_rows: usize) -> (r: usize)
    ensures
        r == scrolled_down(scroll as nat, n as nat, line_count as nat, visible_rows as nat),
{
    let m = line_count.saturating_sub(visible_rows);
    if scroll < m {
        if n < m - scroll {
            scroll + n
        } else {
            m
        }
    } else {
        scroll
    }
}

/// Scrolling down from a position within the document never moves up, never
/// passes the last screenful, and moves by at most the lines asked for.
pub proof fn lemma_scroll_down_bounded(scroll: nat, n: nat, line_count: nat, visible_rows: nat)
    requires
        scroll <= max_scroll(line_count, visible_rows),
    ensures
        scroll <= scrolled_down(scroll, n, line_count, visible_rows) <= max_scroll(line_count, visible_rows),
        scrolled_down(scroll, n, line_count, visible_rows) - scroll <= n,
{
}

} // verus!
