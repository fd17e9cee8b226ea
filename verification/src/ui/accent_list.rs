//! Which items a scrolling accent list shows.
use vstd::prelude::*;

verus! {

/// The first item a list of `len` items shows in `height` rows with
/// `selected` highlighted: the top when everything fits or the selection is in
/// the first half screen; the last screenful when the selection is in the last
/// half screen; else a window that puts the selection in the middle.
pub open spec fn window_start(len: nat, selected: nat, height: nat) -> nat {
    if len <= height {
        0
    } else if selected < height / 2 {
        0
    } else if selected + height / 2 >= len {
        (len - height) as nat
    } else {
        (selected - height / 2) as nat
    }
}

/// The items a list shows: from the window start, as many as fit in the rows.
pub fn list_window(len: usize, selected: usize, height: usize) -> (r: (usize, usize))
    requires
        len <= height || selected < height / 2 || selected + height / 2 <= usize::MAX,
    ensures
        r.0 == window_start(len as nat, selected as nat, height as nat),
        r.1 == (if len <= r.0 + height { len as int } else { r.0 + height }),
{
    let start = if len <= height {
        0
    } else if selected < height / 2 {
        0
    } else if selected + height / 2 >= len {
        len - height
    } else {
        selected - height / 2
    };
    let end = if len - start <= height { len } else { start + height };
    (start, end)
}

/// The selected item of a list is among the items it shows, and the list
/// shows as many items as fit.
pub proof fn lemma_selection_visible(len: nat, selected: nat, height: nat)
    requires
        height > 0,
        selected < len,
    ensures
        window_start(len, selected, height) <= selected < window_start(len, selected, height) + height,
        window_start(len, selected, height) + (if len <= height { len } else { height }) <= len,
{
}

} // verus!
