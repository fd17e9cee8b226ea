//! How the accent tab header styles each tab.
use vstd::prelude::*;

verus! {

/// The style of one tab label in the header.
#[derive(Debug, Clone, Copy, PartialEq, Eq, Structural)]
pub enum TabStyle {
    /// The selected tab of a focused header: accent color, bold, with the bar below.
    Active,
    /// The selected tab of a header without focus: text color.
    Current,
    /// Any other tab: dim color.
    Inactive,
}

/// The style of tab `index` when `selected` is the selected tab.
pub fn tab_style(index: usize, selected: usize, focused: bool) -> (s: TabStyle)
    ensures
        s == (if index == selected && focused {
            TabStyle::Active
        } else if index == selected {
            TabStyle::Current
        } else {
            TabStyle::Inactive
        }),
{
    if index == selected && focused {
        TabStyle::Active
    } else if index == selected {
        TabStyle::Current
    } else {
        TabStyle::Inactive
    }
}

/// Whether the indicator bar is drawn under a tab: only under the active tab,
/// and only when the header has a second row.
pub fn draws_bar(style: TabStyle, height: u16) -> (b: bool)
    ensures
        b == (height > 1 && style == TabStyle::Active),
{
    height > 1 && style == TabStyle::Active
}

} // verus!
