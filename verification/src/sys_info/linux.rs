//! The first Linux readers of the library: power from the fixed `AC`, `ADP1`,
//! `BAT0` and `BAT1` supplies, and the terminal matched case-sensitively.
//! Reading the files and the environment happens outside the library.
use vstd::prelude::*;
use crate::toolkit::platform::PowerStatus;
use crate::toolkit::sys_info_linux::opt_view;
use crate::text::{str_chars, string_from_chars, trim, trim_chars, chars_eq, contains, contains_str, parse_unsigned, parse_unsigned_chars};

verus! {

/// Whether a supply's `online` file says it is online.
pub open spec fn says_online(v: Seq<char>) -> bool {
    trim(v) == "1"@
}

/// The battery level a `capacity` file gives, if it reads as a `u8`.
pub open spec fn capacity_value(v: Option<Seq<char>>) -> Option<u8> {
    match v {
        Some(c) => match parse_unsigned(trim(c), 255) {
            Some(n) => Some(n as u8),
            None => None,
        },
        None => None,
    }
}

/// The power status from the `online` files of the `AC` and `ADP1` supplies
/// and the `capacity` files of `BAT0` and `BAT1` (each absent when it could not
/// be read): on AC as the first readable `online` file says, else on AC; the
/// level of the first battery whose capacity reads as a `u8`; none when there
/// is no such level or it is 255.
pub open spec fn legacy_power(
    ac: Option<Seq<char>>,
    adp1: Option<Seq<char>>,
    bat0: Option<Seq<char>>,
    bat1: Option<Seq<char>>,
) -> Option<PowerStatus> {
    let ac_online = match ac {
        Some(v) => says_online(v),
        None => match adp1 {
            Some(v) => says_online(v),
            None => true,
        },
    };
    let pct: u8 = match capacity_value(bat0) {
        Some(p) => p,
        None => match capacity_value(bat1) {
            Some(p) => p,
            None => 255,
        },
    };
    if pct == 255 {
        None
    } else {
        Some(PowerStatus { ac_online, battery_percent: pct })
    }
}

fn online_of(v: &String) -> (b: bool)
    ensures
        b == says_online(v@),
{
    let one = str_chars("1");
    chars_eq(&trim_chars(&str_chars(v.as_str())), &one)
}

fn capacity_of(v: &Option<String>) -> (r: Option<u8>)
    ensures
        r == capacity_value(opt_view(*v)),
{
    match v {
        Some(c) => match parse_unsigned_chars(&trim_chars(&str_chars(c.as_str())), 255) {
            Some(n) => Some(n as u8),
            None => None,
        },
        None => None,
    }
}

/// The power status from the fixed supply files.
pub fn power_from_legacy_files(
    ac: &Option<String>,
    adp1: &Option<String>,
    bat0: &Option<String>,
    bat1: &Option<String>,
) -> (p: Option<PowerStatus>)
    ensures
        p == legacy_power(opt_view(*ac), opt_view(*adp1), opt_view(*bat0), opt_view(*bat1)),
{
    let ac_online = match ac {
        Some(v) => online_of(v),
        None => match adp1 {
            Some(v) => online_of(v),
            None => true,
        },
    };
    let pct: u8 = match capacity_of(bat0) {
        Some(p) => p,
        None => match capacity_of(bat1) {
            Some(p) => p,
            None => 255,
        },
    };
    if pct == 255 {
        None
    } else {
        Some(PowerStatus { ac_online, battery_percent: pct })
    }
}

/// The terminal: `$TERM_PROGRAM` when set and not empty, else `$TERM`, else
/// "xterm"; known terminals, matched case-sensitively in that text, are given
/// their usual names.
pub open spec fn legacy_terminal(term_program: Option<Seq<char>>, term: Option<Seq<char>>) -> Seq<char> {
    let tp = match term_program {
        Some(t) => t,
        None => Seq::empty(),
    };
    let raw = if tp.len() > 0 {
        tp
    } else {
        match term {
            Some(t) => t,
            None => "xterm"@,
        }
    };
    if contains(raw, "kitty"@) {
        "Kitty"@
    } else if contains(raw, "alacritty"@) {
        "Alacritty"@
    } else if contains(raw, "wezterm"@) {
        "WezTerm"@
    } else if contains(raw, "gnome-terminal"@) {
        "GNOME Terminal"@
    } else if contains(raw, "xterm"@) {
        "xterm"@
    } else {
        raw
    }
}

/// The terminal from the `TERM_PROGRAM` and `TERM` environment variables.
pub fn legacy_terminal_from_env(term_program: Option<&str>, term: Option<&str>) -> (r: String)
    ensures
        r@ == legacy_terminal(
            match term_program {
                Some(t) => Some(t@),
                None => None,
            },
            match term {
                Some(t) => Some(t@),
                None => None,
            },
        ),
{
    let tp = match term_program {
        Some(t) => str_chars(t),
        None => Vec::new(),
    };
    let raw = if tp.len() > 0 {
        tp
    } else {
        match term {
            Some(t) => str_chars(t),
            None => str_chars("xterm"),
        }
    };
    if contains_str(&raw, "kitty") {
        String::from_str("Kitty")
    } else if contains_str(&raw, "alacritty") {
        String::from_str("Alacritty")
    } else if contains_str(&raw, "wezterm") {
        String::from_str("WezTerm")
    } else if contains_str(&raw, "gnome-terminal") {
        String::from_str("GNOME Terminal")
    } else if contains_str(&raw, "xterm") {
        String::from_str("xterm")
    } else {
        string_from_chars(&raw)
    }
}

} // verus!
