//! Status glyphs for terminals: emoji, or bracketed ASCII tags for the classic
//! Windows console, which cannot draw emoji.
use vstd::prelude::*;
use crate::text::str_eq;

verus! {

/// The glyph used for each kind of status line.
#[derive(Debug, Clone, Copy)]
pub struct GlyphMap {
    pub status_ok: &'static str,
    pub status_err: &'static str,
    pub info: &'static str,
    pub warning: &'static str,
    pub cpu: &'static str,
    pub gpu: &'static str,
    pub memory: &'static str,
    pub disk: &'static str,
    pub package: &'static str,
    pub battery: &'static str,
    pub shell: &'static str,
    pub terminal: &'static str,
    pub network: &'static str,
    pub clipboard: &'static str,
    pub play: &'static str,
    pub play_empty: &'static str,
}

impl GlyphMap {
    /// The bracketed ASCII set.
    pub open spec fn is_ascii_set(self) -> bool {
        &&& self.status_ok@ == "[OK]"@
        &&& self.status_err@ == "[ERR]"@
        &&& self.info@ == "[i]"@
        &&& self.warning@ == "[!]"@
        &&& self.cpu@ == "[CPU]"@
        &&& self.gpu@ == "[GPU]"@
        &&& self.memory@ == "[RAM]"@
        &&& self.disk@ == "[DISK]"@
        &&& self.package@ == "[PKG]"@
        &&& self.battery@ == "[BAT]"@
        &&& self.shell@ == "[SH]"@
        &&& self.terminal@ == "[TERM]"@
        &&& self.network@ == "[NET]"@
        &&& self.clipboard@ == "[CLIP]"@
        &&& self.play@ == "> "@
        &&& self.play_empty@ == "  "@
    }

    /// The emoji set.
    pub open spec fn is_emoji_set(self) -> bool {
        &&& self.status_ok@ == "✔️"@
        &&& self.status_err@ == "❌"@
        &&& self.info@ == "ℹ️"@
        &&& self.warning@ == "⚠️"@
        &&& self.cpu@ == "🧠"@
        &&& self.gpu@ == "🎮"@
        &&& self.memory@ == "📟"@
        &&& self.disk@ == "💾"@
        &&& self.package@ == "📦"@
        &&& self.battery@ == "🔋"@
        &&& self.shell@ == "🐚"@
        &&& self.terminal@ == "📟"@
        &&& self.network@ == "🌐"@
        &&& self.clipboard@ == "📋"@
        &&& self.play@ == "▶ "@
        &&& self.play_empty@ == "  "@
    }

    /// The bracketed ASCII set.
    pub fn ascii() -> (g: Self)
        ensures
            g.is_ascii_set(),
    {
        GlyphMap {
            status_ok: "[OK]",
            status_err: "[ERR]",
            info: "[i]",
            warning: "[!]",
            cpu: "[CPU]",
            gpu: "[GPU]",
            memory: "[RAM]",
            disk: "[DISK]",
            package: "[PKG]",
            battery: "[BAT]",
            shell: "[SH]",
            terminal: "[TERM]",
            network: "[NET]",
            clipboard: "[CLIP]",
            play: "> ",
            play_empty: "  ",
        }
    }

    /// The emoji set.
    pub fn emoji() -> (g: Self)
        ensures
            g.is_emoji_set(),
    {
        GlyphMap {
            status_ok: "✔️",
            status_err: "❌",
            info: "ℹ️",
            warning: "⚠️",
            cpu: "🧠",
            gpu: "🎮",
            memory: "📟",
            disk: "💾",
            package: "📦",
            battery: "🔋",
            shell: "🐚",
            terminal: "📟",
            network: "🌐",
            clipboard: "📋",
            play: "▶ ",
            play_empty: "  ",
        }
    }

    /// The set for a terminal: ASCII in the classic Windows console, emoji elsewhere.
    pub fn for_terminal(terminal: &str) -> (g: Self)
        ensures
            terminal@ == "Windows Console Host"@ ==> g.is_ascii_set(),
            terminal@ != "Windows Console Host"@ ==> g.is_emoji_set(),
    {
        if str_eq(terminal, "Windows Console Host") {
            Self::ascii()
        } else {
            Self::emoji()
        }
    }

    /// The set for the current platform's terminal.
    pub fn load() -> (g: Self)
        ensures
            g.is_emoji_set(),
    {
        let (_, terminal) = crate::platform::native::sys_info::query_shell_and_terminal();
        proof {
            reveal_strlit("xterm");
            reveal_strlit("Windows Console Host");
            assert(terminal@.len() != "Windows Console Host"@.len());
        }
        Self::for_terminal(terminal.as_str())
    }
}

} // verus!
