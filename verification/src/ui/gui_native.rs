//! Console dialogs: the line shown for a message and how an answer to a
//! yes/no prompt is read. Printing and reading the console happen outside the
//! library.
use vstd::prelude::*;
use crate::text::{str_chars, string_from_chars, extend_with_str, trim, trim_chars, lowercase, to_lowercase, chars_eq};

verus! {

/// The kind of a console message.
#[derive(Debug, Clone, Copy, PartialEq, Eq, Structural)]
pub enum MessageKind {
    Info,
    Error,
    Warning,
}

/// The tag of a message kind.
pub open spec fn message_tag(kind: MessageKind) -> Seq<char> {
    match kind {
        MessageKind::Info => "[INFO] "@,
        MessageKind::Error => "[ERROR] "@,
        MessageKind::Warning => "[WARNING] "@,
    }
}

/// The console line of a message: "[<KIND>] <title>: <message>".
pub fn message_line(kind: MessageKind, title: &str, message: &str) -> (s: String)
    ensures
        s@ == message_tag(kind) + title@ + ": "@ + message@,
{
    let mut cs: Vec<char> = Vec::new();
    match kind {
        MessageKind::Info => extend_with_str(&mut cs, "[INFO] "),
        MessageKind::Error => extend_with_str(&mut cs, "[ERROR] "),
        MessageKind::Warning => extend_with_str(&mut cs, "[WARNING] "),
    }
    extend_with_str(&mut cs, title);
    extend_with_str(&mut cs, ": ");
    extend_with_str(&mut cs, message);
    string_from_chars(&cs)
}

/// Whether an answer to a yes/no prompt confirms: trimmed and lowercased, it
/// is "y" or "yes".
pub fn confirms(answer: &str) -> (b: bool)
    ensures
        b == (lowercase(trim(answer@)) == "y"@ || lowercase(trim(answer@)) == "yes"@),
{
    let t = string_from_chars(&trim_chars(&str_chars(answer)));
    let lower = str_chars(to_lowercase(t.as_str()).as_str());
    let y = str_chars("y");
    let yes = str_chars("yes");
    chars_eq(&lower, &y) || chars_eq(&lower, &yes)
}

} // verus!
