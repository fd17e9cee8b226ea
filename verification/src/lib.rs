use vstd::prelude::*;

pub mod text;
pub mod role;
pub mod rgb;
pub mod reg;
pub mod reg_stub;
pub mod toolkit;
pub mod platform;
pub mod sys_info;
pub mod widgets;
pub mod ui;
pub mod screensavers;

verus! {

} // verus!
