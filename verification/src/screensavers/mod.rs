//! Screensaver scenes: the discrete part of their state machines.
pub mod cosmos;
