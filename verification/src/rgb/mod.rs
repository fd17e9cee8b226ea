//! The first OpenRGB client of the library, kept for callers that use it.
pub mod protocol;
pub mod controller;
