//! OpenRGB SDK client: wire format and packet building.
pub mod wire;
pub mod protocol;
pub mod packet;
pub mod readers;
