//! What the software is for: application-level helpers (RGB control, formatting).
pub mod application;
