//! Platform abstractions and portable helpers.
pub mod platform;
pub mod platform_web;
pub mod platform_mobile;
pub mod platform_embedded;
pub mod sys_info_glyphs;
pub mod config;
pub mod sys_info_linux;
