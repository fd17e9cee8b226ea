//! State and layout of the accent TUI components.
pub mod accent_list;
pub mod tabs;
pub mod markdown_viewer;
pub mod gui_native;
