//! Application software role: RGB control, dashboards and package inventories.
pub mod rgb;
pub mod formatting;
pub mod packages;
pub mod game;
