//! Driver logic for a drawing tablet: the vendor input protocol, button and
//! pen mappings, configuration text, and the state that injection keeps.

pub mod text;
pub mod keys;
pub mod config;
pub mod protocol;
pub mod hid;
pub mod inject;
pub mod shared;
pub mod area;
pub mod log;
pub mod driver;
pub mod ui;
