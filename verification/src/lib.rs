//! Which Hyprland window does Chrome show?
//!
//! The library takes payloads in which Chrome tells of its active tab and window, scores the
//! windows that Hyprland knows against them, remembers which window each Chrome window is taken to
//! be, and builds what is published of it.

pub mod client;
pub mod clock;
pub mod codec;
pub mod confidence;
pub mod context;
pub mod enrich;
pub mod geometry;
pub mod hyprctl;
pub mod json;
pub mod laws;
pub mod mapping;
pub mod publish;
pub mod ratio;
pub mod request;
pub mod scoring;
pub mod similarity;
pub mod state;
pub mod table;
pub mod text;
pub mod watch;
