//! What holds of the bridge as a whole.

pub mod contexts;
pub mod edges;
pub mod events;
pub mod mappings;
pub mod payloads;
pub mod places;
pub mod published;
pub mod scores;
pub mod texts;
pub mod titles;
pub mod values;
pub mod windows;
