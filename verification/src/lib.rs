//! Verified decoding of fighting-game HUD state from video frames.
//!
//! The library classifies pixel colors along fixed scan geometry, combines
//! the classifications into bounded numeric gauge readings, and groups a
//! sequence of per-frame readings into rounds and a match.

pub mod analysis;
pub mod codec;
pub mod common;
pub mod frame;
pub mod manemon;
pub mod pipeline;
pub mod ratio;
pub mod rect;
