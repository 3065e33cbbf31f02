//! Converts a raster animation (timed RGBA frames) into an event-driven
//! encoding for a game-level authoring format: each solid pixel becomes an
//! object whose visibility is simulated by teleporting it between a visible
//! anchor and a fixed hidden offset, driven by periodic triggers.

pub mod decimal;
pub mod events;
pub mod iwb;
pub mod laws;
pub mod frame;
pub mod level;
pub mod pixel;
pub mod timeline;
