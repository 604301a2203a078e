//! Offline-resilient asset cache and playback synchronisation for a
//! digital-signage client.
//!
//! The library keeps the books and takes the decisions: which cached file
//! leaves when room is needed, what an inbound notification means for the
//! playlist, when the display moves on. It does no input or output; callers
//! hand in what happened and carry out what comes back.

pub mod addresses;
pub mod assets;
pub mod cache;
pub mod cache_model;
pub mod playback;
pub mod realtime;
pub mod recency;
pub mod renderer;
pub mod text;
pub mod video;
