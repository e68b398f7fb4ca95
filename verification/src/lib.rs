//! Release-tracking and changelog-synthesis core.
//!
//! Tracks new releases of a multi-platform application, computes what changed
//! between two release tags, and renders a deterministic markdown changelog,
//! with a persisted per-platform state machine that guarantees at-most-once
//! publication.

pub mod text;
pub mod version;
pub mod github;
pub mod localization;
pub mod platform;
pub mod post;
pub mod publisher;
pub mod state;
pub mod digest;
