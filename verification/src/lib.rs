//! Mirrors the playback state of a music player daemon onto a remote
//! presence display: templated text rendering, timestamp computation,
//! cover-art lookup planning with memoization, and the orchestration
//! decisions that tie them together.

pub mod art;
pub mod config;
pub mod host;
pub mod player;
pub mod presence;
pub mod strings;
pub mod template;
pub mod timestamp;
