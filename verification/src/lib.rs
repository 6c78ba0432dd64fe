//! Person-triggered video surveillance core: per-frame trigger decisions,
//! pre-event ring buffering, recording-session protocol, and timelapse
//! rotation, verified over exact integer models of the pipeline state.

pub mod geometry;
pub mod ring;
pub mod trigger;
pub mod timelapse;
pub mod session;
pub mod names;
pub mod config;
pub mod clock;
pub mod pipeline;
pub mod adapter;
pub mod parse;
