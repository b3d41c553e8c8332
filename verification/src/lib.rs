//! Verified core of the ralk engine: render-graph layout tracking, HDR and
//! half-float encoding, GPU query bookkeeping, resource handle tables, audio
//! slot pools, device selection policy and the application's screen state.

pub mod shader;
pub mod render_graph;
pub mod hdr;
pub mod half;
pub mod profiler;
pub mod resources;
pub mod audio;
pub mod device;
pub mod scene;
pub mod game;
pub mod config;
pub mod scripting;
pub mod upload;
pub mod assets;
pub mod listing;
