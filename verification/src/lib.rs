//! Paints a background image onto every output of a Wayland compositor
//! through the layer-shell protocol.
//!
//! The library holds the decisions: the protocol session that binds the
//! compositor's globals and routes its events, the state machine of each
//! layer surface over configure, attach and frame, the pool that recycles
//! a fixed number of shared-memory buffers, the cache of rendered buffers,
//! and the orchestrator that shows one image on all outputs. It talks to
//! the compositor in typed requests and events ([`engine::protocol`]);
//! whoever owns the connection sends the requests and hands in the events.

pub mod display;
pub mod engine;
pub mod image;
pub mod utils;

pub use engine::{app::App, daemon::Daemon};
pub use utils::error::{WallpaperError, WallpaperResult};
