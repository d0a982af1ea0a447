//! Client-side state synchronisation for a multi-robot telemetry stream.

pub mod channel;
pub mod clock;
pub mod discovery;
pub mod field;
pub mod fixed;
pub mod hosts;
pub mod interfaces;
pub mod interpolation;
pub mod io_session;
pub mod net;
pub mod sampling;
pub mod state_filter;
pub mod status_session;
pub mod sync;
pub mod telemetry;
pub mod timeline;
pub mod transport;
pub mod vis_select;
pub mod visualization_tracker;
pub mod world_state_filter;
