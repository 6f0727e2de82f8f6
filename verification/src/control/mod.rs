//! The control loop of the throttle and the state that it shares with the signal handler.

pub mod config;
pub mod enforcer;
pub mod enforcer_laws;
pub mod error;
pub mod estimator;
pub mod fault;
pub mod listing;
pub mod marshal;
pub mod recon;
pub mod reporter;
pub mod session;
pub mod session_laws;
pub mod span;
pub mod state;
pub mod text;
pub mod types;
pub mod wait;

pub use error::ControlError;
pub use session::start;
pub use state::{resume_before_forced_exit, stop};
