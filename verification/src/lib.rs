//! Simulation of frogs that hop at random along a line of lily pads until
//! they come back to the bank, and of the pool of workers that runs many of
//! them side by side.

mod chance;
pub mod config;
pub mod frog;
pub mod frog_manager;
pub mod handler;
pub mod pool;
pub mod results;
pub mod text;
pub mod walk;

pub use config::{parse_failure, Config, ConfigError};
pub use handler::{SendError, Signal, WorkerEvent, WorkerFault, WorkerOrder, WorkerState};
