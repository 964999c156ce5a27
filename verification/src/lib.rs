//! Verified core of a terminal dashboard for Docker hosts: the host and
//! container model, the application state machine, and the decisions taken
//! by the per-host workers.

pub mod text;
pub mod colour;
pub mod container;
pub mod order;
pub mod compose;
pub mod host;
pub mod messages;
pub mod ui_state;
pub mod config;
pub mod channels;
pub mod app;
pub mod keys;
pub mod stats;
pub mod worker;
pub mod view;
pub mod palette;
pub mod laws;
