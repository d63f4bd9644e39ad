//! The decision logic of the locho service tunnel.
//!
//! The crate holds what a host and an attachment compute and decide: which
//! requests a host admits, what is sent upstream, how frames are cut and read,
//! when an attachment reconnects, and how persisted state evolves. Sockets,
//! files, and timers belong to the program around it.

pub mod text;
pub mod auth;
pub mod net;
pub mod upstream;
pub mod config;
pub mod capability;
pub mod http_utils;
pub mod protocol;
pub mod relay;
pub mod state;
pub mod atomic_write;
pub mod host;
pub mod supervisor;
pub mod transport;
pub mod lifecycle;
pub mod attach;
pub mod attach_config;
pub mod cli;
pub mod diagnostics;
pub mod tunnel;
