//! The host: its bridges and the names of its interfaces.

pub mod network;
pub mod types;
