//! The firewall: what its rules are made from.

pub mod bridge;
pub mod types;
