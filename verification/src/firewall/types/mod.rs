//! The types of the firewall configuration.

pub mod address;
pub mod alias;
pub mod ipset;
pub mod log;
pub mod rule;
