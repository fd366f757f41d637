//! Guests: virtual machines and containers.

pub mod property;
pub mod types;
pub mod vm;
