//! Software-defined network fabrics: an address algebra, a typed model of
//! fabrics, nodes and interfaces, the validation of a whole configuration and
//! its compilation into routing-daemon records.

pub mod common;
pub mod firewall;
pub mod frr;
pub mod guest;
pub mod host;
pub mod ip_address;
pub mod mac_address;
pub mod ordered;
pub mod sdn;
pub mod sdn_types;
pub mod text;
pub mod views;
