//! What a fabric, a node and an interface hold beyond what all protocols
//! share.

pub mod openfabric;
pub mod ospf;
