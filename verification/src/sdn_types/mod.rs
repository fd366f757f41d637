//! Value types of the routing protocols: the OSPF area, the OpenFabric
//! intervals and the network entity title.

pub mod area;
pub mod net;
pub mod openfabric;
