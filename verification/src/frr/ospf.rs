//! The OSPF records of the daemon's configuration.

use vstd::prelude::*;
use crate::frr::{FrrWord, FrrWordError};
use crate::ip_address::text::parse_ipv4_spec;
use crate::ip_address::Ipv4Addr;
use crate::text::{parse_u32, parse_u32_spec};

verus! {

/// The name of the OSPF router. A node has one OSPF router, whatever the
/// number of its fabrics, so the name holds nothing.
#[derive(Clone, Copy, Debug, PartialEq, Eq, Structural, Hash, PartialOrd, Ord)]
pub struct OspfRouterName;

/// Why a word is no area.
#[derive(Clone, Copy, Debug, PartialEq, Eq, Structural)]
pub enum AreaParsingError {
    InvalidArea,
    MissingPrefix,
    FrrWordError(FrrWordError),
}

/// `s` reads as a number of 32 bits or as an address of version 4.
pub open spec fn is_area_text(s: Seq<char>) -> bool {
    parse_u32_spec(s) is Some || parse_ipv4_spec(s) is Some
}

/// An OSPF area as the daemon takes it: a word that reads as a number or as
/// an address of version 4.
#[derive(Debug, PartialEq, Eq, Hash, PartialOrd, Ord)]
pub struct Area(FrrWord);

impl View for Area {
    type V = Seq<char>;

    closed spec fn view(&self) -> Seq<char> {
        self.0@
    }
}

impl Clone for Area {
    fn clone(&self) -> (r: Self)
        ensures
            r == *self,
    {
        proof {
            use_type_invariant(self);
        }
        Area(self.0.clone())
    }
}

impl Area {
    #[verifier::type_invariant]
    spec fn well_formed(self) -> bool {
        is_area_text(self.0@)
    }

    /// The area that the word names.
    pub fn new(name: FrrWord) -> (r: Result<Area, AreaParsingError>)
        ensures
            is_area_text(name@) ==> r is Ok && r->Ok_0@ == name@,
            !is_area_text(name@) ==> r == Err::<Area, AreaParsingError>(
                AreaParsingError::InvalidArea,
            ),
    {
        let is_number: bool = parse_u32(name.as_str()).is_some();
        if is_number || Ipv4Addr::parse_text(name.as_str()).is_some() {
            Ok(Area(name))
        } else {
            Err(AreaParsingError::InvalidArea)
        }
    }

    pub fn as_str(&self) -> (r: &str)
        ensures
            r@ == self@,
            is_area_text(r@),
    {
        proof {
            use_type_invariant(self);
        }
        self.0.as_str()
    }
}

/// What the OSPF router holds: the router identifier, which every fabric of
/// the node shares.
#[derive(Clone, Copy, Debug, PartialEq, Eq, Structural, Hash, PartialOrd, Ord)]
pub struct OspfRouter {
    pub router_id: Ipv4Addr,
}

impl OspfRouter {
    pub fn new(router_id: Ipv4Addr) -> (r: OspfRouter)
        ensures
            r.router_id == router_id,
    {
        OspfRouter { router_id }
    }

    pub fn router_id(&self) -> (r: &Ipv4Addr)
        ensures
            *r == self.router_id,
    {
        &self.router_id
    }
}

/// Why an OSPF interface could not be made.
#[derive(Clone, Copy, Debug, PartialEq, Eq, Structural)]
pub enum OspfInterfaceError {
    AreaParsingError(AreaParsingError),
    FrrWordParse(FrrWordError),
}

/// How an interface treats its link. Broadcast is what the daemon assumes
/// where nothing is said; an interface without an address of its own is
/// point-to-point.
#[derive(Clone, Copy, Debug, PartialEq, Eq, Structural, Hash, PartialOrd, Ord)]
pub enum NetworkType {
    Broadcast,
    NonBroadcast,
    PointToPoint,
    PointToMultipoint,
}

/// What an interface of an OSPF fabric holds. The area ties the interface to
/// its fabric.
#[derive(Clone, Debug, PartialEq, Eq, Hash, PartialOrd, Ord)]
pub struct OspfInterface {
    pub area: Area,
    pub passive: Option<bool>,
    pub network_type: Option<NetworkType>,
}

/// The view of an OSPF interface.
pub struct OspfInterfaceView {
    pub area: Seq<char>,
    pub passive: Option<bool>,
    pub network_type: Option<NetworkType>,
}

impl View for OspfInterface {
    type V = OspfInterfaceView;

    open spec fn view(&self) -> OspfInterfaceView {
        OspfInterfaceView {
            area: self.area@,
            passive: self.passive,
            network_type: self.network_type,
        }
    }
}

} // verus!
