//! The OpenFabric records of the daemon's configuration.

use vstd::prelude::*;
use crate::frr::{FrrWord, FrrWordError};
use crate::sdn_types::net::Net;
use crate::sdn_types::openfabric::{CsnpInterval, HelloInterval, HelloMultiplier};

verus! {

/// The name of an OpenFabric router, a word: the name of its fabric.
#[derive(Clone, Debug, PartialEq, Eq, Hash, PartialOrd, Ord)]
pub struct OpenfabricRouterName(FrrWord);

impl View for OpenfabricRouterName {
    type V = Seq<char>;

    closed spec fn view(&self) -> Seq<char> {
        self.0@
    }
}

impl OpenfabricRouterName {
    pub fn new(name: FrrWord) -> (r: OpenfabricRouterName)
        ensures
            r@ == name@,
    {
        OpenfabricRouterName(name)
    }

    pub fn as_str(&self) -> (r: &str)
        ensures
            r@ == self@,
    {
        self.0.as_str()
    }

    /// A copy of the name.
    pub fn duplicate(&self) -> (r: OpenfabricRouterName)
        ensures
            r@ == self@,
    {
        OpenfabricRouterName(self.0.clone())
    }
}

/// What an OpenFabric router holds: the network entity title of the node.
#[derive(Clone, Debug, PartialEq, Eq, Hash, PartialOrd, Ord)]
pub struct OpenfabricRouter {
    pub net: Net,
}

impl OpenfabricRouter {
    pub fn new(net: Net) -> (r: OpenfabricRouter)
        ensures
            r.net == net,
    {
        OpenfabricRouter { net }
    }

    pub fn net(&self) -> (r: &Net)
        ensures
            *r == self.net,
    {
        &self.net
    }
}

/// What an interface of an OpenFabric fabric holds. The fabric ties the
/// interface to its router; the two flags say for which address families the
/// interface takes part.
#[derive(Clone, Debug, PartialEq, Eq, Hash, PartialOrd, Ord)]
pub struct OpenfabricInterface {
    pub fabric_id: OpenfabricRouterName,
    pub passive: Option<bool>,
    pub hello_interval: Option<HelloInterval>,
    pub csnp_interval: Option<CsnpInterval>,
    pub hello_multiplier: Option<HelloMultiplier>,
    pub is_ipv4: bool,
    pub is_ipv6: bool,
}

/// The view of an OpenFabric interface.
pub struct OpenfabricInterfaceView {
    pub fabric_id: Seq<char>,
    pub passive: Option<bool>,
    pub hello_interval: Option<HelloInterval>,
    pub csnp_interval: Option<CsnpInterval>,
    pub hello_multiplier: Option<HelloMultiplier>,
    pub is_ipv4: bool,
    pub is_ipv6: bool,
}

impl View for OpenfabricInterface {
    type V = OpenfabricInterfaceView;

    open spec fn view(&self) -> OpenfabricInterfaceView {
        OpenfabricInterfaceView {
            fabric_id: self.fabric_id@,
            passive: self.passive,
            hello_interval: self.hello_interval,
            csnp_interval: self.csnp_interval,
            hello_multiplier: self.hello_multiplier,
            is_ipv4: self.is_ipv4,
            is_ipv6: self.is_ipv6,
        }
    }
}

/// Why an OpenFabric interface could not be made.
#[derive(Clone, Copy, Debug, PartialEq, Eq, Structural)]
pub enum OpenfabricInterfaceError {
    UnknownError,
    FrrWordParse(FrrWordError),
}

} // verus!
