//! The OpenFabric properties of fabrics, nodes and interfaces.

use vstd::prelude::*;
use crate::ip_address::cidr::{Ipv4Cidr, Ipv6Cidr};
use crate::sdn::fabric::section_config::interface::InterfaceName;
use crate::sdn_types::openfabric::{CsnpInterval, HelloInterval, HelloMultiplier};
use crate::ordered::Replicate;
use crate::views::views;

verus! {

/// What an OpenFabric fabric hands down to every interface of its nodes.
#[derive(Debug, Clone, Copy, PartialEq, Eq, Structural, Hash)]
pub struct OpenfabricProperties {
    pub hello_interval: Option<HelloInterval>,
    pub csnp_interval: Option<CsnpInterval>,
}

impl View for OpenfabricProperties {
    type V = OpenfabricProperties;

    open spec fn view(&self) -> OpenfabricProperties {
        *self
    }
}

impl Replicate for OpenfabricProperties {
    fn replicate(&self) -> (r: Self) {
        *self
    }
}

/// The changes to the properties of an OpenFabric fabric: each value that
/// is given takes the place of the one before.
#[derive(Debug, Clone, Copy, PartialEq, Eq, Structural)]
pub struct OpenfabricPropertiesUpdater {
    pub hello_interval: Option<HelloInterval>,
    pub csnp_interval: Option<CsnpInterval>,
}

/// The properties of an OpenFabric fabric that can be taken away.
#[derive(Debug, Clone, Copy, PartialEq, Eq, Structural, Hash)]
pub enum OpenfabricDeletableProperties {
    HelloInterval,
    CsnpInterval,
}

/// An interface of an OpenFabric node. Without an address of either family
/// it is a point-to-point interface.
#[derive(Debug, Clone, PartialEq, Eq, Hash)]
pub struct OpenfabricInterfaceProperties {
    pub name: InterfaceName,
    pub hello_multiplier: Option<HelloMultiplier>,
    pub ip: Option<Ipv4Cidr>,
    pub ip6: Option<Ipv6Cidr>,
}

/// The view of an interface of an OpenFabric node.
pub struct OpenfabricInterfaceView {
    pub name: Seq<char>,
    pub hello_multiplier: Option<HelloMultiplier>,
    pub ip: Option<Ipv4Cidr>,
    pub ip6: Option<Ipv6Cidr>,
}

impl View for OpenfabricInterfaceProperties {
    type V = OpenfabricInterfaceView;

    open spec fn view(&self) -> OpenfabricInterfaceView {
        OpenfabricInterfaceView {
            name: self.name@,
            hello_multiplier: self.hello_multiplier,
            ip: self.ip,
            ip6: self.ip6,
        }
    }
}

impl OpenfabricInterfaceProperties {
    pub fn name(&self) -> (r: &InterfaceName)
        ensures
            r@ == self@.name,
    {
        &self.name
    }

    pub fn set_name(&mut self, name: InterfaceName)
        ensures
            final(self)@ == (OpenfabricInterfaceView { name: name@, ..old(self)@ }),
    {
        self.name = name
    }

    pub fn ip(&self) -> (r: Option<Ipv4Cidr>)
        ensures
            r == self@.ip,
    {
        self.ip
    }

    pub fn ip6(&self) -> (r: Option<Ipv6Cidr>)
        ensures
            r == self@.ip6,
    {
        self.ip6
    }
}

/// What an OpenFabric node holds: its interfaces.
#[derive(Debug, Clone, PartialEq, Eq, Hash)]
pub struct OpenfabricNodeProperties {
    pub interfaces: Vec<OpenfabricInterfaceProperties>,
}

impl View for OpenfabricNodeProperties {
    type V = Seq<OpenfabricInterfaceView>;

    open spec fn view(&self) -> Seq<OpenfabricInterfaceView> {
        views(self.interfaces@)
    }
}

impl Replicate for OpenfabricInterfaceProperties {
    fn replicate(&self) -> (r: Self) {
        OpenfabricInterfaceProperties {
            name: self.name.clone(),
            hello_multiplier: self.hello_multiplier,
            ip: self.ip,
            ip6: self.ip6,
        }
    }
}

impl Replicate for OpenfabricNodeProperties {
    fn replicate(&self) -> (r: Self) {
        let mut interfaces: Vec<OpenfabricInterfaceProperties> = Vec::new();
        let mut i: usize = 0;
        while i < self.interfaces.len()
            invariant
                i <= self.interfaces.len(),
                views(interfaces@) == views(self.interfaces@).subrange(0, i as int),
            decreases self.interfaces.len() - i,
        {
            let copy = self.interfaces[i].replicate();
            proof {
                crate::views::lemma_views_push(interfaces@, copy);
            }
            interfaces.push(copy);
            i = i + 1;
            assert(views(interfaces@) =~= views(self.interfaces@).subrange(0, i as int));
        }
        assert(views(interfaces@) =~= views(self.interfaces@));
        OpenfabricNodeProperties { interfaces }
    }
}

impl OpenfabricNodeProperties {
    /// The interfaces of the node.
    pub fn interfaces(&self) -> (r: &Vec<OpenfabricInterfaceProperties>)
        ensures
            views(r@) == self@,
    {
        &self.interfaces
    }

    /// The interfaces of the node, to be changed in place: the node holds
    /// afterwards the interfaces as they were left.
    pub fn interfaces_mut(&mut self) -> (r: &mut Vec<OpenfabricInterfaceProperties>)
        ensures
            *r == old(self).interfaces,
            final(self).interfaces == *final(r),
    {
        &mut self.interfaces
    }
}

/// The changes to the properties of an OpenFabric node.
#[derive(Debug, Clone)]
pub struct OpenfabricNodePropertiesUpdater {
    pub interfaces: Option<Vec<OpenfabricInterfaceProperties>>,
}

/// The properties of an OpenFabric node that can be taken away.
#[derive(Debug, Clone, Copy, PartialEq, Eq, Structural)]
pub enum OpenfabricNodeDeletableProperties {
    Interfaces,
}

} // verus!
