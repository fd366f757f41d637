//! The OSPF properties of fabrics, nodes and interfaces.

use vstd::prelude::*;
use crate::ip_address::cidr::Ipv4Cidr;
use crate::sdn::fabric::section_config::interface::InterfaceName;
use crate::sdn_types::area::Area;
use crate::ordered::Replicate;
use crate::views::views;

verus! {

/// What an OSPF fabric holds: its area.
#[derive(Debug, Clone, Copy, PartialEq, Eq, Structural, Hash)]
pub struct OspfProperties {
    pub area: Area,
}

impl View for OspfProperties {
    type V = OspfProperties;

    open spec fn view(&self) -> OspfProperties {
        *self
    }
}

impl Replicate for OspfProperties {
    fn replicate(&self) -> (r: Self) {
        *self
    }
}

impl OspfProperties {
    pub fn set_area(&mut self, value: Area)
        ensures
            final(self).area == value,
    {
        self.area = value;
    }

    pub fn area(&self) -> (r: &Area)
        ensures
            *r == self.area,
    {
        &self.area
    }
}

/// The changes to the properties of an OSPF fabric.
#[derive(Debug, Clone, Copy, PartialEq, Eq, Structural)]
pub struct OspfPropertiesUpdater {
    pub area: Option<Area>,
}

/// The properties of an OSPF fabric that can be taken away. An OSPF fabric
/// has none beyond what every fabric has, so the one value names nothing,
/// and to delete it changes nothing.
#[derive(Debug, Clone, Copy, PartialEq, Eq, Structural)]
pub enum OspfDeletableProperties {
    Nothing,
}

/// An interface of an OSPF node. Without an address it is an unnumbered
/// point-to-point interface.
#[derive(Debug, Clone, PartialEq, Eq, Hash)]
pub struct OspfInterfaceProperties {
    pub name: InterfaceName,
    pub ip: Option<Ipv4Cidr>,
}

/// The view of an interface of an OSPF node.
pub struct OspfInterfaceView {
    pub name: Seq<char>,
    pub ip: Option<Ipv4Cidr>,
}

impl View for OspfInterfaceProperties {
    type V = OspfInterfaceView;

    open spec fn view(&self) -> OspfInterfaceView {
        OspfInterfaceView { name: self.name@, ip: self.ip }
    }
}

impl OspfInterfaceProperties {
    pub fn name(&self) -> (r: &InterfaceName)
        ensures
            r@ == self@.name,
    {
        &self.name
    }

    pub fn ip(&self) -> (r: Option<Ipv4Cidr>)
        ensures
            r == self@.ip,
    {
        self.ip
    }
}

/// What an OSPF node holds: its interfaces.
#[derive(Debug, Clone, PartialEq, Eq, Hash)]
pub struct OspfNodeProperties {
    pub interfaces: Vec<OspfInterfaceProperties>,
}

impl View for OspfNodeProperties {
    type V = Seq<OspfInterfaceView>;

    open spec fn view(&self) -> Seq<OspfInterfaceView> {
        views(self.interfaces@)
    }
}

impl Replicate for OspfInterfaceProperties {
    fn replicate(&self) -> (r: Self) {
        OspfInterfaceProperties { name: self.name.clone(), ip: self.ip }
    }
}

impl Replicate for OspfNodeProperties {
    fn replicate(&self) -> (r: Self) {
        let mut interfaces: Vec<OspfInterfaceProperties> = Vec::new();
        let mut i: usize = 0;
        while i < self.interfaces.len()
            invariant
                i <= self.interfaces.len(),
                views(interfaces@) == views(self.interfaces@).subrange(0, i as int),
            decreases self.interfaces.len() - i,
        {
            let copy = self.interfaces[i].replicate();
            proof {
                crate::views::lemma_views_push(interfaces@, copy);
            }
            interfaces.push(copy);
            i = i + 1;
            assert(views(interfaces@) =~= views(self.interfaces@).subrange(0, i as int));
        }
        assert(views(interfaces@) =~= views(self.interfaces@));
        OspfNodeProperties { interfaces }
    }
}

impl OspfNodeProperties {
    /// The interfaces of the node.
    pub fn interfaces(&self) -> (r: &Vec<OspfInterfaceProperties>)
        ensures
            views(r@) == self@,
    {
        &self.interfaces
    }

    /// The interfaces of the node, to be changed in place: the node holds
    /// afterwards the interfaces as they were left.
    pub fn interfaces_mut(&mut self) -> (r: &mut Vec<OspfInterfaceProperties>)
        ensures
            *r == old(self).interfaces,
            final(self).interfaces == *final(r),
    {
        &mut self.interfaces
    }
}

/// The changes to the properties of an OSPF node.
#[derive(Debug, Clone)]
pub struct OspfNodePropertiesUpdater {
    pub interfaces: Option<Vec<OspfInterfaceProperties>>,
}

/// The properties of an OSPF node that can be taken away.
#[derive(Debug, Clone, Copy, PartialEq, Eq, Structural)]
pub enum OspfNodeDeletableProperties {
    Interfaces,
}

} // verus!
