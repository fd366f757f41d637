//! Nodes as they are exchanged with clients: the name of the fabric and the
//! name of the node stand apart, and changes to a node have a form of their
//! own.

use vstd::prelude::*;
use crate::ip_address::{Ipv4Addr, Ipv6Addr};
use crate::sdn::fabric::section_config::fabric::FabricId;
use crate::sdn::fabric::section_config::node::{NodeId, NodeSection, NodeSectionId};
use crate::sdn::fabric::section_config::protocol::openfabric::{
    OpenfabricNodeDeletableProperties, OpenfabricNodeProperties, OpenfabricNodePropertiesUpdater,
};
use crate::sdn::fabric::section_config::protocol::ospf::{
    OspfNodeDeletableProperties, OspfNodeProperties, OspfNodePropertiesUpdater,
};

verus! {

/// A node with the name of its fabric and its own name apart.
#[derive(Debug, Clone)]
pub struct NodeData<T> {
    pub fabric_id: FabricId,
    pub node_id: NodeId,
    pub ip: Option<Ipv4Addr>,
    pub ip6: Option<Ipv6Addr>,
    pub properties: T,
}

impl<T> NodeData<T> {
    /// The node as it is exchanged with clients.
    pub fn from_section(value: NodeSection<T>) -> (r: NodeData<T>)
        ensures
            r.fabric_id == value.id.fabric_id,
            r.node_id == value.id.node_id,
            r.ip == value.ip,
            r.ip6 == value.ip6,
            r.properties == value.properties,
    {
        NodeData {
            fabric_id: value.id.fabric_id,
            node_id: value.id.node_id,
            ip: value.ip,
            ip6: value.ip6,
            properties: value.properties,
        }
    }

    /// The node as the configuration holds it.
    pub fn into_section(self) -> (r: NodeSection<T>)
        ensures
            r.id.fabric_id == self.fabric_id,
            r.id.node_id == self.node_id,
            r.ip == self.ip,
            r.ip6 == self.ip6,
            r.properties == self.properties,
    {
        let id = NodeSectionId::new(self.fabric_id, self.node_id);
        NodeSection { id, ip: self.ip, ip6: self.ip6, properties: self.properties }
    }
}

/// A node of one of the protocols, as it is exchanged with clients.
#[derive(Debug, Clone)]
pub enum Node {
    Openfabric(NodeData<OpenfabricNodeProperties>),
    Ospf(NodeData<OspfNodeProperties>),
}

impl Node {
    /// The node as it is exchanged with clients.
    pub fn from_node(value: crate::sdn::fabric::section_config::node::Node) -> (r: Node)
        ensures
            r is Openfabric <==> value is Openfabric,
            r.into_node_spec() == value,
    {
        match value {
            crate::sdn::fabric::section_config::node::Node::Openfabric(n) => Node::Openfabric(
                NodeData::from_section(n),
            ),
            crate::sdn::fabric::section_config::node::Node::Ospf(n) => Node::Ospf(
                NodeData::from_section(n),
            ),
        }
    }

    /// The node that the configuration holds for this one.
    pub open spec fn into_node_spec(self) -> crate::sdn::fabric::section_config::node::Node {
        match self {
            Node::Openfabric(d) => crate::sdn::fabric::section_config::node::Node::Openfabric(
                NodeSection {
                    id: NodeSectionId { fabric_id: d.fabric_id, node_id: d.node_id },
                    ip: d.ip,
                    ip6: d.ip6,
                    properties: d.properties,
                },
            ),
            Node::Ospf(d) => crate::sdn::fabric::section_config::node::Node::Ospf(
                NodeSection {
                    id: NodeSectionId { fabric_id: d.fabric_id, node_id: d.node_id },
                    ip: d.ip,
                    ip6: d.ip6,
                    properties: d.properties,
                },
            ),
        }
    }

    /// The node as the configuration holds it.
    pub fn into_node(self) -> (r: crate::sdn::fabric::section_config::node::Node)
        ensures
            r == self.into_node_spec(),
    {
        match self {
            Node::Openfabric(d) => crate::sdn::fabric::section_config::node::Node::Openfabric(
                d.into_section(),
            ),
            Node::Ospf(d) => crate::sdn::fabric::section_config::node::Node::Ospf(d.into_section()),
        }
    }
}

/// The properties of a node that can be taken away.
#[derive(Debug, Clone, Copy, PartialEq, Eq)]
#[verifier::ext_equal]
pub enum NodeDeletableProperties<T> {
    Ip,
    Ip6,
    Protocol(T),
}

/// The changes to a node: each value that is given takes the place of the
/// one before, and each property that is named for deletion is taken away
/// afterwards.
#[derive(Debug, Clone)]
pub struct NodeDataUpdater<T, D> {
    pub ip: Option<Ipv4Addr>,
    pub ip6: Option<Ipv6Addr>,
    pub properties: T,
    pub delete: Vec<NodeDeletableProperties<D>>,
}

/// The changes to a node of one of the protocols.
#[derive(Debug, Clone)]
pub enum NodeUpdater {
    Openfabric(NodeDataUpdater<OpenfabricNodePropertiesUpdater, OpenfabricNodeDeletableProperties>),
    Ospf(NodeDataUpdater<OspfNodePropertiesUpdater, OspfNodeDeletableProperties>),
}

impl NodeUpdater {
    /// The changes change nothing.
    pub open spec fn changes_nothing(self) -> bool {
        match self {
            NodeUpdater::Openfabric(u) => u.ip is None && u.ip6 is None
                && u.properties.interfaces is None && u.delete@.len() == 0,
            NodeUpdater::Ospf(u) => u.ip is None && u.ip6 is None && u.properties.interfaces is None
                && u.delete@.len() == 0,
        }
    }

    /// Whether the changes change nothing.
    pub fn is_empty(&self) -> (r: bool)
        ensures
            r == self.changes_nothing(),
    {
        match self {
            NodeUpdater::Openfabric(u) => u.ip.is_none() && u.ip6.is_none()
                && u.properties.interfaces.is_none() && u.delete.len() == 0,
            NodeUpdater::Ospf(u) => u.ip.is_none() && u.ip6.is_none()
                && u.properties.interfaces.is_none() && u.delete.len() == 0,
        }
    }
}

} // verus!
