//! Fabrics: routing-protocol topologies that span nodes and their
//! interfaces.

pub mod bulk;
pub mod frr;
pub mod section_config;
pub mod validation;

use vstd::prelude::*;
use crate::ip_address::cidr::{Ipv4Cidr, Ipv6Cidr};
use crate::ordered::{has_key, lemma_fits_back, lookup, position, put, OrderedMap, Replicate};
use crate::sdn::fabric::section_config::fabric::{
    Fabric, FabricDeletableProperties, FabricId, FabricSection, FabricSectionUpdater,
    FabricSectionView, FabricUpdater, FabricView,
};
use crate::sdn::fabric::section_config::node::api::{
    NodeDataUpdater, NodeDeletableProperties, NodeUpdater,
};
use crate::sdn::fabric::section_config::node::{
    Node, NodeId, NodeSection, NodeSectionView, NodeView,
};
use crate::sdn::fabric::section_config::protocol::openfabric::{
    OpenfabricDeletableProperties, OpenfabricInterfaceView, OpenfabricNodeDeletableProperties,
    OpenfabricNodeProperties, OpenfabricNodePropertiesUpdater, OpenfabricProperties,
    OpenfabricPropertiesUpdater,
};
use crate::sdn::fabric::section_config::protocol::ospf::{
    OspfDeletableProperties, OspfInterfaceView, OspfNodeDeletableProperties, OspfNodeProperties,
    OspfNodePropertiesUpdater, OspfProperties, OspfPropertiesUpdater,
};
use crate::views::views;
use crate::sdn_types::area::Area;

verus! {

/// What can be wrong with a fabric configuration, or with a change to it.
#[derive(Debug, PartialEq, Eq)]
pub enum FabricConfigError {
    /// No fabric has the name.
    FabricDoesNotExist(String),
    /// The fabric (second) has no node of the name (first).
    NodeDoesNotExist(String, String),
    /// The address of a node (first) lies outside the prefix of its fabric
    /// (second).
    NodeIpOutsideFabricRange(String, String),
    /// A node and a fabric, or a change and its target, are of different
    /// protocols.
    ProtocolMismatch,
    /// A fabric of the name exists already.
    DuplicateFabric(String),
    /// The fabric (second) has a node of the name (first) already.
    DuplicateNode(String, String),
    /// Two nodes of the fabric have the same address.
    DuplicateNodeIp(String),
    /// The fabric (first) has no prefix of the family of the node's address
    /// (second).
    FabricNoIpPrefixForNode(String, String),
    /// The node (first) has no address of the family of the fabric's prefix
    /// (second).
    NodeNoIpForFabricPrefix(String, String),
    /// The fabric has no prefix at all, or none that its protocol needs.
    FabricNoIpPrefix(String),
    /// The node has no address at all, or none that its protocol needs.
    NodeNoIp(String),
    /// An interface of a node is claimed twice.
    DuplicateInterface,
    /// The protocol does not take addresses of version 6.
    Ipv6Unsupported(String),
    /// A node names another fabric than the one it is added to.
    FabricIdMismatch,
    /// Two OSPF fabrics have the same area.
    DuplicateOspfArea,
    /// The prefix of version 4 (first) of a fabric (second) overlaps with the
    /// prefix (third) of another fabric (fourth).
    OverlappingIp4Prefix(String, String, String, String),
    /// The prefix of version 6 (first) of a fabric (second) overlaps with the
    /// prefix (third) of another fabric (fourth).
    OverlappingIp6Prefix(String, String, String, String),
}

/// The view of an error: the same error with its texts as sequences.
pub enum FabricConfigErrorView {
    FabricDoesNotExist(Seq<char>),
    NodeDoesNotExist(Seq<char>, Seq<char>),
    NodeIpOutsideFabricRange(Seq<char>, Seq<char>),
    ProtocolMismatch,
    DuplicateFabric(Seq<char>),
    DuplicateNode(Seq<char>, Seq<char>),
    DuplicateNodeIp(Seq<char>),
    FabricNoIpPrefixForNode(Seq<char>, Seq<char>),
    NodeNoIpForFabricPrefix(Seq<char>, Seq<char>),
    FabricNoIpPrefix(Seq<char>),
    NodeNoIp(Seq<char>),
    DuplicateInterface,
    Ipv6Unsupported(Seq<char>),
    FabricIdMismatch,
    DuplicateOspfArea,
    OverlappingIp4Prefix(Seq<char>, Seq<char>, Seq<char>, Seq<char>),
    OverlappingIp6Prefix(Seq<char>, Seq<char>, Seq<char>, Seq<char>),
}

impl View for FabricConfigError {
    type V = FabricConfigErrorView;

    open spec fn view(&self) -> FabricConfigErrorView {
        match self {
            FabricConfigError::FabricDoesNotExist(a) => FabricConfigErrorView::FabricDoesNotExist(
                a@,
            ),
            FabricConfigError::NodeDoesNotExist(a, b) => FabricConfigErrorView::NodeDoesNotExist(
                a@,
                b@,
            ),
            FabricConfigError::NodeIpOutsideFabricRange(a, b) =>
                FabricConfigErrorView::NodeIpOutsideFabricRange(a@, b@),
            FabricConfigError::ProtocolMismatch => FabricConfigErrorView::ProtocolMismatch,
            FabricConfigError::DuplicateFabric(a) => FabricConfigErrorView::DuplicateFabric(a@),
            FabricConfigError::DuplicateNode(a, b) => FabricConfigErrorView::DuplicateNode(a@, b@),
            FabricConfigError::DuplicateNodeIp(a) => FabricConfigErrorView::DuplicateNodeIp(a@),
            FabricConfigError::FabricNoIpPrefixForNode(a, b) =>
                FabricConfigErrorView::FabricNoIpPrefixForNode(a@, b@),
            FabricConfigError::NodeNoIpForFabricPrefix(a, b) =>
                FabricConfigErrorView::NodeNoIpForFabricPrefix(a@, b@),
            FabricConfigError::FabricNoIpPrefix(a) => FabricConfigErrorView::FabricNoIpPrefix(a@),
            FabricConfigError::NodeNoIp(a) => FabricConfigErrorView::NodeNoIp(a@),
            FabricConfigError::DuplicateInterface => FabricConfigErrorView::DuplicateInterface,
            FabricConfigError::Ipv6Unsupported(a) => FabricConfigErrorView::Ipv6Unsupported(a@),
            FabricConfigError::FabricIdMismatch => FabricConfigErrorView::FabricIdMismatch,
            FabricConfigError::DuplicateOspfArea => FabricConfigErrorView::DuplicateOspfArea,
            FabricConfigError::OverlappingIp4Prefix(a, b, c, d) =>
                FabricConfigErrorView::OverlappingIp4Prefix(a@, b@, c@, d@),
            FabricConfigError::OverlappingIp6Prefix(a, b, c, d) =>
                FabricConfigErrorView::OverlappingIp6Prefix(a@, b@, c@, d@),
        }
    }
}

/// A fabric together with its nodes, both of one protocol. The nodes stand
/// in ascending order of their names.
#[derive(Debug, PartialEq, Eq)]
pub struct Entry<F: View, N: View> {
    fabric: FabricSection<F>,
    nodes: OrderedMap<NodeId, NodeSection<N>>,
}

/// The view of a fabric with its nodes.
pub struct EntryView<F, N> {
    pub fabric: FabricSectionView<F>,
    pub nodes: Seq<(Seq<char>, NodeSectionView<N>)>,
}

impl<F: View, N: View> View for Entry<F, N> {
    type V = EntryView<F::V, N::V>;

    closed spec fn view(&self) -> EntryView<F::V, N::V> {
        EntryView { fabric: self.fabric@, nodes: self.nodes@ }
    }
}

impl<F: Replicate, N: Replicate> Replicate for Entry<F, N> {
    fn replicate(&self) -> (r: Self) {
        Entry { fabric: self.fabric.replicate(), nodes: self.nodes.clone() }
    }
}

/// What adding a node to a fabric gives: the fabric with the node, or the
/// reason why the node cannot be added. A node of the same name is looked
/// for first, then the fabric that the node names.
pub open spec fn add_node_spec<F, N>(e: EntryView<F, N>, node: NodeSectionView<N>) -> Result<
    EntryView<F, N>,
    FabricConfigErrorView,
> {
    if has_key(e.nodes, node.id.node_id) {
        Err(FabricConfigErrorView::DuplicateNode(node.id.node_id, e.fabric.id))
    } else if node.id.fabric_id != e.fabric.id {
        Err(FabricConfigErrorView::FabricIdMismatch)
    } else {
        Ok(EntryView { fabric: e.fabric, nodes: put::<NodeId, _>(e.nodes, node.id.node_id, node) })
    }
}

/// The node of the given name, or the error that there is none.
pub open spec fn get_node_spec<F, N>(e: EntryView<F, N>, id: Seq<char>) -> Result<
    NodeSectionView<N>,
    FabricConfigErrorView,
> {
    match lookup(e.nodes, id) {
        Some(n) => Ok(n),
        None => Err(FabricConfigErrorView::NodeDoesNotExist(id, e.fabric.id)),
    }
}

impl<F: View, N: View> Entry<F, N> {
    /// The fabric without nodes.
    pub fn new(fabric: FabricSection<F>) -> (r: Entry<F, N>)
        ensures
            r@ == (EntryView::<F::V, N::V> { fabric: fabric@, nodes: Seq::empty() }),
    {
        Entry { fabric, nodes: OrderedMap::new() }
    }

    /// The fabric.
    pub fn fabric_section(&self) -> (r: &FabricSection<F>)
        ensures
            r@ == self@.fabric,
    {
        &self.fabric
    }

    /// The number of nodes.
    pub fn node_count(&self) -> (n: usize)
        ensures
            n == self@.nodes.len(),
    {
        self.nodes.len()
    }

    /// The node at place `i` in the order of the names.
    pub fn node_at(&self, i: usize) -> (r: &NodeSection<N>)
        requires
            i < self@.nodes.len(),
        ensures
            r@ == self@.nodes[i as int].1,
    {
        self.nodes.value_at(i)
    }

    /// The name under which the node at place `i` is held.
    pub fn node_key_at(&self, i: usize) -> (r: &NodeId)
        requires
            i < self@.nodes.len(),
        ensures
            r@ == self@.nodes[i as int].0,
    {
        self.nodes.key_at(i)
    }

    /// Adds a node to the fabric.
    pub fn add_node(&mut self, node: NodeSection<N>) -> (r: Result<(), FabricConfigError>)
        ensures
            match add_node_spec(old(self)@, node@) {
                Ok(after) => r is Ok && final(self)@ == after,
                Err(e) => r is Err && r->Err_0@ == e && final(self)@ == old(self)@,
            },
    {
        if self.nodes.find(&node.id.node_id).is_some() {
            return Err(
                FabricConfigError::DuplicateNode(
                    node.id.node_id.to_text(),
                    self.fabric.id.to_text(),
                ),
            );
        }
        if !crate::text::text_same(node.id.fabric_id.as_str(), self.fabric.id.as_str()) {
            return Err(FabricConfigError::FabricIdMismatch);
        }
        let key = node.id.node_id.clone();
        self.nodes.insert(key, node);
        Ok(())
    }

    /// The node of the given name.
    pub fn node_section(&self, id: &NodeId) -> (r: Result<&NodeSection<N>, FabricConfigError>)
        ensures
            match get_node_spec(self@, id@) {
                Ok(n) => r is Ok && r->Ok_0@ == n,
                Err(e) => r is Err && r->Err_0@ == e,
            },
    {
        match self.nodes.get(id) {
            Some(n) => Ok(n),
            None => Err(FabricConfigError::NodeDoesNotExist(id.to_text(), self.fabric.id.to_text())),
        }
    }

    /// The node of the given name, to be changed in place: the fabric
    /// holds afterwards, under that name, the node as it was left.
    pub fn get_node_mut(&mut self, id: &NodeId) -> (r: Result<
        &mut NodeSection<N>,
        FabricConfigError,
    >)
        ensures
            match position(old(self)@.nodes, id@) {
                Some(i) => r is Ok && r->Ok_0@ == old(self)@.nodes[i].1 && final(self)@ == (
                EntryView {
                    fabric: old(self)@.fabric,
                    nodes: old(self)@.nodes.update(
                        i,
                        (old(self)@.nodes[i].0, final(r->Ok_0)@),
                    ),
                }),
                None => r is Err && r->Err_0@ == FabricConfigErrorView::NodeDoesNotExist(
                    id@,
                    old(self)@.fabric.id,
                ) && final(self)@ == old(self)@,
            },
    {
        match self.nodes.find(id) {
            Some(i) => Ok(self.nodes.value_at_mut(i)),
            None => Err(FabricConfigError::NodeDoesNotExist(id.to_text(), self.fabric.id.to_text())),
        }
    }

    /// The fabric, to be changed in place.
    pub fn fabric_section_mut(&mut self) -> (r: &mut FabricSection<F>)
        ensures
            r@ == old(self)@.fabric,
            final(self)@ == (EntryView { fabric: final(r)@, nodes: old(self)@.nodes }),
    {
        &mut self.fabric
    }

    /// Takes the node of the given name out of the fabric.
    pub fn delete_node(&mut self, id: &NodeId) -> (r: Result<NodeSection<N>, FabricConfigError>)
        ensures
            match position(old(self)@.nodes, id@) {
                Some(i) => r is Ok && r->Ok_0@ == old(self)@.nodes[i].1 && final(self)@ == (
                EntryView { fabric: old(self)@.fabric, nodes: old(self)@.nodes.remove(i) }),
                None => r is Err && r->Err_0@ == FabricConfigErrorView::NodeDoesNotExist(
                    id@,
                    old(self)@.fabric.id,
                ) && final(self)@ == old(self)@,
            },
    {
        match self.nodes.find(id) {
            Some(i) => {
                let (_, node) = self.nodes.remove_at(i);
                Ok(node)
            },
            None => Err(FabricConfigError::NodeDoesNotExist(id.to_text(), self.fabric.id.to_text())),
        }
    }

    /// The fabric and its nodes, the nodes in the order of their names.
    pub fn into_pair(self) -> (r: (FabricSection<F>, Vec<NodeSection<N>>))
        ensures
            r.0@ == self@.fabric,
            r.1@.len() == self@.nodes.len(),
            forall|i: int| 0 <= i < r.1@.len() ==> (#[trigger] r.1@[i])@ == self@.nodes[i].1,
    {
        let Entry { fabric, nodes } = self;
        let mut nodes = nodes;
        let ghost all = nodes@;
        let mut out: Vec<NodeSection<N>> = Vec::new();
        while nodes.len() > 0
            invariant
                out@.len() + nodes@.len() == all.len(),
                forall|i: int| 0 <= i < out@.len() ==> (#[trigger] out@[i])@ == all[i].1,
                forall|i: int|
                    0 <= i < nodes@.len() ==> #[trigger] nodes@[i] == all[out@.len() + i],
            decreases nodes@.len(),
        {
            let (_, node) = nodes.remove_at(0);
            out.push(node);
        }
        (fabric, out)
    }
}

/// A fabric of one of the protocols together with its nodes.
#[derive(Debug, PartialEq, Eq)]
pub enum FabricEntry {
    Openfabric(Entry<OpenfabricProperties, OpenfabricNodeProperties>),
    Ospf(Entry<OspfProperties, OspfNodeProperties>),
}

/// The view of a fabric of one of the protocols with its nodes.
pub enum FabricEntryView {
    Openfabric(EntryView<OpenfabricProperties, Seq<OpenfabricInterfaceView>>),
    Ospf(EntryView<OspfProperties, Seq<OspfInterfaceView>>),
}

impl View for FabricEntry {
    type V = FabricEntryView;

    open spec fn view(&self) -> FabricEntryView {
        match self {
            FabricEntry::Openfabric(e) => FabricEntryView::Openfabric(e@),
            FabricEntry::Ospf(e) => FabricEntryView::Ospf(e@),
        }
    }
}

impl Replicate for FabricEntry {
    fn replicate(&self) -> (r: Self) {
        match self {
            FabricEntry::Openfabric(e) => FabricEntry::Openfabric(e.replicate()),
            FabricEntry::Ospf(e) => FabricEntry::Ospf(e.replicate()),
        }
    }
}

impl Clone for FabricEntry {
    fn clone(&self) -> (r: Self)
        ensures
            r@ == self@,
    {
        self.replicate()
    }
}

impl FabricEntryView {
    /// The fabric.
    pub open spec fn fabric(self) -> FabricView {
        match self {
            FabricEntryView::Openfabric(e) => FabricView::Openfabric(e.fabric),
            FabricEntryView::Ospf(e) => FabricView::Ospf(e.fabric),
        }
    }

    /// The number of nodes.
    pub open spec fn node_count(self) -> nat {
        match self {
            FabricEntryView::Openfabric(e) => e.nodes.len(),
            FabricEntryView::Ospf(e) => e.nodes.len(),
        }
    }

    /// The name under which the node at place `i` is held.
    pub open spec fn node_key(self, i: int) -> Seq<char> {
        match self {
            FabricEntryView::Openfabric(e) => e.nodes[i].0,
            FabricEntryView::Ospf(e) => e.nodes[i].0,
        }
    }

    /// The node at place `i`.
    pub open spec fn node(self, i: int) -> NodeView {
        match self {
            FabricEntryView::Openfabric(e) => NodeView::Openfabric(e.nodes[i].1),
            FabricEntryView::Ospf(e) => NodeView::Ospf(e.nodes[i].1),
        }
    }

    /// The place of the node of the given name, if there is one.
    pub open spec fn node_position(self, id: Seq<char>) -> Option<int> {
        match self {
            FabricEntryView::Openfabric(e) => position(e.nodes, id),
            FabricEntryView::Ospf(e) => position(e.nodes, id),
        }
    }

    /// The area of the fabric, where it is an OSPF fabric.
    pub open spec fn area(self) -> Option<Area> {
        match self {
            FabricEntryView::Openfabric(_) => None,
            FabricEntryView::Ospf(e) => Some(e.fabric.properties.area),
        }
    }

    /// The fabric without nodes.
    pub open spec fn of_fabric(f: FabricView) -> FabricEntryView {
        match f {
            FabricView::Openfabric(f) => FabricEntryView::Openfabric(
                EntryView { fabric: f, nodes: Seq::empty() },
            ),
            FabricView::Ospf(f) => FabricEntryView::Ospf(
                EntryView { fabric: f, nodes: Seq::empty() },
            ),
        }
    }

    /// What adding a node gives: a node of another protocol is refused
    /// before anything else is looked at.
    pub open spec fn add_node(self, node: NodeView) -> Result<
        FabricEntryView,
        FabricConfigErrorView,
    > {
        match (self, node) {
            (FabricEntryView::Openfabric(e), NodeView::Openfabric(n)) => match add_node_spec(e, n) {
                Ok(after) => Ok(FabricEntryView::Openfabric(after)),
                Err(err) => Err(err),
            },
            (FabricEntryView::Ospf(e), NodeView::Ospf(n)) => match add_node_spec(e, n) {
                Ok(after) => Ok(FabricEntryView::Ospf(after)),
                Err(err) => Err(err),
            },
            _ => Err(FabricConfigErrorView::ProtocolMismatch),
        }
    }

    /// The same entry without the node at place `i`.
    pub open spec fn without_node(self, i: int) -> FabricEntryView {
        match self {
            FabricEntryView::Openfabric(e) => FabricEntryView::Openfabric(
                EntryView { fabric: e.fabric, nodes: e.nodes.remove(i) },
            ),
            FabricEntryView::Ospf(e) => FabricEntryView::Ospf(
                EntryView { fabric: e.fabric, nodes: e.nodes.remove(i) },
            ),
        }
    }
}

impl FabricEntry {
    /// The entry of a fabric, without nodes.
    pub fn from_fabric(fabric: Fabric) -> (r: FabricEntry)
        ensures
            r@ == FabricEntryView::of_fabric(fabric@),
    {
        match fabric {
            Fabric::Openfabric(f) => FabricEntry::Openfabric(Entry::new(f)),
            Fabric::Ospf(f) => FabricEntry::Ospf(Entry::new(f)),
        }
    }

    /// Adds a node to the fabric. The node has to be of the protocol of the
    /// fabric.
    pub fn add_node(&mut self, node: Node) -> (r: Result<(), FabricConfigError>)
        ensures
            match old(self)@.add_node(node@) {
                Ok(after) => r is Ok && final(self)@ == after,
                Err(e) => r is Err && r->Err_0@ == e && final(self)@ == old(self)@,
            },
    {
        match (self, node) {
            (FabricEntry::Openfabric(entry), Node::Openfabric(n)) => entry.add_node(n),
            (FabricEntry::Ospf(entry), Node::Ospf(n)) => entry.add_node(n),
            _ => Err(FabricConfigError::ProtocolMismatch),
        }
    }

    /// The name of the fabric.
    pub fn id(&self) -> (r: &FabricId)
        ensures
            r@ == self@.fabric().id(),
    {
        match self {
            FabricEntry::Openfabric(e) => e.fabric_section().id(),
            FabricEntry::Ospf(e) => e.fabric_section().id(),
        }
    }

    /// The prefix of version 4 of the fabric.
    pub fn ip_prefix(&self) -> (r: Option<Ipv4Cidr>)
        ensures
            r == self@.fabric().ip_prefix(),
    {
        match self {
            FabricEntry::Openfabric(e) => e.fabric_section().ip_prefix(),
            FabricEntry::Ospf(e) => e.fabric_section().ip_prefix(),
        }
    }

    /// The prefix of version 6 of the fabric.
    pub fn ip6_prefix(&self) -> (r: Option<Ipv6Cidr>)
        ensures
            r == self@.fabric().ip6_prefix(),
    {
        match self {
            FabricEntry::Openfabric(e) => e.fabric_section().ip6_prefix(),
            FabricEntry::Ospf(e) => e.fabric_section().ip6_prefix(),
        }
    }

    /// The number of nodes of the fabric.
    pub fn node_count(&self) -> (n: usize)
        ensures
            n == self@.node_count(),
    {
        match self {
            FabricEntry::Openfabric(e) => e.node_count(),
            FabricEntry::Ospf(e) => e.node_count(),
        }
    }

    /// The fabric.
    pub fn fabric(&self) -> (r: Fabric)
        ensures
            r@ == self@.fabric(),
    {
        match self {
            FabricEntry::Openfabric(entry) => Fabric::Openfabric(entry.fabric_section().replicate()),
            FabricEntry::Ospf(entry) => Fabric::Ospf(entry.fabric_section().replicate()),
        }
    }

    /// The node at place `i` in the order of the names.
    pub fn node_at(&self, i: usize) -> (r: Node)
        requires
            i < self@.node_count(),
        ensures
            r@ == self@.node(i as int),
    {
        match self {
            FabricEntry::Openfabric(entry) => Node::Openfabric(entry.node_at(i).replicate()),
            FabricEntry::Ospf(entry) => Node::Ospf(entry.node_at(i).replicate()),
        }
    }

    /// The node of the given name.
    pub fn get_node(&self, id: &NodeId) -> (r: Result<Node, FabricConfigError>)
        ensures
            match self@.node_position(id@) {
                Some(i) => r is Ok && r->Ok_0@ == self@.node(i),
                None => r is Err && r->Err_0@ == FabricConfigErrorView::NodeDoesNotExist(
                    id@,
                    self@.fabric().id(),
                ),
            },
    {
        match self {
            FabricEntry::Openfabric(entry) => match entry.node_section(id) {
                Ok(n) => Ok(Node::Openfabric(n.replicate())),
                Err(e) => Err(e),
            },
            FabricEntry::Ospf(entry) => match entry.node_section(id) {
                Ok(n) => Ok(Node::Ospf(n.replicate())),
                Err(e) => Err(e),
            },
        }
    }

    /// Takes the node of the given name out of the fabric.
    pub fn delete_node(&mut self, id: &NodeId) -> (r: Result<Node, FabricConfigError>)
        ensures
            match old(self)@.node_position(id@) {
                Some(i) => r is Ok && r->Ok_0@ == old(self)@.node(i) && final(self)@ == old(
                    self,
                )@.without_node(i),
                None => r is Err && r->Err_0@ == FabricConfigErrorView::NodeDoesNotExist(
                    id@,
                    old(self)@.fabric().id(),
                ) && final(self)@ == old(self)@,
            },
    {
        match self {
            FabricEntry::Openfabric(entry) => match entry.delete_node(id) {
                Ok(n) => Ok(Node::Openfabric(n)),
                Err(e) => Err(e),
            },
            FabricEntry::Ospf(entry) => match entry.delete_node(id) {
                Ok(n) => Ok(Node::Ospf(n)),
                Err(e) => Err(e),
            },
        }
    }

    /// The fabric and its nodes, as they are written to the configuration:
    /// the nodes in the order of their names.
    pub fn into_section_config(self) -> (r: (Fabric, Vec<Node>))
        ensures
            r.0@ == self@.fabric(),
            r.1@.len() == self@.node_count(),
            forall|i: int| 0 <= i < r.1@.len() ==> (#[trigger] r.1@[i])@ == self@.node(i),
    {
        match self {
            FabricEntry::Openfabric(entry) => {
                let ghost view = entry@;
                let (fabric, nodes) = entry.into_pair();
                let mut nodes = nodes;
                let ghost given = nodes@;
                let mut out: Vec<Node> = Vec::new();
                while nodes.len() > 0
                    invariant
                        out@.len() + nodes@.len() == given.len(),
                        forall|i: int|
                            0 <= i < out@.len() ==> (#[trigger] out@[i])@ == NodeView::Openfabric(
                                given[i]@,
                            ),
                        forall|i: int|
                            0 <= i < nodes@.len() ==> #[trigger] nodes@[i] == given[out@.len() + i],
                    decreases nodes@.len(),
                {
                    let n = nodes.remove(0);
                    out.push(Node::Openfabric(n));
                }
                (Fabric::Openfabric(fabric), out)
            },
            FabricEntry::Ospf(entry) => {
                let ghost view = entry@;
                let (fabric, nodes) = entry.into_pair();
                let mut nodes = nodes;
                let ghost given = nodes@;
                let mut out: Vec<Node> = Vec::new();
                while nodes.len() > 0
                    invariant
                        out@.len() + nodes@.len() == given.len(),
                        forall|i: int|
                            0 <= i < out@.len() ==> (#[trigger] out@[i])@ == NodeView::Ospf(
                                given[i]@,
                            ),
                        forall|i: int|
                            0 <= i < nodes@.len() ==> #[trigger] nodes@[i] == given[out@.len() + i],
                    decreases nodes@.len(),
                {
                    let n = nodes.remove(0);
                    out.push(Node::Ospf(n));
                }
                (Fabric::Ospf(fabric), out)
            },
        }
    }
}

/// A value after a change: taken away where the change deletes it, else the
/// new value where the change gives one, else the value as it was.
pub open spec fn changed<T>(before: Option<T>, given: Option<T>, deleted: bool) -> Option<T> {
    if deleted {
        None
    } else if given is Some {
        given
    } else {
        before
    }
}

/// The interfaces of a node after a change: none where the change deletes
/// them, else the new ones where the change gives some, else as they were.
pub open spec fn changed_interfaces<P>(before: Seq<P>, given: Option<Seq<P>>, deleted: bool) -> Seq<
    P,
> {
    if deleted {
        Seq::empty()
    } else if given is Some {
        given->Some_0
    } else {
        before
    }
}

/// The views of the interfaces that a change gives, if it gives any.
pub open spec fn given_views<T: View>(given: Option<Vec<T>>) -> Option<Seq<T::V>> {
    match given {
        Some(v) => Some(views(v@)),
        None => None,
    }
}

/// An OpenFabric node after a change.
pub open spec fn updated_openfabric_node(
    n: NodeSectionView<Seq<OpenfabricInterfaceView>>,
    u: NodeDataUpdater<OpenfabricNodePropertiesUpdater, OpenfabricNodeDeletableProperties>,
) -> NodeSectionView<Seq<OpenfabricInterfaceView>> {
    NodeSectionView {
        id: n.id,
        ip: changed(n.ip, u.ip, u.delete@.contains(NodeDeletableProperties::Ip)),
        ip6: changed(n.ip6, u.ip6, u.delete@.contains(NodeDeletableProperties::Ip6)),
        properties: changed_interfaces(
            n.properties,
            given_views(u.properties.interfaces),
            u.delete@.contains(
                NodeDeletableProperties::Protocol(OpenfabricNodeDeletableProperties::Interfaces),
            ),
        ),
    }
}

/// An OSPF node after a change.
pub open spec fn updated_ospf_node(
    n: NodeSectionView<Seq<OspfInterfaceView>>,
    u: NodeDataUpdater<OspfNodePropertiesUpdater, OspfNodeDeletableProperties>,
) -> NodeSectionView<Seq<OspfInterfaceView>> {
    NodeSectionView {
        id: n.id,
        ip: changed(n.ip, u.ip, u.delete@.contains(NodeDeletableProperties::Ip)),
        ip6: changed(n.ip6, u.ip6, u.delete@.contains(NodeDeletableProperties::Ip6)),
        properties: changed_interfaces(
            n.properties,
            given_views(u.properties.interfaces),
            u.delete@.contains(
                NodeDeletableProperties::Protocol(OspfNodeDeletableProperties::Interfaces),
            ),
        ),
    }
}

/// An OpenFabric fabric after a change.
pub open spec fn updated_openfabric_fabric(
    f: FabricSectionView<OpenfabricProperties>,
    u: FabricSectionUpdater<OpenfabricPropertiesUpdater, OpenfabricDeletableProperties>,
) -> FabricSectionView<OpenfabricProperties> {
    FabricSectionView {
        id: f.id,
        ip_prefix: changed(
            f.ip_prefix,
            u.ip_prefix,
            u.delete@.contains(FabricDeletableProperties::IpPrefix),
        ),
        ip6_prefix: changed(
            f.ip6_prefix,
            u.ip6_prefix,
            u.delete@.contains(FabricDeletableProperties::Ip6Prefix),
        ),
        properties: OpenfabricProperties {
            hello_interval: changed(
                f.properties.hello_interval,
                u.properties.hello_interval,
                u.delete@.contains(
                    FabricDeletableProperties::Protocol(
                        OpenfabricDeletableProperties::HelloInterval,
                    ),
                ),
            ),
            csnp_interval: changed(
                f.properties.csnp_interval,
                u.properties.csnp_interval,
                u.delete@.contains(
                    FabricDeletableProperties::Protocol(
                        OpenfabricDeletableProperties::CsnpInterval,
                    ),
                ),
            ),
        },
    }
}

/// An OSPF fabric after a change.
pub open spec fn updated_ospf_fabric(
    f: FabricSectionView<OspfProperties>,
    u: FabricSectionUpdater<OspfPropertiesUpdater, OspfDeletableProperties>,
) -> FabricSectionView<OspfProperties> {
    FabricSectionView {
        id: f.id,
        ip_prefix: changed(
            f.ip_prefix,
            u.ip_prefix,
            u.delete@.contains(FabricDeletableProperties::IpPrefix),
        ),
        ip6_prefix: changed(
            f.ip6_prefix,
            u.ip6_prefix,
            u.delete@.contains(FabricDeletableProperties::Ip6Prefix),
        ),
        properties: OspfProperties {
            area: match u.properties.area {
                Some(a) => a,
                None => f.properties.area,
            },
        },
    }
}

/// Applies a change to an OpenFabric node.
pub fn update_openfabric_node(
    node: &mut NodeSection<OpenfabricNodeProperties>,
    updater: NodeDataUpdater<OpenfabricNodePropertiesUpdater, OpenfabricNodeDeletableProperties>,
)
    ensures
        final(node)@ == updated_openfabric_node(old(node)@, updater),
{
    let NodeDataUpdater { ip, ip6, properties, delete } = updater;
    let OpenfabricNodePropertiesUpdater { interfaces } = properties;
    let ghost base = old(node)@;
    let ghost given = given_views(interfaces);
    if let Some(a) = ip {
        node.ip = Some(a);
    }
    if let Some(a) = ip6 {
        node.ip6 = Some(a);
    }
    if let Some(list) = interfaces {
        node.properties.interfaces = list;
    }
    let mut k: usize = 0;
    assert(delete@.subrange(0, 0) =~= Seq::empty());
    while k < delete.len()
        invariant
            k <= delete.len(),
            node@.id == base.id,
            node@.ip == changed(
                base.ip,
                ip,
                delete@.subrange(0, k as int).contains(NodeDeletableProperties::Ip),
            ),
            node@.ip6 == changed(
                base.ip6,
                ip6,
                delete@.subrange(0, k as int).contains(NodeDeletableProperties::Ip6),
            ),
            node@.properties == changed_interfaces(
                base.properties,
                given,
                delete@.subrange(0, k as int).contains(
                    NodeDeletableProperties::Protocol(OpenfabricNodeDeletableProperties::Interfaces),
                ),
            ),
        decreases delete.len() - k,
    {
        proof {
            let a = delete@.subrange(0, k as int);
            let b = delete@.subrange(0, k + 1);
            assert(b =~= a.push(delete@[k as int]));
            assert forall|x: NodeDeletableProperties<OpenfabricNodeDeletableProperties>|
                b.contains(x) <==> (a.contains(x) || x == delete@[k as int]) by {
                if a.contains(x) {
                    let j = choose|j: int| 0 <= j < a.len() && a[j] == x;
                    assert(b[j] == x);
                }
                if x == delete@[k as int] {
                    assert(b[k as int] == x);
                }
            }
        }
        match delete[k] {
            NodeDeletableProperties::Ip => {
                node.ip = None;
            },
            NodeDeletableProperties::Ip6 => {
                node.ip6 = None;
            },
            NodeDeletableProperties::Protocol(OpenfabricNodeDeletableProperties::Interfaces) => {
                node.properties.interfaces = Vec::new();
                assert(node@.properties =~= Seq::empty());
                assert(delete@[k as int] =~= NodeDeletableProperties::Protocol(
                    OpenfabricNodeDeletableProperties::Interfaces,
                ));
            },
        }
        k = k + 1;
    }
    assert(delete@.subrange(0, k as int) =~= delete@);
}

/// Applies a change to an OSPF node.
pub fn update_ospf_node(
    node: &mut NodeSection<OspfNodeProperties>,
    updater: NodeDataUpdater<OspfNodePropertiesUpdater, OspfNodeDeletableProperties>,
)
    ensures
        final(node)@ == updated_ospf_node(old(node)@, updater),
{
    let NodeDataUpdater { ip, ip6, properties, delete } = updater;
    let OspfNodePropertiesUpdater { interfaces } = properties;
    let ghost base = old(node)@;
    let ghost given = given_views(interfaces);
    if let Some(a) = ip {
        node.ip = Some(a);
    }
    if let Some(a) = ip6 {
        node.ip6 = Some(a);
    }
    if let Some(list) = interfaces {
        node.properties.interfaces = list;
    }
    let mut k: usize = 0;
    assert(delete@.subrange(0, 0) =~= Seq::empty());
    while k < delete.len()
        invariant
            k <= delete.len(),
            node@.id == base.id,
            node@.ip == changed(
                base.ip,
                ip,
                delete@.subrange(0, k as int).contains(NodeDeletableProperties::Ip),
            ),
            node@.ip6 == changed(
                base.ip6,
                ip6,
                delete@.subrange(0, k as int).contains(NodeDeletableProperties::Ip6),
            ),
            node@.properties == changed_interfaces(
                base.properties,
                given,
                delete@.subrange(0, k as int).contains(
                    NodeDeletableProperties::Protocol(OspfNodeDeletableProperties::Interfaces),
                ),
            ),
        decreases delete.len() - k,
    {
        proof {
            let a = delete@.subrange(0, k as int);
            let b = delete@.subrange(0, k + 1);
            assert(b =~= a.push(delete@[k as int]));
            assert forall|x: NodeDeletableProperties<OspfNodeDeletableProperties>|
                b.contains(x) <==> (a.contains(x) || x == delete@[k as int]) by {
                if a.contains(x) {
                    let j = choose|j: int| 0 <= j < a.len() && a[j] == x;
                    assert(b[j] == x);
                }
                if x == delete@[k as int] {
                    assert(b[k as int] == x);
                }
            }
        }
        match delete[k] {
            NodeDeletableProperties::Ip => {
                node.ip = None;
            },
            NodeDeletableProperties::Ip6 => {
                node.ip6 = None;
            },
            NodeDeletableProperties::Protocol(OspfNodeDeletableProperties::Interfaces) => {
                node.properties.interfaces = Vec::new();
                assert(node@.properties =~= Seq::empty());
                assert(delete@[k as int] =~= NodeDeletableProperties::Protocol(
                    OspfNodeDeletableProperties::Interfaces,
                ));
            },
        }
        k = k + 1;
    }
    assert(delete@.subrange(0, k as int) =~= delete@);
}

/// Applies a change to an OpenFabric fabric.
pub fn update_openfabric_fabric(
    fabric: &mut FabricSection<OpenfabricProperties>,
    updater: FabricSectionUpdater<OpenfabricPropertiesUpdater, OpenfabricDeletableProperties>,
)
    ensures
        final(fabric)@ == updated_openfabric_fabric(old(fabric)@, updater),
{
    let ghost base = old(fabric)@;
    if let Some(p) = updater.ip_prefix {
        fabric.ip_prefix = Some(p);
    }
    if let Some(p) = updater.ip6_prefix {
        fabric.ip6_prefix = Some(p);
    }
    if let Some(h) = updater.properties.hello_interval {
        fabric.properties.hello_interval = Some(h);
    }
    if let Some(c) = updater.properties.csnp_interval {
        fabric.properties.csnp_interval = Some(c);
    }
    let mut k: usize = 0;
    assert(updater.delete@.subrange(0, 0) =~= Seq::empty());
    while k < updater.delete.len()
        invariant
            k <= updater.delete.len(),
            fabric@.id == base.id,
            fabric@.ip_prefix == changed(
                base.ip_prefix,
                updater.ip_prefix,
                updater.delete@.subrange(0, k as int).contains(FabricDeletableProperties::IpPrefix),
            ),
            fabric@.ip6_prefix == changed(
                base.ip6_prefix,
                updater.ip6_prefix,
                updater.delete@.subrange(0, k as int).contains(FabricDeletableProperties::Ip6Prefix),
            ),
            fabric@.properties.hello_interval == changed(
                base.properties.hello_interval,
                updater.properties.hello_interval,
                updater.delete@.subrange(0, k as int).contains(
                    FabricDeletableProperties::Protocol(
                        OpenfabricDeletableProperties::HelloInterval,
                    ),
                ),
            ),
            fabric@.properties.csnp_interval == changed(
                base.properties.csnp_interval,
                updater.properties.csnp_interval,
                updater.delete@.subrange(0, k as int).contains(
                    FabricDeletableProperties::Protocol(OpenfabricDeletableProperties::CsnpInterval),
                ),
            ),
        decreases updater.delete.len() - k,
    {
        proof {
            let a = updater.delete@.subrange(0, k as int);
            let b = updater.delete@.subrange(0, k + 1);
            assert(b =~= a.push(updater.delete@[k as int]));
            assert forall|x: FabricDeletableProperties<OpenfabricDeletableProperties>|
                b.contains(x) <==> (a.contains(x) || x == updater.delete@[k as int]) by {
                if a.contains(x) {
                    let j = choose|j: int| 0 <= j < a.len() && a[j] == x;
                    assert(b[j] == x);
                }
                if x == updater.delete@[k as int] {
                    assert(b[k as int] == x);
                }
            }
        }
        match updater.delete[k] {
            FabricDeletableProperties::IpPrefix => {
                fabric.ip_prefix = None;
            },
            FabricDeletableProperties::Ip6Prefix => {
                fabric.ip6_prefix = None;
            },
            FabricDeletableProperties::Protocol(OpenfabricDeletableProperties::CsnpInterval) => {
                fabric.properties.csnp_interval = None;
            },
            FabricDeletableProperties::Protocol(OpenfabricDeletableProperties::HelloInterval) => {
                fabric.properties.hello_interval = None;
            },
        }
        k = k + 1;
    }
    assert(updater.delete@.subrange(0, k as int) =~= updater.delete@);
}

/// Applies a change to an OSPF fabric.
pub fn update_ospf_fabric(
    fabric: &mut FabricSection<OspfProperties>,
    updater: FabricSectionUpdater<OspfPropertiesUpdater, OspfDeletableProperties>,
)
    ensures
        final(fabric)@ == updated_ospf_fabric(old(fabric)@, updater),
{
    let ghost base = old(fabric)@;
    if let Some(p) = updater.ip_prefix {
        fabric.ip_prefix = Some(p);
    }
    if let Some(p) = updater.ip6_prefix {
        fabric.ip6_prefix = Some(p);
    }
    if let Some(a) = updater.properties.area {
        fabric.properties.area = a;
    }
    let mut k: usize = 0;
    assert(updater.delete@.subrange(0, 0) =~= Seq::empty());
    while k < updater.delete.len()
        invariant
            k <= updater.delete.len(),
            fabric@.id == base.id,
            fabric@.properties == updated_ospf_fabric(base, updater).properties,
            fabric@.ip_prefix == changed(
                base.ip_prefix,
                updater.ip_prefix,
                updater.delete@.subrange(0, k as int).contains(FabricDeletableProperties::IpPrefix),
            ),
            fabric@.ip6_prefix == changed(
                base.ip6_prefix,
                updater.ip6_prefix,
                updater.delete@.subrange(0, k as int).contains(FabricDeletableProperties::Ip6Prefix),
            ),
        decreases updater.delete.len() - k,
    {
        proof {
            let a = updater.delete@.subrange(0, k as int);
            let b = updater.delete@.subrange(0, k + 1);
            assert(b =~= a.push(updater.delete@[k as int]));
            assert forall|x: FabricDeletableProperties<OspfDeletableProperties>|
                b.contains(x) <==> (a.contains(x) || x == updater.delete@[k as int]) by {
                if a.contains(x) {
                    let j = choose|j: int| 0 <= j < a.len() && a[j] == x;
                    assert(b[j] == x);
                }
                if x == updater.delete@[k as int] {
                    assert(b[k as int] == x);
                }
            }
        }
        match updater.delete[k] {
            FabricDeletableProperties::IpPrefix => {
                fabric.ip_prefix = None;
            },
            FabricDeletableProperties::Ip6Prefix => {
                fabric.ip6_prefix = None;
            },
            FabricDeletableProperties::Protocol(OspfDeletableProperties::Nothing) => {},
        }
        k = k + 1;
    }
    assert(updater.delete@.subrange(0, k as int) =~= updater.delete@);
}

impl FabricEntryView {
    /// What changing the node of the given name gives: the node is looked
    /// for first, then the protocol of the change.
    pub open spec fn update_node(self, id: Seq<char>, u: NodeUpdater) -> Result<
        FabricEntryView,
        FabricConfigErrorView,
    > {
        match self.node_position(id) {
            None => Err(FabricConfigErrorView::NodeDoesNotExist(id, self.fabric().id())),
            Some(i) => match (self, u) {
                (FabricEntryView::Openfabric(e), NodeUpdater::Openfabric(u)) => Ok(
                    FabricEntryView::Openfabric(
                        EntryView {
                            fabric: e.fabric,
                            nodes: e.nodes.update(
                                i,
                                (e.nodes[i].0, updated_openfabric_node(e.nodes[i].1, u)),
                            ),
                        },
                    ),
                ),
                (FabricEntryView::Ospf(e), NodeUpdater::Ospf(u)) => Ok(
                    FabricEntryView::Ospf(
                        EntryView {
                            fabric: e.fabric,
                            nodes: e.nodes.update(
                                i,
                                (e.nodes[i].0, updated_ospf_node(e.nodes[i].1, u)),
                            ),
                        },
                    ),
                ),
                _ => Err(FabricConfigErrorView::ProtocolMismatch),
            },
        }
    }

    /// What changing the fabric gives: a change of another protocol is
    /// refused.
    pub open spec fn update_fabric(self, u: FabricUpdater) -> Result<
        FabricEntryView,
        FabricConfigErrorView,
    > {
        match (self, u) {
            (FabricEntryView::Openfabric(e), FabricUpdater::Openfabric(u)) => Ok(
                FabricEntryView::Openfabric(
                    EntryView { fabric: updated_openfabric_fabric(e.fabric, u), nodes: e.nodes },
                ),
            ),
            (FabricEntryView::Ospf(e), FabricUpdater::Ospf(u)) => Ok(
                FabricEntryView::Ospf(
                    EntryView { fabric: updated_ospf_fabric(e.fabric, u), nodes: e.nodes },
                ),
            ),
            _ => Err(FabricConfigErrorView::ProtocolMismatch),
        }
    }
}

impl FabricEntry {
    /// Changes the node of the given name.
    pub fn update_node(&mut self, id: &NodeId, updater: NodeUpdater) -> (r: Result<
        (),
        FabricConfigError,
    >)
        ensures
            match old(self)@.update_node(id@, updater) {
                Ok(after) => r is Ok && final(self)@ == after,
                Err(e) => r is Err && r->Err_0@ == e && final(self)@ == old(self)@,
            },
    {
        match self {
            FabricEntry::Openfabric(entry) => {
                let n: usize = entry.nodes.len();
                match entry.nodes.find(id) {
                    None => Err(
                        FabricConfigError::NodeDoesNotExist(id.to_text(), entry.fabric.id.to_text()),
                    ),
                    Some(i) => match updater {
                        NodeUpdater::Openfabric(u) => {
                            proof {
                                lemma_fits_back::<NodeId, _>(entry.nodes@, i as int);
                            }
                            let (key, node) = entry.nodes.remove_at(i);
                            let mut node = node;
                            update_openfabric_node(&mut node, u);
                            entry.nodes.insert_at(i, key, node);
                            Ok(())
                        },
                        NodeUpdater::Ospf(_) => Err(FabricConfigError::ProtocolMismatch),
                    },
                }
            },
            FabricEntry::Ospf(entry) => {
                let n: usize = entry.nodes.len();
                match entry.nodes.find(id) {
                    None => Err(
                        FabricConfigError::NodeDoesNotExist(id.to_text(), entry.fabric.id.to_text()),
                    ),
                    Some(i) => match updater {
                        NodeUpdater::Ospf(u) => {
                            proof {
                                lemma_fits_back::<NodeId, _>(entry.nodes@, i as int);
                            }
                            let (key, node) = entry.nodes.remove_at(i);
                            let mut node = node;
                            update_ospf_node(&mut node, u);
                            entry.nodes.insert_at(i, key, node);
                            Ok(())
                        },
                        NodeUpdater::Openfabric(_) => Err(FabricConfigError::ProtocolMismatch),
                    },
                }
            },
        }
    }

    /// Changes the fabric.
    pub fn update_fabric(&mut self, updater: FabricUpdater) -> (r: Result<(), FabricConfigError>)
        ensures
            match old(self)@.update_fabric(updater) {
                Ok(after) => r is Ok && final(self)@ == after,
                Err(e) => r is Err && r->Err_0@ == e && final(self)@ == old(self)@,
            },
    {
        match (self, updater) {
            (FabricEntry::Openfabric(entry), FabricUpdater::Openfabric(u)) => {
                update_openfabric_fabric(&mut entry.fabric, u);
                Ok(())
            },
            (FabricEntry::Ospf(entry), FabricUpdater::Ospf(u)) => {
                update_ospf_fabric(&mut entry.fabric, u);
                Ok(())
            },
            _ => Err(FabricConfigError::ProtocolMismatch),
        }
    }
}

/// The view of a whole configuration: its fabrics by name, in ascending
/// order of the names.
pub type FabricConfigView = Seq<(Seq<char>, FabricEntryView)>;

/// The fabric as it is taken into the configuration: each prefix named by
/// the first address of its block.
pub open spec fn canonical_fabric(f: FabricView) -> FabricView {
    f.with_ip_prefix(
        match f.ip_prefix() {
            Some(p) => Some(p.canonical_spec()),
            None => None,
        },
    ).with_ip6_prefix(
        match f.ip6_prefix() {
            Some(p) => Some(p.canonical_spec()),
            None => None,
        },
    )
}

/// What adding a fabric gives: the configuration with the fabric, without
/// nodes, or the error that a fabric of the name exists.
pub open spec fn add_fabric_spec(c: FabricConfigView, f: FabricView) -> Result<
    FabricConfigView,
    FabricConfigErrorView,
> {
    if has_key(c, f.id()) {
        Err(FabricConfigErrorView::DuplicateFabric(f.id()))
    } else {
        Ok(put::<FabricId, _>(c, f.id(), FabricEntryView::of_fabric(canonical_fabric(f))))
    }
}

/// What adding a node gives: the fabric that the node names is looked for
/// first.
pub open spec fn config_add_node(c: FabricConfigView, node: NodeView) -> Result<
    FabricConfigView,
    FabricConfigErrorView,
> {
    match position(c, node.id().fabric_id) {
        None => Err(FabricConfigErrorView::FabricDoesNotExist(node.id().fabric_id)),
        Some(i) => match c[i].1.add_node(node) {
            Ok(entry) => Ok(c.update(i, (c[i].0, entry))),
            Err(e) => Err(e),
        },
    }
}

/// What changing the fabric of the given name gives.
pub open spec fn update_fabric_spec(c: FabricConfigView, id: Seq<char>, u: FabricUpdater) -> Result<
    FabricConfigView,
    FabricConfigErrorView,
> {
    match position(c, id) {
        None => Err(FabricConfigErrorView::FabricDoesNotExist(id)),
        Some(i) => match c[i].1.update_fabric(u) {
            Ok(entry) => Ok(c.update(i, (c[i].0, entry))),
            Err(e) => Err(e),
        },
    }
}

/// What changing a node of the fabric of the given name gives.
pub open spec fn update_node_spec(
    c: FabricConfigView,
    fabric_id: Seq<char>,
    node_id: Seq<char>,
    u: NodeUpdater,
) -> Result<FabricConfigView, FabricConfigErrorView> {
    match position(c, fabric_id) {
        None => Err(FabricConfigErrorView::FabricDoesNotExist(fabric_id)),
        Some(i) => match c[i].1.update_node(node_id, u) {
            Ok(entry) => Ok(c.update(i, (c[i].0, entry))),
            Err(e) => Err(e),
        },
    }
}

/// A whole fabric configuration: fabrics, each with its nodes, each node
/// with its interfaces.
#[derive(Debug, PartialEq, Eq)]
pub struct FabricConfig {
    fabrics: OrderedMap<FabricId, FabricEntry>,
}

impl View for FabricConfig {
    type V = FabricConfigView;

    closed spec fn view(&self) -> FabricConfigView {
        self.fabrics@
    }
}

impl Clone for FabricConfig {
    fn clone(&self) -> (r: Self)
        ensures
            r@ == self@,
    {
        FabricConfig { fabrics: self.fabrics.clone() }
    }
}

impl FabricConfig {
    /// The configuration without fabrics.
    pub fn new() -> (r: FabricConfig)
        ensures
            r@ == Seq::<(Seq<char>, FabricEntryView)>::empty(),
    {
        FabricConfig { fabrics: OrderedMap::new() }
    }

    /// The number of fabrics.
    pub fn len(&self) -> (n: usize)
        ensures
            n == self@.len(),
    {
        self.fabrics.len()
    }

    /// The fabric at place `i` in the order of the names.
    pub fn entry_at(&self, i: usize) -> (r: &FabricEntry)
        requires
            i < self@.len(),
        ensures
            r@ == self@[i as int].1,
    {
        self.fabrics.value_at(i)
    }

    /// The name under which the fabric at place `i` is held.
    pub fn id_at(&self, i: usize) -> (r: &FabricId)
        requires
            i < self@.len(),
        ensures
            r@ == self@[i as int].0,
    {
        self.fabrics.key_at(i)
    }

    /// Adds a fabric, without nodes. Its prefixes are brought to the form
    /// that names their first address.
    pub fn add_fabric(&mut self, fabric: Fabric) -> (r: Result<(), FabricConfigError>)
        ensures
            match add_fabric_spec(old(self)@, fabric@) {
                Ok(after) => r is Ok && final(self)@ == after,
                Err(e) => r is Err && r->Err_0@ == e && final(self)@ == old(self)@,
            },
    {
        let ghost given = fabric@;
        let mut fabric = fabric;
        if self.fabrics.find(fabric.id()).is_some() {
            return Err(FabricConfigError::DuplicateFabric(fabric.id().to_text()));
        }
        if let Some(prefix) = fabric.ip_prefix() {
            fabric.set_ip_prefix(prefix.canonical());
        }
        if let Some(prefix) = fabric.ip6_prefix() {
            fabric.set_ip6_prefix(prefix.canonical());
        }
        assert(fabric@ =~= canonical_fabric(given));
        let key = fabric.id().clone();
        self.fabrics.insert(key, FabricEntry::from_fabric(fabric));
        Ok(())
    }

    /// Puts a fabric in, without nodes and as it is, in place of the fabric
    /// of the same name where there is one.
    pub fn put_fabric(&mut self, fabric: Fabric)
        ensures
            final(self)@ == put::<FabricId, _>(
                old(self)@,
                fabric@.id(),
                FabricEntryView::of_fabric(fabric@),
            ),
    {
        let key = fabric.id().clone();
        self.fabrics.insert(key, FabricEntry::from_fabric(fabric));
    }

    /// Takes the first fabric out of the configuration.
    pub fn take_first(&mut self) -> (r: (FabricId, FabricEntry))
        requires
            old(self)@.len() > 0,
        ensures
            r.0@ == old(self)@[0].0,
            r.1@ == old(self)@[0].1,
            final(self)@ == old(self)@.remove(0),
    {
        self.fabrics.remove_at(0)
    }

    /// The fabric of the given name.
    pub fn get_fabric(&self, id: &FabricId) -> (r: Result<&FabricEntry, FabricConfigError>)
        ensures
            match lookup(self@, id@) {
                Some(e) => r is Ok && r->Ok_0@ == e,
                None => r is Err && r->Err_0@ == FabricConfigErrorView::FabricDoesNotExist(id@),
            },
    {
        match self.fabrics.get(id) {
            Some(e) => Ok(e),
            None => Err(FabricConfigError::FabricDoesNotExist(id.to_text())),
        }
    }

    /// The fabric of the given name, to be changed in place: the
    /// configuration holds afterwards, under that name, the fabric as it was
    /// left.
    pub fn get_fabric_mut(&mut self, id: &FabricId) -> (r: Result<
        &mut FabricEntry,
        FabricConfigError,
    >)
        ensures
            match position(old(self)@, id@) {
                Some(i) => r is Ok && r->Ok_0@ == old(self)@[i].1 && final(self)@ == old(
                    self,
                )@.update(i, (old(self)@[i].0, final(r->Ok_0)@)),
                None => r is Err && r->Err_0@ == FabricConfigErrorView::FabricDoesNotExist(id@)
                    && final(self)@ == old(self)@,
            },
    {
        match self.fabrics.find(id) {
            Some(i) => Ok(self.fabrics.value_at_mut(i)),
            None => Err(FabricConfigError::FabricDoesNotExist(id.to_text())),
        }
    }

    /// Takes the fabric of the given name, with its nodes, out of the
    /// configuration.
    pub fn delete_fabric(&mut self, id: &FabricId) -> (r: Result<FabricEntry, FabricConfigError>)
        ensures
            match position(old(self)@, id@) {
                Some(i) => r is Ok && r->Ok_0@ == old(self)@[i].1 && final(self)@ == old(
                    self,
                )@.remove(i),
                None => r is Err && r->Err_0@ == FabricConfigErrorView::FabricDoesNotExist(id@)
                    && final(self)@ == old(self)@,
            },
    {
        match self.fabrics.find(id) {
            Some(i) => {
                let (_, entry) = self.fabrics.remove_at(i);
                Ok(entry)
            },
            None => Err(FabricConfigError::FabricDoesNotExist(id.to_text())),
        }
    }

    /// Changes the fabric of the given name.
    pub fn update_fabric(&mut self, id: &FabricId, updater: FabricUpdater) -> (r: Result<
        (),
        FabricConfigError,
    >)
        ensures
            match update_fabric_spec(old(self)@, id@, updater) {
                Ok(after) => r is Ok && final(self)@ == after,
                Err(e) => r is Err && r->Err_0@ == e && final(self)@ == old(self)@,
            },
    {
        let n: usize = self.fabrics.len();
        match self.fabrics.find(id) {
            None => Err(FabricConfigError::FabricDoesNotExist(id.to_text())),
            Some(i) => {
                proof {
                    lemma_fits_back::<FabricId, _>(self.fabrics@, i as int);
                }
                let (key, entry) = self.fabrics.remove_at(i);
                let mut entry = entry;
                let r = entry.update_fabric(updater);
                self.fabrics.insert_at(i, key, entry);
                r
            },
        }
    }

    /// Changes a node of the fabric of the given name.
    pub fn update_node(&mut self, fabric_id: &FabricId, node_id: &NodeId, updater: NodeUpdater) -> (r:
        Result<(), FabricConfigError>)
        ensures
            match update_node_spec(old(self)@, fabric_id@, node_id@, updater) {
                Ok(after) => r is Ok && final(self)@ == after,
                Err(e) => r is Err && r->Err_0@ == e && final(self)@ == old(self)@,
            },
    {
        let n: usize = self.fabrics.len();
        match self.fabrics.find(fabric_id) {
            None => Err(FabricConfigError::FabricDoesNotExist(fabric_id.to_text())),
            Some(i) => {
                proof {
                    lemma_fits_back::<FabricId, _>(self.fabrics@, i as int);
                }
                let (key, entry) = self.fabrics.remove_at(i);
                let mut entry = entry;
                let r = entry.update_node(node_id, updater);
                self.fabrics.insert_at(i, key, entry);
                r
            },
        }
    }

    /// Adds a node to the fabric that it names.
    pub fn add_node(&mut self, node: Node) -> (r: Result<(), FabricConfigError>)
        ensures
            match config_add_node(old(self)@, node@) {
                Ok(after) => r is Ok && final(self)@ == after,
                Err(e) => r is Err && r->Err_0@ == e && final(self)@ == old(self)@,
            },
    {
        let n: usize = self.fabrics.len();
        match self.fabrics.find(node.id().fabric_id()) {
            None => Err(FabricConfigError::FabricDoesNotExist(node.id().fabric_id().to_text())),
            Some(i) => {
                proof {
                    lemma_fits_back::<FabricId, _>(self.fabrics@, i as int);
                }
                let (key, entry) = self.fabrics.remove_at(i);
                let mut entry = entry;
                let r = entry.add_node(node);
                self.fabrics.insert_at(i, key, entry);
                r
            },
        }
    }
}

impl FabricConfigErrorView {
    /// What the error says to the one who wrote the configuration.
    pub open spec fn message(self) -> Seq<char> {
        match self {
            FabricConfigErrorView::FabricDoesNotExist(a) => "fabric '"@ + a
                + "' does not exist in configuration"@,
            FabricConfigErrorView::NodeDoesNotExist(a, b) => "node '"@ + a
                + "' does not exist in fabric '"@ + b + "'"@,
            FabricConfigErrorView::NodeIpOutsideFabricRange(a, b) => "node IP "@ + a
                + " is outside the IP prefix "@ + b + " of the fabric"@,
            FabricConfigErrorView::ProtocolMismatch =>
                "node has a different protocol than the referenced fabric"@,
            FabricConfigErrorView::DuplicateFabric(a) => "fabric '"@ + a
                + "' already exists in config"@,
            FabricConfigErrorView::DuplicateNode(a, b) => "node '"@ + a
                + "' already exists in config for fabric "@ + b,
            FabricConfigErrorView::DuplicateNodeIp(a) => "fabric "@ + a
                + " contains nodes with duplicated IPs"@,
            FabricConfigErrorView::FabricNoIpPrefixForNode(a, b) => "fabric '"@ + a
                + "' does not have an IP prefix configured for the node IP "@ + b,
            FabricConfigErrorView::NodeNoIpForFabricPrefix(a, b) => "node '"@ + a
                + "' does not have an IP configured for this fabric prefix "@ + b,
            FabricConfigErrorView::FabricNoIpPrefix(a) => "fabric '"@ + a
                + "' does not have an IP prefix configured"@,
            FabricConfigErrorView::NodeNoIp(a) => "node '"@ + a
                + "' does not have an IP configured"@,
            FabricConfigErrorView::DuplicateInterface =>
                "interface is already in use by another fabric"@,
            FabricConfigErrorView::Ipv6Unsupported(a) =>
                "IPv6 is currently not supported for protocol "@ + a,
            FabricConfigErrorView::FabricIdMismatch => "mismatched fabric_id"@,
            FabricConfigErrorView::DuplicateOspfArea => "duplicate OSPF area"@,
            FabricConfigErrorView::OverlappingIp4Prefix(a, b, c, d) => "IP prefix "@ + a
                + " in fabric '"@ + b + "' overlaps with IPv4 prefix "@ + c + " in fabric '"@ + d
                + "'"@,
            FabricConfigErrorView::OverlappingIp6Prefix(a, b, c, d) => "IPv6 prefix "@ + a
                + " in fabric '"@ + b + "' overlaps with IPv6 prefix "@ + c + " in fabric '"@ + d
                + "'"@,
        }
    }
}

impl FabricConfigError {
    /// What the error says to the one who wrote the configuration.
    pub fn message(&self) -> (r: String)
        ensures
            r@ == self@.message(),
    {
        match self {
            FabricConfigError::FabricDoesNotExist(a) => {
                let mut m = String::from_str("fabric '");
                m.append(a.as_str());
                m.append("' does not exist in configuration");
                m
            },
            FabricConfigError::NodeDoesNotExist(a, b) => {
                let mut m = String::from_str("node '");
                m.append(a.as_str());
                m.append("' does not exist in fabric '");
                m.append(b.as_str());
                m.append("'");
                m
            },
            FabricConfigError::NodeIpOutsideFabricRange(a, b) => {
                let mut m = String::from_str("node IP ");
                m.append(a.as_str());
                m.append(" is outside the IP prefix ");
                m.append(b.as_str());
                m.append(" of the fabric");
                m
            },
            FabricConfigError::ProtocolMismatch => String::from_str(
                "node has a different protocol than the referenced fabric",
            ),
            FabricConfigError::DuplicateFabric(a) => {
                let mut m = String::from_str("fabric '");
                m.append(a.as_str());
                m.append("' already exists in config");
                m
            },
            FabricConfigError::DuplicateNode(a, b) => {
                let mut m = String::from_str("node '");
                m.append(a.as_str());
                m.append("' already exists in config for fabric ");
                m.append(b.as_str());
                m
            },
            FabricConfigError::DuplicateNodeIp(a) => {
                let mut m = String::from_str("fabric ");
                m.append(a.as_str());
                m.append(" contains nodes with duplicated IPs");
                m
            },
            FabricConfigError::FabricNoIpPrefixForNode(a, b) => {
                let mut m = String::from_str("fabric '");
                m.append(a.as_str());
                m.append("' does not have an IP prefix configured for the node IP ");
                m.append(b.as_str());
                m
            },
            FabricConfigError::NodeNoIpForFabricPrefix(a, b) => {
                let mut m = String::from_str("node '");
                m.append(a.as_str());
                m.append("' does not have an IP configured for this fabric prefix ");
                m.append(b.as_str());
                m
            },
            FabricConfigError::FabricNoIpPrefix(a) => {
                let mut m = String::from_str("fabric '");
                m.append(a.as_str());
                m.append("' does not have an IP prefix configured");
                m
            },
            FabricConfigError::NodeNoIp(a) => {
                let mut m = String::from_str("node '");
                m.append(a.as_str());
                m.append("' does not have an IP configured");
                m
            },
            FabricConfigError::DuplicateInterface => String::from_str(
                "interface is already in use by another fabric",
            ),
            FabricConfigError::Ipv6Unsupported(a) => {
                let mut m = String::from_str("IPv6 is currently not supported for protocol ");
                m.append(a.as_str());
                m
            },
            FabricConfigError::FabricIdMismatch => String::from_str("mismatched fabric_id"),
            FabricConfigError::DuplicateOspfArea => String::from_str("duplicate OSPF area"),
            FabricConfigError::OverlappingIp4Prefix(a, b, c, d) => {
                let mut m = String::from_str("IP prefix ");
                m.append(a.as_str());
                m.append(" in fabric '");
                m.append(b.as_str());
                m.append("' overlaps with IPv4 prefix ");
                m.append(c.as_str());
                m.append(" in fabric '");
                m.append(d.as_str());
                m.append("'");
                m
            },
            FabricConfigError::OverlappingIp6Prefix(a, b, c, d) => {
                let mut m = String::from_str("IPv6 prefix ");
                m.append(a.as_str());
                m.append(" in fabric '");
                m.append(b.as_str());
                m.append("' overlaps with IPv6 prefix ");
                m.append(c.as_str());
                m.append(" in fabric '");
                m.append(d.as_str());
                m.append("'");
                m
            },
        }
    }
}

} // verus!
