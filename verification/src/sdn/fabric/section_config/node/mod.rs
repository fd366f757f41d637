//! Nodes: what every node holds, and the nodes of each protocol.

pub mod api;

use vstd::prelude::*;
use crate::common::valid::Validatable;
use crate::ip_address::{Ipv4Addr, Ipv6Addr};
use crate::ordered::{Replicate, SortKey};
use crate::sdn::fabric::section_config::fabric::FabricId;
use crate::sdn::fabric::section_config::protocol::openfabric::{
    OpenfabricInterfaceView, OpenfabricNodeProperties,
};
use crate::sdn::fabric::section_config::protocol::ospf::{OspfInterfaceView, OspfNodeProperties};
use crate::sdn::fabric::section_config::{check_label, is_label, SectionIdError};
use crate::sdn::fabric::{FabricConfigError, FabricConfigErrorView};
use crate::text::{
    chars_of, code_points, find_from, index_of, lemma_code_points_injective, string_of,
    text_precedes, text_same,
};

verus! {

/// The name of a node, its host name: a label of at most 63 characters.
#[derive(Debug, PartialEq, Eq, PartialOrd, Ord, Hash)]
pub struct NodeId(String);

impl View for NodeId {
    type V = Seq<char>;

    closed spec fn view(&self) -> Seq<char> {
        self.0@
    }
}

impl Clone for NodeId {
    fn clone(&self) -> (r: Self)
        ensures
            r == *self,
    {
        proof {
            use_type_invariant(self);
        }
        NodeId(self.0.clone())
    }
}

impl NodeId {
    #[verifier::type_invariant]
    spec fn well_formed(self) -> bool {
        is_label(self.0@, 63)
    }

    /// The node name with the given text.
    pub fn from_string(s: String) -> (r: Result<NodeId, SectionIdError>)
        ensures
            is_label(s@, 63) ==> r is Ok && r->Ok_0@ == s@,
            !is_label(s@, 63) ==> r == Err::<NodeId, SectionIdError>(SectionIdError::InvalidNodeId),
    {
        let v = chars_of(s.as_str());
        if check_label(&v, 63) {
            Ok(NodeId(s))
        } else {
            Err(SectionIdError::InvalidNodeId)
        }
    }

    pub fn as_str(&self) -> (r: &str)
        ensures
            r@ == self@,
            is_label(r@, 63),
    {
        proof {
            use_type_invariant(self);
        }
        self.0.as_str()
    }

    /// The name as a text of its own.
    pub fn to_text(&self) -> (r: String)
        ensures
            r@ == self@,
    {
        self.0.clone()
    }
}

impl Replicate for NodeId {
    fn replicate(&self) -> (r: Self) {
        self.clone()
    }
}

impl SortKey for NodeId {
    open spec fn rank(v: Seq<char>) -> Seq<int> {
        code_points(v)
    }

    proof fn lemma_rank_injective(a: Seq<char>, b: Seq<char>) {
        lemma_code_points_injective(a, b);
    }

    fn precedes(&self, other: &Self) -> (r: bool) {
        text_precedes(self.as_str(), other.as_str())
    }

    fn same(&self, other: &Self) -> (r: bool) {
        text_same(self.as_str(), other.as_str())
    }
}

/// The name of a node section: the name of the fabric and the name of the
/// node. As text the two are joined by an underscore.
#[derive(Debug, Clone, PartialEq, Eq, PartialOrd, Ord, Hash)]
pub struct NodeSectionId {
    pub fabric_id: FabricId,
    pub node_id: NodeId,
}

/// The view of the name of a node section.
pub struct NodeSectionIdView {
    pub fabric_id: Seq<char>,
    pub node_id: Seq<char>,
}

impl NodeSectionIdView {
    /// The name as one text.
    pub open spec fn text(self) -> Seq<char> {
        self.fabric_id + seq!['_'] + self.node_id
    }
}

impl View for NodeSectionId {
    type V = NodeSectionIdView;

    open spec fn view(&self) -> NodeSectionIdView {
        NodeSectionIdView { fabric_id: self.fabric_id@, node_id: self.node_id@ }
    }
}

/// What a text means as the name of a node section, or why it is none: the
/// part before the first underscore names the fabric, the part behind it
/// the node.
pub open spec fn parse_node_section_id(s: Seq<char>) -> Result<NodeSectionIdView, SectionIdError> {
    let at = index_of(s, '_');
    if at >= s.len() {
        Err(SectionIdError::InvalidNodeSectionId)
    } else if !is_label(s.subrange(0, at), 8) {
        Err(SectionIdError::InvalidFabricId)
    } else if !is_label(s.subrange(at + 1, s.len() as int), 63) {
        Err(SectionIdError::InvalidNodeId)
    } else {
        Ok(
            NodeSectionIdView {
                fabric_id: s.subrange(0, at),
                node_id: s.subrange(at + 1, s.len() as int),
            },
        )
    }
}

impl NodeSectionId {
    /// The name of the section of a node in a fabric.
    pub fn new(fabric_id: FabricId, node_id: NodeId) -> (r: NodeSectionId)
        ensures
            r.fabric_id == fabric_id,
            r.node_id == node_id,
    {
        NodeSectionId { fabric_id, node_id }
    }

    pub fn fabric_id(&self) -> (r: &FabricId)
        ensures
            *r == self.fabric_id,
    {
        &self.fabric_id
    }

    pub fn node_id(&self) -> (r: &NodeId)
        ensures
            *r == self.node_id,
    {
        &self.node_id
    }

    /// Reads the name of a node section from its text.
    pub fn parse_text(s: &str) -> (r: Result<NodeSectionId, SectionIdError>)
        ensures
            match parse_node_section_id(s@) {
                Ok(view) => r is Ok && r->Ok_0@ == view,
                Err(e) => r == Err::<NodeSectionId, SectionIdError>(e),
            },
    {
        let v = chars_of(s);
        let at: usize = find_from(&v, '_', 0);
        if at >= v.len() {
            return Err(SectionIdError::InvalidNodeSectionId);
        }
        let fabric_id = match FabricId::from_string(string_of(&v, 0, at)) {
            Ok(id) => id,
            Err(e) => {
                return Err(e);
            },
        };
        let node_id = match NodeId::from_string(string_of(&v, at + 1, v.len())) {
            Ok(id) => id,
            Err(e) => {
                return Err(e);
            },
        };
        Ok(NodeSectionId { fabric_id, node_id })
    }

    /// The name as one text.
    pub fn to_text(&self) -> (r: String)
        ensures
            r@ == self@.text(),
    {
        let mut out = self.fabric_id.to_text();
        out.push('_');
        out.append(self.node_id.as_str());
        assert(out@ =~= self@.text());
        out
    }
}

/// What every node holds, whatever its protocol: its name, its addresses,
/// which serve as router identifiers, and the properties of its protocol.
#[derive(Debug, Clone, PartialEq, Eq, Hash)]
pub struct NodeSection<T> {
    pub id: NodeSectionId,
    pub ip: Option<Ipv4Addr>,
    pub ip6: Option<Ipv6Addr>,
    pub properties: T,
}

/// The view of a node.
pub struct NodeSectionView<P> {
    pub id: NodeSectionIdView,
    pub ip: Option<Ipv4Addr>,
    pub ip6: Option<Ipv6Addr>,
    pub properties: P,
}

impl<T: View> View for NodeSection<T> {
    type V = NodeSectionView<T::V>;

    open spec fn view(&self) -> NodeSectionView<T::V> {
        NodeSectionView { id: self.id@, ip: self.ip, ip6: self.ip6, properties: self.properties@ }
    }
}

impl<T: View> NodeSection<T> {
    /// The node of the given parts.
    pub fn new(id: NodeSectionId, ip: Option<Ipv4Addr>, ip6: Option<Ipv6Addr>, properties: T) -> (r:
        NodeSection<T>)
        ensures
            r@ == (NodeSectionView { id: id@, ip, ip6, properties: properties@ }),
            r.properties == properties,
    {
        NodeSection { id, ip, ip6, properties }
    }

    pub fn properties(&self) -> (r: &T)
        ensures
            *r == self.properties,
    {
        &self.properties
    }

    /// The properties of the protocol, to be changed in place: the node is
    /// afterwards what it was, with the properties as they were left.
    pub fn properties_mut(&mut self) -> (r: &mut T)
        ensures
            *r == old(self).properties,
            *final(self) == (NodeSection { properties: *final(r), ..*old(self) }),
    {
        &mut self.properties
    }

    pub fn id(&self) -> (r: &NodeSectionId)
        ensures
            r@ == self@.id,
    {
        &self.id
    }

    /// The address of version 4 of the node, its router identifier.
    pub fn ip(&self) -> (r: Option<Ipv4Addr>)
        ensures
            r == self@.ip,
    {
        self.ip
    }

    /// The address of version 6 of the node.
    pub fn ip6(&self) -> (r: Option<Ipv6Addr>)
        ensures
            r == self@.ip6,
    {
        self.ip6
    }
}

impl<T: Replicate> Replicate for NodeSection<T> {
    fn replicate(&self) -> (r: Self) {
        NodeSection {
            id: NodeSectionId {
                fabric_id: self.id.fabric_id.clone(),
                node_id: self.id.node_id.clone(),
            },
            ip: self.ip,
            ip6: self.ip6,
            properties: self.properties.replicate(),
        }
    }
}

/// What validation finds of an OpenFabric node: it needs an address of one
/// family at least.
pub open spec fn check_openfabric_node<P>(n: NodeSectionView<P>) -> Result<
    (),
    FabricConfigErrorView,
> {
    if n.ip is None && n.ip6 is None {
        Err(FabricConfigErrorView::NodeNoIp(n.id.text()))
    } else {
        Ok(())
    }
}

/// What validation finds of an OSPF node: it needs an address of version 4
/// and takes none of version 6.
pub open spec fn check_ospf_node<P>(n: NodeSectionView<P>) -> Result<(), FabricConfigErrorView> {
    if n.ip is None {
        Err(FabricConfigErrorView::NodeNoIp(n.id.text()))
    } else if n.ip6 is Some {
        Err(FabricConfigErrorView::Ipv6Unsupported("ospf"@))
    } else {
        Ok(())
    }
}

impl Validatable for NodeSection<OpenfabricNodeProperties> {
    type Error = FabricConfigError;

    open spec fn is_valid(&self) -> bool {
        check_openfabric_node(self@) is Ok
    }

    open spec fn fails_with(&self, e: FabricConfigError) -> bool {
        check_openfabric_node(self@) == Err::<(), FabricConfigErrorView>(e@)
    }

    fn validate(&self) -> (r: Result<(), FabricConfigError>) {
        if self.ip.is_none() && self.ip6.is_none() {
            return Err(FabricConfigError::NodeNoIp(self.id.to_text()));
        }
        Ok(())
    }
}

impl Validatable for NodeSection<OspfNodeProperties> {
    type Error = FabricConfigError;

    open spec fn is_valid(&self) -> bool {
        check_ospf_node(self@) is Ok
    }

    open spec fn fails_with(&self, e: FabricConfigError) -> bool {
        check_ospf_node(self@) == Err::<(), FabricConfigErrorView>(e@)
    }

    fn validate(&self) -> (r: Result<(), FabricConfigError>) {
        if self.ip.is_none() {
            return Err(FabricConfigError::NodeNoIp(self.id.to_text()));
        }
        if self.ip6.is_some() {
            return Err(FabricConfigError::Ipv6Unsupported(String::from_str("ospf")));
        }
        Ok(())
    }
}

/// A node of one of the protocols.
#[derive(Debug, Clone, PartialEq, Eq, Hash)]
pub enum Node {
    Openfabric(NodeSection<OpenfabricNodeProperties>),
    Ospf(NodeSection<OspfNodeProperties>),
}

/// The view of a node of one of the protocols.
pub enum NodeView {
    Openfabric(NodeSectionView<Seq<OpenfabricInterfaceView>>),
    Ospf(NodeSectionView<Seq<OspfInterfaceView>>),
}

impl NodeView {
    pub open spec fn id(self) -> NodeSectionIdView {
        match self {
            NodeView::Openfabric(n) => n.id,
            NodeView::Ospf(n) => n.id,
        }
    }

    pub open spec fn ip(self) -> Option<Ipv4Addr> {
        match self {
            NodeView::Openfabric(n) => n.ip,
            NodeView::Ospf(n) => n.ip,
        }
    }

    pub open spec fn ip6(self) -> Option<Ipv6Addr> {
        match self {
            NodeView::Openfabric(n) => n.ip6,
            NodeView::Ospf(n) => n.ip6,
        }
    }

    /// What validation finds of the node.
    pub open spec fn check(self) -> Result<(), FabricConfigErrorView> {
        match self {
            NodeView::Openfabric(n) => check_openfabric_node(n),
            NodeView::Ospf(n) => check_ospf_node(n),
        }
    }
}

impl View for Node {
    type V = NodeView;

    open spec fn view(&self) -> NodeView {
        match self {
            Node::Openfabric(n) => NodeView::Openfabric(n@),
            Node::Ospf(n) => NodeView::Ospf(n@),
        }
    }
}

impl Node {
    pub fn id(&self) -> (r: &NodeSectionId)
        ensures
            r@ == self@.id(),
    {
        match self {
            Node::Openfabric(n) => n.id(),
            Node::Ospf(n) => n.id(),
        }
    }

    pub fn ip(&self) -> (r: Option<Ipv4Addr>)
        ensures
            r == self@.ip(),
    {
        match self {
            Node::Openfabric(n) => n.ip(),
            Node::Ospf(n) => n.ip(),
        }
    }

    pub fn ip6(&self) -> (r: Option<Ipv6Addr>)
        ensures
            r == self@.ip6(),
    {
        match self {
            Node::Openfabric(n) => n.ip6(),
            Node::Ospf(n) => n.ip6(),
        }
    }
}

impl Validatable for Node {
    type Error = FabricConfigError;

    open spec fn is_valid(&self) -> bool {
        self@.check() is Ok
    }

    open spec fn fails_with(&self, e: FabricConfigError) -> bool {
        self@.check() == Err::<(), FabricConfigErrorView>(e@)
    }

    fn validate(&self) -> (r: Result<(), FabricConfigError>) {
        match self {
            Node::Openfabric(n) => n.validate(),
            Node::Ospf(n) => n.validate(),
        }
    }
}

} // verus!
