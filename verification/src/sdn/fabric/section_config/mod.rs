//! The sections of a fabric configuration: fabrics and nodes, each of one
//! of the protocols.

pub mod fabric;
pub mod interface;
pub mod node;
pub mod protocol;

use vstd::prelude::*;
use crate::sdn::fabric::section_config::fabric::{Fabric, FabricSection, FabricView};
use crate::sdn::fabric::section_config::node::{Node, NodeSection, NodeView};
use crate::sdn::fabric::section_config::protocol::openfabric::{
    OpenfabricNodeProperties, OpenfabricProperties,
};
use crate::sdn::fabric::section_config::protocol::ospf::{OspfNodeProperties, OspfProperties};
use crate::text::{is_alphanumeric, char_is_alphanumeric};

verus! {

/// Why a text is no identifier of its kind.
#[derive(Clone, Copy, Debug, PartialEq, Eq, Structural)]
pub enum SectionIdError {
    InvalidFabricId,
    InvalidNodeId,
    InvalidInterfaceName,
    /// The identifier of a node section lacks the underscore between the
    /// fabric and the node.
    InvalidNodeSectionId,
}

/// `s` is a label of at most `max` characters: a letter or digit, then
/// letters, digits and hyphens; where the label is of full length, its last
/// character is a letter or digit too.
pub open spec fn is_label(s: Seq<char>, max: nat) -> bool {
    &&& 1 <= s.len() <= max
    &&& is_alphanumeric(s[0])
    &&& forall|i: int| 1 <= i < s.len() ==> is_alphanumeric(#[trigger] s[i]) || s[i] == '-'
    &&& s.len() == max ==> is_alphanumeric(s[max - 1])
}

/// Whether `v` is a label of at most `max` characters.
pub fn check_label(v: &Vec<char>, max: usize) -> (r: bool)
    requires
        max >= 1,
    ensures
        r == is_label(v@, max as nat),
{
    let n: usize = v.len();
    if n < 1 || n > max {
        return false;
    }
    if !char_is_alphanumeric(v[0]) {
        return false;
    }
    let mut i: usize = 1;
    while i < n
        invariant
            1 <= i <= n,
            n == v.len(),
            forall|j: int| 1 <= j < i ==> is_alphanumeric(#[trigger] v@[j]) || v@[j] == '-',
        decreases n - i,
    {
        if !(char_is_alphanumeric(v[i]) || v[i] == '-') {
            return false;
        }
        i = i + 1;
    }
    if n == max && !char_is_alphanumeric(v[max - 1]) {
        return false;
    }
    true
}

/// A value that is a fabric or a node.
#[derive(Debug)]
pub enum FabricOrNode<F, N> {
    Fabric(F),
    Node(N),
}

/// A section of the configuration: a fabric or a node, of OpenFabric or of
/// OSPF.
#[derive(Debug, Clone)]
pub enum Section {
    OpenfabricFabric(FabricSection<OpenfabricProperties>),
    OspfFabric(FabricSection<OspfProperties>),
    OpenfabricNode(NodeSection<OpenfabricNodeProperties>),
    OspfNode(NodeSection<OspfNodeProperties>),
}

impl View for Section {
    type V = FabricOrNode<FabricView, NodeView>;

    open spec fn view(&self) -> FabricOrNode<FabricView, NodeView> {
        match self {
            Section::OpenfabricFabric(s) => FabricOrNode::Fabric(FabricView::Openfabric(s@)),
            Section::OspfFabric(s) => FabricOrNode::Fabric(FabricView::Ospf(s@)),
            Section::OpenfabricNode(s) => FabricOrNode::Node(NodeView::Openfabric(s@)),
            Section::OspfNode(s) => FabricOrNode::Node(NodeView::Ospf(s@)),
        }
    }
}

impl Section {
    /// The section as the fabric or the node that it is.
    pub fn into_fabric_or_node(self) -> (r: FabricOrNode<Fabric, Node>)
        ensures
            r == match self {
                Section::OpenfabricFabric(s) => FabricOrNode::<Fabric, Node>::Fabric(
                    Fabric::Openfabric(s),
                ),
                Section::OspfFabric(s) => FabricOrNode::<Fabric, Node>::Fabric(Fabric::Ospf(s)),
                Section::OpenfabricNode(s) => FabricOrNode::<Fabric, Node>::Node(
                    Node::Openfabric(s),
                ),
                Section::OspfNode(s) => FabricOrNode::<Fabric, Node>::Node(Node::Ospf(s)),
            },
    {
        match self {
            Section::OpenfabricFabric(s) => FabricOrNode::Fabric(Fabric::Openfabric(s)),
            Section::OspfFabric(s) => FabricOrNode::Fabric(Fabric::Ospf(s)),
            Section::OpenfabricNode(s) => FabricOrNode::Node(Node::Openfabric(s)),
            Section::OspfNode(s) => FabricOrNode::Node(Node::Ospf(s)),
        }
    }

    /// The section of a fabric.
    pub fn from_fabric(fabric: Fabric) -> (r: Section)
        ensures
            r == match fabric {
                Fabric::Openfabric(s) => Section::OpenfabricFabric(s),
                Fabric::Ospf(s) => Section::OspfFabric(s),
            },
    {
        match fabric {
            Fabric::Openfabric(s) => Section::OpenfabricFabric(s),
            Fabric::Ospf(s) => Section::OspfFabric(s),
        }
    }

    /// The section of a node.
    pub fn from_node(node: Node) -> (r: Section)
        ensures
            r == match node {
                Node::Openfabric(s) => Section::OpenfabricNode(s),
                Node::Ospf(s) => Section::OspfNode(s),
            },
    {
        match node {
            Node::Openfabric(s) => Section::OpenfabricNode(s),
            Node::Ospf(s) => Section::OspfNode(s),
        }
    }
}

} // verus!
