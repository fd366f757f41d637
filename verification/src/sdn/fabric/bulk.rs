//! A whole configuration from its sections, and back.

use vstd::prelude::*;
use crate::common::valid::{Valid, Validatable};
use crate::ordered::put;
use crate::sdn::fabric::section_config::fabric::{Fabric, FabricId, FabricView};
use crate::sdn::fabric::section_config::node::{Node, NodeView};
use crate::sdn::fabric::section_config::{FabricOrNode, Section};
use crate::sdn::fabric::validation::check_config;
use crate::sdn::fabric::{
    config_add_node, FabricConfig, FabricConfigError, FabricConfigErrorView, FabricConfigView,
    FabricEntryView,
};
use crate::views::{lemma_views_push, views};

verus! {

/// The fabrics among the first `n` sections, without nodes. A fabric takes
/// the place of one of the same name before it.
pub open spec fn fabrics_of(sections: Seq<FabricOrNode<FabricView, NodeView>>, n: int) -> FabricConfigView
    decreases n,
{
    if n <= 0 {
        Seq::empty()
    } else {
        let before = fabrics_of(sections, n - 1);
        match sections[n - 1] {
            FabricOrNode::Fabric(f) => put::<FabricId, _>(
                before,
                f.id(),
                FabricEntryView::of_fabric(f),
            ),
            FabricOrNode::Node(_) => before,
        }
    }
}

/// The nodes among the first `n` sections, in the order of the sections.
pub open spec fn nodes_of(sections: Seq<FabricOrNode<FabricView, NodeView>>, n: int) -> Seq<NodeView>
    decreases n,
{
    if n <= 0 {
        Seq::empty()
    } else {
        let before = nodes_of(sections, n - 1);
        match sections[n - 1] {
            FabricOrNode::Fabric(_) => before,
            FabricOrNode::Node(node) => before.push(node),
        }
    }
}

/// The configuration with the first `k` of the nodes added, each to the
/// fabric that it names, or the first error that adding them gives.
pub open spec fn add_nodes(c: FabricConfigView, nodes: Seq<NodeView>, k: int) -> Result<
    FabricConfigView,
    FabricConfigErrorView,
>
    decreases k,
{
    if k <= 0 {
        Ok(c)
    } else {
        match add_nodes(c, nodes, k - 1) {
            Err(e) => Err(e),
            Ok(before) => config_add_node(before, nodes[k - 1]),
        }
    }
}

/// The configuration that sections make: first the fabrics, then the nodes,
/// each added to its fabric, and at the end the validation of the whole.
pub open spec fn from_sections(sections: Seq<FabricOrNode<FabricView, NodeView>>) -> Result<
    FabricConfigView,
    FabricConfigErrorView,
> {
    let n = sections.len() as int;
    match add_nodes(fabrics_of(sections, n), nodes_of(sections, n), nodes_of(sections, n).len() as int) {
        Err(e) => Err(e),
        Ok(c) => match check_config(c) {
            Err(e) => Err(e),
            Ok(()) => Ok(c),
        },
    }
}

/// The sections of a node list: each node under the text of its name.
pub open spec fn node_sections(nodes: Seq<NodeView>) -> Seq<
    (Seq<char>, FabricOrNode<FabricView, NodeView>),
> {
    Seq::new(nodes.len(), |k: int| (nodes[k].id().text(), FabricOrNode::Node(nodes[k])))
}

/// The nodes of a fabric, in the order of their names.
pub open spec fn entry_nodes(e: FabricEntryView) -> Seq<NodeView> {
    Seq::new(e.node_count(), |k: int| e.node(k))
}

/// The sections of the first `i` fabrics of a configuration: each fabric
/// under its name, followed by its nodes.
pub open spec fn sections_of(c: FabricConfigView, i: int) -> Seq<
    (Seq<char>, FabricOrNode<FabricView, NodeView>),
>
    decreases i,
{
    if i <= 0 {
        Seq::empty()
    } else {
        sections_of(c, i - 1).push((c[i - 1].0, FabricOrNode::Fabric(c[i - 1].1.fabric())))
            + node_sections(entry_nodes(c[i - 1].1))
    }
}

/// The views of sections held under the texts of their names.
pub open spec fn named_views(v: Seq<(String, Section)>) -> Seq<
    (Seq<char>, FabricOrNode<FabricView, NodeView>),
> {
    Seq::new(v.len(), |k: int| (v[k].0@, v[k].1@))
}

impl FabricConfig {
    /// Makes a configuration from its sections and checks it.
    pub fn from_section_config(config: Vec<Section>) -> (r: Result<
        Valid<FabricConfig>,
        FabricConfigError,
    >)
        ensures
            match from_sections(views(config@)) {
                Ok(c) => r is Ok && r->Ok_0.inner()@ == c,
                Err(e) => r is Err && r->Err_0@ == e,
            },
    {
        let ghost all = views(config@);
        let ghost total = config@.len() as int;
        let mut sections = config;
        let mut fabrics = FabricConfig::new();
        let mut nodes: Vec<Node> = Vec::new();
        let ghost mut taken: int = 0;
        assert(views(nodes@) =~= nodes_of(all, 0));
        while sections.len() > 0
            invariant
                taken + sections@.len() == total,
                total == all.len(),
                forall|k: int|
                    0 <= k < sections@.len() ==> (#[trigger] sections@[k])@ == all[taken + k],
                0 <= taken,
                fabrics@ == fabrics_of(all, taken),
                views(nodes@) == nodes_of(all, taken),
            decreases sections@.len(),
        {
            let section = sections.remove(0);
            assert(section@ == all[taken]);
            match section.into_fabric_or_node() {
                FabricOrNode::Fabric(fabric) => {
                    fabrics.put_fabric(fabric);
                },
                FabricOrNode::Node(node) => {
                    proof {
                        lemma_views_push(nodes@, node);
                    }
                    nodes.push(node);
                },
            }
            proof {
                taken = taken + 1;
            }
        }
        let ghost start = fabrics@;
        let ghost listed = views(nodes@);
        let ghost count = nodes@.len() as int;
        let ghost mut added: int = 0;
        while nodes.len() > 0
            invariant
                added + nodes@.len() == count,
                count == listed.len(),
                0 <= added,
                all == views(config@),
                start == fabrics_of(all, all.len() as int),
                listed == nodes_of(all, all.len() as int),
                forall|k: int| 0 <= k < nodes@.len() ==> (#[trigger] nodes@[k])@ == listed[added + k],
                add_nodes(start, listed, added) == Ok::<
                    FabricConfigView,
                    FabricConfigErrorView,
                >(fabrics@),
            decreases nodes@.len(),
        {
            let node = nodes.remove(0);
            assert(node@ == listed[added]);
            match fabrics.add_node(node) {
                Ok(()) => {},
                Err(e) => {
                    proof {
                        lemma_add_nodes_stops(start, listed, added + 1, count);
                    }
                    return Err(e);
                },
            }
            proof {
                added = added + 1;
            }
        }
        Valid::into_valid(fabrics)
    }
}

/// Once adding nodes has failed, adding more gives the same error.
pub proof fn lemma_add_nodes_stops(c: FabricConfigView, nodes: Seq<NodeView>, k: int, n: int)
    requires
        0 <= k <= n,
        add_nodes(c, nodes, k) is Err,
    ensures
        add_nodes(c, nodes, n) == add_nodes(c, nodes, k),
    decreases n - k,
{
    if k < n {
        lemma_add_nodes_stops(c, nodes, k, n - 1);
    }
}

impl Valid<FabricConfig> {
    /// The sections of a valid configuration, as they are written out: each
    /// fabric under its name, followed by its nodes in the order of their names,
    /// the fabrics in the order of theirs.
    pub fn into_section_config(self) -> (r: Vec<(String, Section)>)
        ensures
            named_views(r@) == sections_of(self.inner()@, self.inner()@.len() as int),
    {
        let ghost c = self.inner()@;
        let mut fabrics = self.into_inner();
        let mut out: Vec<(String, Section)> = Vec::new();
        let ghost mut done: int = 0;
        assert(named_views(out@) =~= sections_of(c, 0));
        while fabrics.len() > 0
            invariant
                done + fabrics@.len() == c.len(),
                forall|k: int| 0 <= k < fabrics@.len() ==> #[trigger] fabrics@[k] == c[done + k],
                0 <= done,
                named_views(out@) == sections_of(c, done),
            decreases fabrics@.len(),
        {
            let (id, entry) = fabrics.take_first();
            let ghost e = entry@;
            assert(e == c[done].1);
            let (fabric, nodes) = entry.into_section_config();
            let ghost before = named_views(out@);
            let head = (id.to_text(), Section::from_fabric(fabric));
            proof {
                assert(named_views(out@.push(head)) =~= before.push((head.0@, head.1@)));
            }
            out.push(head);
            let ghost with_head = named_views(out@);
            let ghost wanted = node_sections(entry_nodes(e));
            let mut nodes = nodes;
            let ghost given = nodes@;
            let ghost mut k: int = 0;
            assert(named_views(out@) =~= with_head + wanted.subrange(0, 0));
            while nodes.len() > 0
                invariant
                    k + nodes@.len() == given.len(),
                    given.len() == e.node_count(),
                    wanted == node_sections(entry_nodes(e)),
                    forall|j: int| 0 <= j < given.len() ==> (#[trigger] given[j])@ == e.node(j),
                    forall|j: int| 0 <= j < nodes@.len() ==> #[trigger] nodes@[j] == given[k + j],
                    0 <= k,
                    named_views(out@) == with_head + wanted.subrange(0, k),
                decreases nodes@.len(),
            {
                let node = nodes.remove(0);
                assert(node == given[k]);
                let ghost so_far = named_views(out@);
                let item = (node.id().to_text(), Section::from_node(node));
                proof {
                    assert(named_views(out@.push(item)) =~= so_far.push((item.0@, item.1@)));
                    assert(wanted[k] == (item.0@, item.1@));
                    assert(wanted.subrange(0, k + 1) =~= wanted.subrange(0, k).push(wanted[k]));
                }
                out.push(item);
                assert(named_views(out@) =~= with_head + wanted.subrange(0, k + 1));
                proof {
                    k = k + 1;
                }
            }
            assert(wanted.subrange(0, k) =~= wanted);
            proof {
                done = done + 1;
            }
        }
        out
    }
}

} // verus!
