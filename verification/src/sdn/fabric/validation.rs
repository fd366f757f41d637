//! The validation of fabrics and of a whole configuration.
//!
//! Validation accepts or rejects; it never repairs. It stops at the first
//! thing that it finds wrong, and the order in which it looks is part of
//! what it promises: for a whole configuration, prefixes of different
//! fabrics that overlap, then OSPF areas that occur twice, then interfaces
//! of a node that are claimed twice, then each fabric with its nodes.

use vstd::prelude::*;
use crate::common::valid::{Valid, Validatable};
use crate::ip_address::cidr::{Ipv4Cidr, Ipv6Cidr};
use crate::ip_address::text::{ipv4_cidr_text, ipv4_text, ipv6_cidr_text, ipv6_text};
use crate::ip_address::{Ipv4Addr, Ipv6Addr};
use crate::sdn::fabric::section_config::fabric::{check_openfabric_fabric, check_ospf_fabric};
use crate::sdn::fabric::section_config::node::{
    check_openfabric_node, check_ospf_node, NodeSection, NodeSectionView,
};
use crate::sdn::fabric::{
    Entry, EntryView, FabricConfig, FabricConfigError, FabricConfigErrorView, FabricConfigView,
    FabricEntry, FabricEntryView,
};
use crate::sdn_types::area::Area;
use crate::text::text_same;

verus! {

/// The outcome `r` is the outcome `s`, read by its view.
pub open spec fn agrees(
    r: Result<(), FabricConfigError>,
    s: Result<(), FabricConfigErrorView>,
) -> bool {
    match s {
        Ok(()) => r is Ok,
        Err(e) => r is Err && r->Err_0@ == e,
    }
}

/// What validation finds of the address of version 4 of a node, held
/// against the prefix of its fabric: where one of the two is there, the
/// other has to be, and the prefix has to contain the address.
pub open spec fn check_family4(
    fabric_id: Seq<char>,
    prefix: Option<Ipv4Cidr>,
    node_name: Seq<char>,
    ip: Option<Ipv4Addr>,
) -> Result<(), FabricConfigErrorView> {
    match (prefix, ip) {
        (None, Some(a)) => Err(
            FabricConfigErrorView::FabricNoIpPrefixForNode(fabric_id, ipv4_text(a.0)),
        ),
        (Some(p), None) => Err(
            FabricConfigErrorView::NodeNoIpForFabricPrefix(node_name, ipv4_cidr_text(p)),
        ),
        (Some(p), Some(a)) => if !p.contains(a) {
            Err(
                FabricConfigErrorView::NodeIpOutsideFabricRange(ipv4_text(a.0), ipv4_cidr_text(p)),
            )
        } else {
            Ok(())
        },
        (None, None) => Ok(()),
    }
}

/// What validation finds of the address of version 6 of a node, held
/// against the prefix of its fabric.
pub open spec fn check_family6(
    fabric_id: Seq<char>,
    prefix: Option<Ipv6Cidr>,
    node_name: Seq<char>,
    ip: Option<Ipv6Addr>,
) -> Result<(), FabricConfigErrorView> {
    match (prefix, ip) {
        (None, Some(a)) => Err(
            FabricConfigErrorView::FabricNoIpPrefixForNode(fabric_id, ipv6_text(a.0)),
        ),
        (Some(p), None) => Err(
            FabricConfigErrorView::NodeNoIpForFabricPrefix(node_name, ipv6_cidr_text(p)),
        ),
        (Some(p), Some(a)) => if !p.contains(a) {
            Err(
                FabricConfigErrorView::NodeIpOutsideFabricRange(ipv6_text(a.0), ipv6_cidr_text(p)),
            )
        } else {
            Ok(())
        },
        (None, None) => Ok(()),
    }
}

/// A node before the node at place `n` has the same address of version 4.
pub open spec fn ip_taken<P>(nodes: Seq<(Seq<char>, NodeSectionView<P>)>, n: int) -> bool {
    nodes[n].1.ip is Some && exists|k: int|
        0 <= k < n && (#[trigger] nodes[k]).1.ip == nodes[n].1.ip
}

/// A node before the node at place `n` has the same address of version 6.
pub open spec fn ip6_taken<P>(nodes: Seq<(Seq<char>, NodeSectionView<P>)>, n: int) -> bool {
    nodes[n].1.ip6 is Some && exists|k: int|
        0 <= k < n && (#[trigger] nodes[k]).1.ip6 == nodes[n].1.ip6
}

/// What validation finds of the node at place `n` of a fabric: its address
/// of version 4 against the fabric's prefix, the same for version 6, then
/// whether a node before it has one of its addresses, then the node by
/// itself.
pub open spec fn check_node_at<F, P>(e: EntryView<F, P>, ospf: bool, n: int) -> Result<
    (),
    FabricConfigErrorView,
> {
    let node = e.nodes[n].1;
    match check_family4(e.fabric.id, e.fabric.ip_prefix, node.id.text(), node.ip) {
        Err(x) => Err(x),
        Ok(()) => match check_family6(e.fabric.id, e.fabric.ip6_prefix, node.id.text(), node.ip6) {
            Err(x) => Err(x),
            Ok(()) => if ip_taken(e.nodes, n) || ip6_taken(e.nodes, n) {
                Err(FabricConfigErrorView::DuplicateNodeIp(e.fabric.id))
            } else if ospf {
                check_ospf_node(node)
            } else {
                check_openfabric_node(node)
            },
        },
    }
}

/// What validation finds of the nodes of a fabric from place `n` on: the
/// first thing that is wrong with one of them.
pub open spec fn check_nodes_from<F, P>(e: EntryView<F, P>, ospf: bool, n: int) -> Result<
    (),
    FabricConfigErrorView,
>
    decreases e.nodes.len() - n,
{
    if n < 0 || n >= e.nodes.len() {
        Ok(())
    } else {
        match check_node_at(e, ospf, n) {
            Err(x) => Err(x),
            Ok(()) => check_nodes_from(e, ospf, n + 1),
        }
    }
}

/// What validation finds of a fabric with its nodes: the nodes in the order
/// of their names, then the fabric by itself.
pub open spec fn check_entry(e: FabricEntryView) -> Result<(), FabricConfigErrorView> {
    match e {
        FabricEntryView::Openfabric(x) => match check_nodes_from(x, false, 0) {
            Err(err) => Err(err),
            Ok(()) => check_openfabric_fabric(x.fabric),
        },
        FabricEntryView::Ospf(x) => match check_nodes_from(x, true, 0) {
            Err(err) => Err(err),
            Ok(()) => check_ospf_fabric(x.fabric),
        },
    }
}

/// Where the nodes of a fabric pass, each of them passes.
pub proof fn lemma_nodes_pass<F, P>(e: EntryView<F, P>, ospf: bool, from: int, n: int)
    requires
        0 <= from <= n < e.nodes.len(),
        check_nodes_from(e, ospf, from) is Ok,
    ensures
        check_node_at(e, ospf, n) is Ok,
    decreases n - from,
{
    if from < n {
        lemma_nodes_pass(e, ospf, from + 1, n);
    }
}

/// Whether the two addresses are there and the same.
fn same_ip(a: Option<Ipv4Addr>, b: Option<Ipv4Addr>) -> (r: bool)
    ensures
        r == (a is Some && a == b),
{
    match (a, b) {
        (Some(x), Some(y)) => x.0 == y.0,
        _ => false,
    }
}

/// Whether the two addresses are there and the same.
fn same_ip6(a: Option<Ipv6Addr>, b: Option<Ipv6Addr>) -> (r: bool)
    ensures
        r == (a is Some && a == b),
{
    match (a, b) {
        (Some(x), Some(y)) => x.0 == y.0,
        _ => false,
    }
}

/// Checks the address of version 4 of a node against the prefix of its
/// fabric.
fn validate_family4<F: View, N: View>(entry: &Entry<F, N>, node: &NodeSection<N>) -> (r: Result<
    (),
    FabricConfigError,
>)
    ensures
        agrees(
            r,
            check_family4(entry@.fabric.id, entry@.fabric.ip_prefix, node@.id.text(), node@.ip),
        ),
{
    let fabric = entry.fabric_section();
    match (fabric.ip_prefix(), node.ip()) {
        (None, Some(ip)) => Err(
            FabricConfigError::FabricNoIpPrefixForNode(fabric.id().to_text(), ip.to_text()),
        ),
        (Some(prefix), None) => Err(
            FabricConfigError::NodeNoIpForFabricPrefix(node.id().to_text(), prefix.to_text()),
        ),
        (Some(prefix), Some(ip)) => {
            if !prefix.contains_address(&ip) {
                Err(FabricConfigError::NodeIpOutsideFabricRange(ip.to_text(), prefix.to_text()))
            } else {
                Ok(())
            }
        },
        (None, None) => Ok(()),
    }
}

/// Checks the address of version 6 of a node against the prefix of its
/// fabric.
fn validate_family6<F: View, N: View>(entry: &Entry<F, N>, node: &NodeSection<N>) -> (r: Result<
    (),
    FabricConfigError,
>)
    ensures
        agrees(
            r,
            check_family6(entry@.fabric.id, entry@.fabric.ip6_prefix, node@.id.text(), node@.ip6),
        ),
{
    let fabric = entry.fabric_section();
    match (fabric.ip6_prefix(), node.ip6()) {
        (None, Some(ip)) => Err(
            FabricConfigError::FabricNoIpPrefixForNode(fabric.id().to_text(), ip.to_text()),
        ),
        (Some(prefix), None) => Err(
            FabricConfigError::NodeNoIpForFabricPrefix(node.id().to_text(), prefix.to_text()),
        ),
        (Some(prefix), Some(ip)) => {
            if !prefix.contains_address(&ip) {
                Err(FabricConfigError::NodeIpOutsideFabricRange(ip.to_text(), prefix.to_text()))
            } else {
                Ok(())
            }
        },
        (None, None) => Ok(()),
    }
}

/// Whether a node before the node at place `n` has one of its addresses.
fn address_taken<F: View, N: View>(entry: &Entry<F, N>, n: usize) -> (r: bool)
    requires
        n < entry@.nodes.len(),
    ensures
        r == (ip_taken(entry@.nodes, n as int) || ip6_taken(entry@.nodes, n as int)),
{
    let node = entry.node_at(n);
    let mut k: usize = 0;
    while k < n
        invariant
            k <= n < entry@.nodes.len(),
            node@ == entry@.nodes[n as int].1,
            forall|j: int|
                0 <= j < k ==> !(node@.ip is Some && (#[trigger] entry@.nodes[j]).1.ip == node@.ip),
            forall|j: int|
                0 <= j < k ==> !(node@.ip6 is Some && (#[trigger] entry@.nodes[j]).1.ip6
                    == node@.ip6),
        decreases n - k,
    {
        let other = entry.node_at(k);
        if same_ip(node.ip(), other.ip()) || same_ip6(node.ip6(), other.ip6()) {
            assert(entry@.nodes[k as int].1 == other@);
            return true;
        }
        k = k + 1;
    }
    false
}

/// Checks the nodes of a fabric, in the order of their names.
pub fn validate_nodes<F: View, N: View>(entry: &Entry<F, N>, ospf: bool) -> (r: Result<
    (),
    FabricConfigError,
>)
    ensures
        agrees(r, check_nodes_from(entry@, ospf, 0)),
{
    let count: usize = entry.node_count();
    let mut n: usize = 0;
    while n < count
        invariant
            n <= count,
            count == entry@.nodes.len(),
            check_nodes_from(entry@, ospf, n as int) == check_nodes_from(entry@, ospf, 0),
        decreases count - n,
    {
        let node = entry.node_at(n);
        match validate_family4(entry, node) {
            Err(e) => {
                return Err(e);
            },
            Ok(()) => {},
        }
        match validate_family6(entry, node) {
            Err(e) => {
                return Err(e);
            },
            Ok(()) => {},
        }
        if address_taken(entry, n) {
            return Err(
                FabricConfigError::DuplicateNodeIp(entry.fabric_section().id().to_text()),
            );
        }
        if ospf {
            if node.ip().is_none() {
                return Err(FabricConfigError::NodeNoIp(node.id().to_text()));
            }
            if node.ip6().is_some() {
                return Err(FabricConfigError::Ipv6Unsupported(String::from_str("ospf")));
            }
        } else {
            if node.ip().is_none() && node.ip6().is_none() {
                return Err(FabricConfigError::NodeNoIp(node.id().to_text()));
            }
        }
        n = n + 1;
    }
    Ok(())
}

impl Validatable for FabricEntry {
    type Error = FabricConfigError;

    open spec fn is_valid(&self) -> bool {
        check_entry(self@) is Ok
    }

    open spec fn fails_with(&self, e: FabricConfigError) -> bool {
        check_entry(self@) == Err::<(), FabricConfigErrorView>(e@)
    }

    /// Checks the fabric with its nodes: the address of every node lies in
    /// the prefix of the fabric, no two nodes share an address, and every
    /// node and the fabric are in order by themselves.
    fn validate(&self) -> (r: Result<(), FabricConfigError>) {
        match self {
            FabricEntry::Openfabric(entry) => {
                match validate_nodes(entry, false) {
                    Err(e) => {
                        return Err(e);
                    },
                    Ok(()) => {},
                }
                entry.fabric_section().validate()
            },
            FabricEntry::Ospf(entry) => {
                match validate_nodes(entry, true) {
                    Err(e) => {
                        return Err(e);
                    },
                    Ok(()) => {},
                }
                entry.fabric_section().validate()
            },
        }
    }
}


/// What validation finds of two fabrics held against each other, the first
/// standing before the second: their prefixes of version 4 overlap, or else
/// their prefixes of version 6 do.
pub open spec fn overlap_of(first: FabricEntryView, second: FabricEntryView) -> Option<
    FabricConfigErrorView,
> {
    let a = first.fabric();
    let b = second.fabric();
    if a.ip_prefix() is Some && b.ip_prefix() is Some && a.ip_prefix()->Some_0.overlaps_with(
        b.ip_prefix()->Some_0,
    ) {
        Some(
            FabricConfigErrorView::OverlappingIp4Prefix(
                ipv4_cidr_text(b.ip_prefix()->Some_0),
                b.id(),
                ipv4_cidr_text(a.ip_prefix()->Some_0),
                a.id(),
            ),
        )
    } else if a.ip6_prefix() is Some && b.ip6_prefix() is Some
        && a.ip6_prefix()->Some_0.overlaps_with(b.ip6_prefix()->Some_0) {
        Some(
            FabricConfigErrorView::OverlappingIp6Prefix(
                ipv6_cidr_text(b.ip6_prefix()->Some_0),
                b.id(),
                ipv6_cidr_text(a.ip6_prefix()->Some_0),
                a.id(),
            ),
        )
    } else {
        None
    }
}

/// The first overlap of the fabric at place `i` with a fabric at place `j`
/// or behind it.
pub open spec fn first_overlap_with(c: FabricConfigView, i: int, j: int) -> Option<
    FabricConfigErrorView,
>
    decreases c.len() - j,
{
    if i < 0 || j < 0 || j >= c.len() {
        None
    } else {
        match overlap_of(c[i].1, c[j].1) {
            Some(e) => Some(e),
            None => first_overlap_with(c, i, j + 1),
        }
    }
}

/// The first overlap of a fabric at place `i` or behind it with a fabric
/// behind itself.
pub open spec fn first_overlap_from(c: FabricConfigView, i: int) -> Option<FabricConfigErrorView>
    decreases c.len() - i,
{
    if i < 0 || i >= c.len() {
        None
    } else {
        match first_overlap_with(c, i, i + 1) {
            Some(e) => Some(e),
            None => first_overlap_from(c, i + 1),
        }
    }
}

/// Two OSPF fabrics have the same area, read as a number.
pub open spec fn duplicate_area(c: FabricConfigView) -> bool {
    exists|i: int, j: int|
        0 <= i < j < c.len() && (#[trigger] c[i]).1.area() is Some && (#[trigger] c[j]).1.area()
            is Some && c[i].1.area()->Some_0.number() == c[j].1.area()->Some_0.number()
}

/// The names of the interfaces of the node at place `n` of a fabric.
pub open spec fn interface_names(e: FabricEntryView, n: int) -> Seq<Seq<char>> {
    match e {
        FabricEntryView::Openfabric(x) => Seq::new(
            x.nodes[n].1.properties.len(),
            |k: int| x.nodes[n].1.properties[k].name,
        ),
        FabricEntryView::Ospf(x) => Seq::new(
            x.nodes[n].1.properties.len(),
            |k: int| x.nodes[n].1.properties[k].name,
        ),
    }
}

/// The claims of the node at place `n` of a fabric: its name with the name
/// of each of its interfaces.
pub open spec fn node_claims(e: FabricEntryView, n: int) -> Seq<(Seq<char>, Seq<char>)> {
    Seq::new(interface_names(e, n).len(), |k: int| (e.node_key(n), interface_names(e, n)[k]))
}

/// The claims of the first `n` nodes of a fabric.
pub open spec fn entry_claims(e: FabricEntryView, n: int) -> Seq<(Seq<char>, Seq<char>)>
    decreases n,
{
    if n <= 0 {
        Seq::empty()
    } else {
        entry_claims(e, n - 1) + node_claims(e, n - 1)
    }
}

/// The claims of the first `i` fabrics of a configuration.
pub open spec fn config_claims(c: FabricConfigView, i: int) -> Seq<(Seq<char>, Seq<char>)>
    decreases i,
{
    if i <= 0 {
        Seq::empty()
    } else {
        config_claims(c, i - 1) + entry_claims(c[i - 1].1, c[i - 1].1.node_count() as int)
    }
}

/// Some item occurs twice.
pub open spec fn has_duplicates<T>(s: Seq<T>) -> bool {
    exists|a: int, b: int| 0 <= a < b < s.len() && #[trigger] s[a] == #[trigger] s[b]
}

/// What validation finds of the fabrics from place `i` on, each with its
/// nodes: the first thing that is wrong with one of them.
pub open spec fn check_entries_from(c: FabricConfigView, i: int) -> Result<
    (),
    FabricConfigErrorView,
>
    decreases c.len() - i,
{
    if i < 0 || i >= c.len() {
        Ok(())
    } else {
        match check_entry(c[i].1) {
            Err(e) => Err(e),
            Ok(()) => check_entries_from(c, i + 1),
        }
    }
}

/// What validation finds of a whole configuration.
pub open spec fn check_config(c: FabricConfigView) -> Result<(), FabricConfigErrorView> {
    match first_overlap_from(c, 0) {
        Some(e) => Err(e),
        None => if duplicate_area(c) {
            Err(FabricConfigErrorView::DuplicateOspfArea)
        } else if has_duplicates(config_claims(c, c.len() as int)) {
            Err(FabricConfigErrorView::DuplicateInterface)
        } else {
            check_entries_from(c, 0)
        },
    }
}

/// Where the fabrics of a configuration pass, each of them passes.
pub proof fn lemma_entries_pass(c: FabricConfigView, from: int, i: int)
    requires
        0 <= from <= i < c.len(),
        check_entries_from(c, from) is Ok,
    ensures
        check_entry(c[i].1) is Ok,
    decreases i - from,
{
    if from < i {
        lemma_entries_pass(c, from + 1, i);
    }
}

/// Where no fabric overlaps with one behind it, no two fabrics overlap.
pub proof fn lemma_no_overlap(c: FabricConfigView, i: int, j: int)
    requires
        0 <= i < j < c.len(),
        first_overlap_from(c, 0) is None,
    ensures
        overlap_of(c[i].1, c[j].1) is None,
{
    lemma_no_overlap_from(c, 0, i);
    lemma_no_overlap_with(c, i, i + 1, j);
}

proof fn lemma_no_overlap_from(c: FabricConfigView, from: int, i: int)
    requires
        0 <= from <= i < c.len(),
        first_overlap_from(c, from) is None,
    ensures
        first_overlap_with(c, i, i + 1) is None,
    decreases i - from,
{
    if from < i {
        lemma_no_overlap_from(c, from + 1, i);
    }
}

proof fn lemma_no_overlap_with(c: FabricConfigView, i: int, from: int, j: int)
    requires
        0 <= i < from <= j < c.len(),
        first_overlap_with(c, i, from) is None,
    ensures
        overlap_of(c[i].1, c[j].1) is None,
    decreases j - from,
{
    if from < j {
        lemma_no_overlap_with(c, i, from + 1, j);
    }
}

/// Holds two fabrics against each other.
fn validate_pair(first: &FabricEntry, second: &FabricEntry) -> (r: Option<FabricConfigError>)
    ensures
        match overlap_of(first@, second@) {
            Some(e) => r is Some && r->Some_0@ == e,
            None => r is None,
        },
{
    match (first.ip_prefix(), second.ip_prefix()) {
        (Some(p1), Some(p2)) => {
            if p1.overlaps(&p2) {
                return Some(
                    FabricConfigError::OverlappingIp4Prefix(
                        p2.to_text(),
                        second.id().to_text(),
                        p1.to_text(),
                        first.id().to_text(),
                    ),
                );
            }
        },
        _ => {},
    }
    match (first.ip6_prefix(), second.ip6_prefix()) {
        (Some(p1), Some(p2)) => {
            if p1.overlaps(&p2) {
                return Some(
                    FabricConfigError::OverlappingIp6Prefix(
                        p2.to_text(),
                        second.id().to_text(),
                        p1.to_text(),
                        first.id().to_text(),
                    ),
                );
            }
        },
        _ => {},
    }
    None
}

/// Looks for prefixes of different fabrics that overlap.
fn validate_overlaps(config: &FabricConfig) -> (r: Option<FabricConfigError>)
    ensures
        match first_overlap_from(config@, 0) {
            Some(e) => r is Some && r->Some_0@ == e,
            None => r is None,
        },
{
    let count: usize = config.len();
    let mut i: usize = 0;
    while i < count
        invariant
            i <= count,
            count == config@.len(),
            first_overlap_from(config@, i as int) == first_overlap_from(config@, 0),
        decreases count - i,
    {
        let mut j: usize = i + 1;
        while j < count
            invariant
                i < j <= count,
                count == config@.len(),
                first_overlap_from(config@, i as int) == first_overlap_from(config@, 0),
                first_overlap_with(config@, i as int, j as int) == first_overlap_with(
                    config@,
                    i as int,
                    i + 1,
                ),
            decreases count - j,
        {
            match validate_pair(config.entry_at(i), config.entry_at(j)) {
                Some(e) => {
                    return Some(e);
                },
                None => {},
            }
            j = j + 1;
        }
        i = i + 1;
    }
    None
}

/// The area of a fabric, where it is an OSPF fabric.
fn area_of(entry: &FabricEntry) -> (r: Option<Area>)
    ensures
        r == entry@.area(),
{
    match entry {
        FabricEntry::Openfabric(_) => None,
        FabricEntry::Ospf(e) => Some(e.fabric_section().properties().area),
    }
}

/// Looks for an OSPF area that occurs twice.
fn validate_areas(config: &FabricConfig) -> (r: bool)
    ensures
        r == duplicate_area(config@),
{
    let count: usize = config.len();
    let mut j: usize = 0;
    while j < count
        invariant
            j <= count,
            count == config@.len(),
            forall|a: int, b: int|
                0 <= a < b < j ==> !((#[trigger] config@[a]).1.area() is Some && (
                #[trigger] config@[b]).1.area() is Some && config@[a].1.area()->Some_0.number()
                    == config@[b].1.area()->Some_0.number()),
        decreases count - j,
    {
        match area_of(config.entry_at(j)) {
            None => {},
            Some(area) => {
                let mut i: usize = 0;
                while i < j
                    invariant
                        i <= j < count,
                        count == config@.len(),
                        config@[j as int].1.area() == Some(area),
                        forall|a: int|
                            0 <= a < i ==> !((#[trigger] config@[a]).1.area() is Some
                                && config@[a].1.area()->Some_0.number() == area.number()),
                    decreases j - i,
                {
                    match area_of(config.entry_at(i)) {
                        None => {},
                        Some(other) => {
                            if other.get_ipv4_representation().0
                                == area.get_ipv4_representation().0 {
                                assert(config@[i as int].1.area() is Some && config@[j as int].1.area()
                                    is Some);
                                return true;
                            }
                        },
                    }
                    i = i + 1;
                }
            },
        }
        j = j + 1;
    }
    false
}

/// The views of claims held as texts.
pub open spec fn claim_views(v: Seq<(String, String)>) -> Seq<(Seq<char>, Seq<char>)> {
    Seq::new(v.len(), |k: int| (v[k].0@, v[k].1@))
}

/// The claims with one more claim behind them.
proof fn lemma_claims_push(v: Seq<(String, String)>, x: (String, String))
    ensures
        claim_views(v.push(x)) == claim_views(v).push((x.0@, x.1@)),
{
    assert(claim_views(v.push(x)) =~= claim_views(v).push((x.0@, x.1@)));
}

/// Adds the claims of the nodes of a fabric.
fn collect_claims(entry: &FabricEntry, out: &mut Vec<(String, String)>)
    ensures
        claim_views(final(out)@) == claim_views(old(out)@) + entry_claims(
            entry@,
            entry@.node_count() as int,
        ),
{
    let ghost base = claim_views(old(out)@);
    let ghost e = entry@;
    match entry {
        FabricEntry::Openfabric(x) => {
            let count: usize = x.node_count();
            let mut n: usize = 0;
            assert(claim_views(out@) =~= base + entry_claims(e, 0));
            while n < count
                invariant
                    n <= count,
                    count == x@.nodes.len(),
                    e == FabricEntryView::Openfabric(x@),
                    claim_views(out@) == base + entry_claims(e, n as int),
                decreases count - n,
            {
                let node = x.node_at(n);
                let key = x.node_key_at(n);
                let list = node.properties().interfaces();
                let ghost claims = node_claims(e, n as int);
                let ghost before = claim_views(out@);
                let mut k: usize = 0;
                assert(claim_views(out@) =~= before + claims.subrange(0, 0));
                while k < list.len()
                    invariant
                        k <= list.len(),
                        n < count,
                        count == x@.nodes.len(),
                        e == FabricEntryView::Openfabric(x@),
                        crate::views::views(list@) == x@.nodes[n as int].1.properties,
                        key@ == x@.nodes[n as int].0,
                        claims == node_claims(e, n as int),
                        claims.len() == list.len(),
                        claim_views(out@) == before + claims.subrange(0, k as int),
                    decreases list.len() - k,
                {
                    let claim = (key.to_text(), String::from_str(list[k].name().as_str()));
                    proof {
                        lemma_claims_push(out@, claim);
                        assert(crate::views::views(list@)[k as int] == list@[k as int]@);
                        assert(claims[k as int] == (claim.0@, claim.1@));
                        assert(claims.subrange(0, k + 1) =~= claims.subrange(0, k as int).push(
                            claims[k as int],
                        ));
                    }
                    out.push(claim);
                    assert(claim_views(out@) =~= before + claims.subrange(0, k + 1));
                    k = k + 1;
                }
                assert(claims.subrange(0, k as int) =~= claims);
                assert(claim_views(out@) =~= base + entry_claims(e, n + 1));
                n = n + 1;
            }
        },
        FabricEntry::Ospf(x) => {
            let count: usize = x.node_count();
            let mut n: usize = 0;
            assert(claim_views(out@) =~= base + entry_claims(e, 0));
            while n < count
                invariant
                    n <= count,
                    count == x@.nodes.len(),
                    e == FabricEntryView::Ospf(x@),
                    claim_views(out@) == base + entry_claims(e, n as int),
                decreases count - n,
            {
                let node = x.node_at(n);
                let key = x.node_key_at(n);
                let list = node.properties().interfaces();
                let ghost claims = node_claims(e, n as int);
                let ghost before = claim_views(out@);
                let mut k: usize = 0;
                assert(claim_views(out@) =~= before + claims.subrange(0, 0));
                while k < list.len()
                    invariant
                        k <= list.len(),
                        n < count,
                        count == x@.nodes.len(),
                        e == FabricEntryView::Ospf(x@),
                        crate::views::views(list@) == x@.nodes[n as int].1.properties,
                        key@ == x@.nodes[n as int].0,
                        claims == node_claims(e, n as int),
                        claims.len() == list.len(),
                        claim_views(out@) == before + claims.subrange(0, k as int),
                    decreases list.len() - k,
                {
                    let claim = (key.to_text(), String::from_str(list[k].name().as_str()));
                    proof {
                        lemma_claims_push(out@, claim);
                        assert(crate::views::views(list@)[k as int] == list@[k as int]@);
                        assert(claims[k as int] == (claim.0@, claim.1@));
                        assert(claims.subrange(0, k + 1) =~= claims.subrange(0, k as int).push(
                            claims[k as int],
                        ));
                    }
                    out.push(claim);
                    assert(claim_views(out@) =~= before + claims.subrange(0, k + 1));
                    k = k + 1;
                }
                assert(claims.subrange(0, k as int) =~= claims);
                assert(claim_views(out@) =~= base + entry_claims(e, n + 1));
                n = n + 1;
            }
        },
    }
}

/// Looks for an interface of a node that is claimed twice.
fn validate_claims(config: &FabricConfig) -> (r: bool)
    ensures
        r == has_duplicates(config_claims(config@, config@.len() as int)),
{
    let count: usize = config.len();
    let mut claims: Vec<(String, String)> = Vec::new();
    let mut i: usize = 0;
    assert(claim_views(claims@) =~= config_claims(config@, 0));
    while i < count
        invariant
            i <= count,
            count == config@.len(),
            claim_views(claims@) == config_claims(config@, i as int),
        decreases count - i,
    {
        collect_claims(config.entry_at(i), &mut claims);
        i = i + 1;
    }
    let ghost all = claim_views(claims@);
    let mut b: usize = 0;
    while b < claims.len()
        invariant
            b <= claims.len(),
            all == claim_views(claims@),
            all == config_claims(config@, config@.len() as int),
            forall|x: int, y: int| 0 <= x < y < b ==> #[trigger] all[x] != #[trigger] all[y],
        decreases claims.len() - b,
    {
        let mut a: usize = 0;
        while a < b
            invariant
                a <= b < claims.len(),
                all == claim_views(claims@),
                all == config_claims(config@, config@.len() as int),
                forall|x: int| 0 <= x < a ==> #[trigger] all[x] != all[b as int],
            decreases b - a,
        {
            if text_same(claims[a].0.as_str(), claims[b].0.as_str()) && text_same(
                claims[a].1.as_str(),
                claims[b].1.as_str(),
            ) {
                assert(all[a as int] == all[b as int]);
                return true;
            }
            a = a + 1;
        }
        b = b + 1;
    }
    false
}

impl Validatable for FabricConfig {
    type Error = FabricConfigError;

    open spec fn is_valid(&self) -> bool {
        check_config(self@) is Ok
    }

    open spec fn fails_with(&self, e: FabricConfigError) -> bool {
        check_config(self@) == Err::<(), FabricConfigErrorView>(e@)
    }

    /// Checks the whole configuration: no prefixes of different fabrics
    /// overlap, no two OSPF fabrics have the same area, no interface of a
    /// node is claimed twice, and every fabric with its nodes is in order.
    fn validate(&self) -> (r: Result<(), FabricConfigError>) {
        match validate_overlaps(self) {
            Some(e) => {
                return Err(e);
            },
            None => {},
        }
        if validate_areas(self) {
            return Err(FabricConfigError::DuplicateOspfArea);
        }
        if validate_claims(self) {
            return Err(FabricConfigError::DuplicateInterface);
        }
        let count: usize = self.len();
        let mut i: usize = 0;
        while i < count
            invariant
                i <= count,
                count == self@.len(),
                first_overlap_from(self@, 0) is None,
                !duplicate_area(self@),
                !has_duplicates(config_claims(self@, self@.len() as int)),
                check_entries_from(self@, i as int) == check_entries_from(self@, 0),
            decreases count - i,
        {
            match self.entry_at(i).validate() {
                Err(e) => {
                    return Err(e);
                },
                Ok(()) => {},
            }
            i = i + 1;
        }
        Ok(())
    }
}


/// A fabric with its nodes is in order: the fabric has a prefix, and an OSPF
/// fabric has one of version 4 and none of version 6; every node has an
/// address of exactly the families that the fabric has a prefix of, each
/// address within that prefix; and no two nodes have the same address.
pub open spec fn entry_in_order(e: FabricEntryView) -> bool {
    let f = e.fabric();
    &&& f.ip_prefix() is Some || f.ip6_prefix() is Some
    &&& e is Ospf ==> f.ip_prefix() is Some && f.ip6_prefix() is None
    &&& forall|n: int|
        0 <= n < e.node_count() ==> {
            let node = #[trigger] e.node(n);
            &&& f.ip_prefix() is Some <==> node.ip() is Some
            &&& f.ip6_prefix() is Some <==> node.ip6() is Some
            &&& node.ip() is Some ==> f.ip_prefix()->Some_0.contains(node.ip()->Some_0)
            &&& node.ip6() is Some ==> f.ip6_prefix()->Some_0.contains(node.ip6()->Some_0)
        }
    &&& forall|n: int, m: int|
        0 <= n < m < e.node_count() ==> {
            &&& !((#[trigger] e.node(n)).ip() is Some && e.node(n).ip() == (#[trigger] e.node(
                m,
            )).ip())
            &&& !(e.node(n).ip6() is Some && e.node(n).ip6() == e.node(m).ip6())
        }
}

/// A whole configuration is in order: no prefixes of two of its fabrics
/// overlap, no two OSPF fabrics have the same area, no interface of a node
/// is claimed twice, and every fabric with its nodes is in order.
pub open spec fn config_in_order(c: FabricConfigView) -> bool {
    &&& forall|i: int, j: int|
        0 <= i < j < c.len() ==> {
            let a = (#[trigger] c[i]).1.fabric();
            let b = (#[trigger] c[j]).1.fabric();
            &&& !(a.ip_prefix() is Some && b.ip_prefix() is Some
                && a.ip_prefix()->Some_0.overlaps_with(b.ip_prefix()->Some_0))
            &&& !(a.ip6_prefix() is Some && b.ip6_prefix() is Some
                && a.ip6_prefix()->Some_0.overlaps_with(b.ip6_prefix()->Some_0))
        }
    &&& !duplicate_area(c)
    &&& !has_duplicates(config_claims(c, c.len() as int))
    &&& forall|i: int| 0 <= i < c.len() ==> entry_in_order((#[trigger] c[i]).1)
}

/// A fabric that passes validation is in order.
pub proof fn lemma_valid_entry(e: FabricEntryView)
    requires
        check_entry(e) is Ok,
    ensures
        entry_in_order(e),
{
    match e {
        FabricEntryView::Openfabric(x) => {
            assert forall|n: int| 0 <= n < x.nodes.len() implies check_node_at(x, false, n)
                is Ok by {
                lemma_nodes_pass(x, false, 0, n);
            }
            assert forall|n: int, m: int| 0 <= n < m < e.node_count() implies {
                &&& !((#[trigger] e.node(n)).ip() is Some && e.node(n).ip() == (#[trigger] e.node(
                    m,
                )).ip())
                &&& !(e.node(n).ip6() is Some && e.node(n).ip6() == e.node(m).ip6())
            } by {
                assert(check_node_at(x, false, m) is Ok);
                assert(!ip_taken(x.nodes, m) && !ip6_taken(x.nodes, m));
                assert(x.nodes[n].1.ip == e.node(n).ip());
                assert(x.nodes[n].1.ip6 == e.node(n).ip6());
            }
            assert forall|n: int| 0 <= n < e.node_count() implies {
                let node = #[trigger] e.node(n);
                &&& e.fabric().ip_prefix() is Some <==> node.ip() is Some
                &&& e.fabric().ip6_prefix() is Some <==> node.ip6() is Some
                &&& node.ip() is Some ==> e.fabric().ip_prefix()->Some_0.contains(
                    node.ip()->Some_0,
                )
                &&& node.ip6() is Some ==> e.fabric().ip6_prefix()->Some_0.contains(
                    node.ip6()->Some_0,
                )
            } by {
                assert(check_node_at(x, false, n) is Ok);
            }
        },
        FabricEntryView::Ospf(x) => {
            assert forall|n: int| 0 <= n < x.nodes.len() implies check_node_at(x, true, n)
                is Ok by {
                lemma_nodes_pass(x, true, 0, n);
            }
            assert forall|n: int, m: int| 0 <= n < m < e.node_count() implies {
                &&& !((#[trigger] e.node(n)).ip() is Some && e.node(n).ip() == (#[trigger] e.node(
                    m,
                )).ip())
                &&& !(e.node(n).ip6() is Some && e.node(n).ip6() == e.node(m).ip6())
            } by {
                assert(check_node_at(x, true, m) is Ok);
                assert(!ip_taken(x.nodes, m) && !ip6_taken(x.nodes, m));
                assert(x.nodes[n].1.ip == e.node(n).ip());
                assert(x.nodes[n].1.ip6 == e.node(n).ip6());
            }
            assert forall|n: int| 0 <= n < e.node_count() implies {
                let node = #[trigger] e.node(n);
                &&& e.fabric().ip_prefix() is Some <==> node.ip() is Some
                &&& e.fabric().ip6_prefix() is Some <==> node.ip6() is Some
                &&& node.ip() is Some ==> e.fabric().ip_prefix()->Some_0.contains(
                    node.ip()->Some_0,
                )
                &&& node.ip6() is Some ==> e.fabric().ip6_prefix()->Some_0.contains(
                    node.ip6()->Some_0,
                )
            } by {
                assert(check_node_at(x, true, n) is Ok);
            }
        },
    }
}

/// A configuration that passes validation is in order. So validation
/// rejects a fabric without a prefix, a node with an address outside the
/// prefix of its fabric, fabrics whose prefixes overlap, OSPF fabrics that
/// share an area, nodes of a fabric that share an address, and an interface
/// of a node that is claimed twice.
pub proof fn lemma_valid_config(c: FabricConfigView)
    requires
        check_config(c) is Ok,
    ensures
        config_in_order(c),
{
    assert forall|i: int, j: int| 0 <= i < j < c.len() implies {
        let a = (#[trigger] c[i]).1.fabric();
        let b = (#[trigger] c[j]).1.fabric();
        &&& !(a.ip_prefix() is Some && b.ip_prefix() is Some
            && a.ip_prefix()->Some_0.overlaps_with(b.ip_prefix()->Some_0))
        &&& !(a.ip6_prefix() is Some && b.ip6_prefix() is Some
            && a.ip6_prefix()->Some_0.overlaps_with(b.ip6_prefix()->Some_0))
    } by {
        lemma_no_overlap(c, i, j);
    }
    assert forall|i: int| 0 <= i < c.len() implies entry_in_order((#[trigger] c[i]).1) by {
        lemma_entries_pass(c, 0, i);
        lemma_valid_entry(c[i].1);
    }
}


/// Where each node of a fabric from place `n` on passes, the nodes pass.
proof fn lemma_all_nodes_pass<F, P>(e: EntryView<F, P>, ospf: bool, n: int)
    requires
        0 <= n <= e.nodes.len(),
        forall|k: int| n <= k < e.nodes.len() ==> check_node_at(e, ospf, k) is Ok,
    ensures
        check_nodes_from(e, ospf, n) is Ok,
    decreases e.nodes.len() - n,
{
    if n < e.nodes.len() {
        assert(check_node_at(e, ospf, n) is Ok);
        lemma_all_nodes_pass(e, ospf, n + 1);
    }
}

/// A fabric that is in order passes validation.
pub proof fn lemma_entry_in_order_passes(e: FabricEntryView)
    requires
        entry_in_order(e),
    ensures
        check_entry(e) is Ok,
{
    match e {
        FabricEntryView::Openfabric(x) => {
            assert forall|k: int| 0 <= k < x.nodes.len() implies check_node_at(x, false, k)
                is Ok by {
                assert(e.node(k) == crate::sdn::fabric::section_config::node::NodeView::Openfabric(
                    x.nodes[k].1,
                ));
                assert forall|j: int| 0 <= j < k implies !(x.nodes[k].1.ip is Some && (
                #[trigger] x.nodes[j]).1.ip == x.nodes[k].1.ip) by {
                    assert(e.node(j).ip() == x.nodes[j].1.ip);
                    assert(e.node(k).ip() == x.nodes[k].1.ip);
                }
                assert forall|j: int| 0 <= j < k implies !(x.nodes[k].1.ip6 is Some && (
                #[trigger] x.nodes[j]).1.ip6 == x.nodes[k].1.ip6) by {
                    assert(e.node(j).ip6() == x.nodes[j].1.ip6);
                    assert(e.node(k).ip6() == x.nodes[k].1.ip6);
                }
            }
            lemma_all_nodes_pass(x, false, 0);
        },
        FabricEntryView::Ospf(x) => {
            assert forall|k: int| 0 <= k < x.nodes.len() implies check_node_at(x, true, k)
                is Ok by {
                assert(e.node(k) == crate::sdn::fabric::section_config::node::NodeView::Ospf(
                    x.nodes[k].1,
                ));
                assert forall|j: int| 0 <= j < k implies !(x.nodes[k].1.ip is Some && (
                #[trigger] x.nodes[j]).1.ip == x.nodes[k].1.ip) by {
                    assert(e.node(j).ip() == x.nodes[j].1.ip);
                    assert(e.node(k).ip() == x.nodes[k].1.ip);
                }
                assert forall|j: int| 0 <= j < k implies !(x.nodes[k].1.ip6 is Some && (
                #[trigger] x.nodes[j]).1.ip6 == x.nodes[k].1.ip6) by {
                    assert(e.node(j).ip6() == x.nodes[j].1.ip6);
                    assert(e.node(k).ip6() == x.nodes[k].1.ip6);
                }
            }
            lemma_all_nodes_pass(x, true, 0);
        },
    }
}

proof fn lemma_none_overlap_with(c: FabricConfigView, i: int, j: int)
    requires
        0 <= i < j <= c.len(),
        forall|a: int, b: int| 0 <= a < b < c.len() ==> overlap_of(
            #[trigger] c[a].1,
            #[trigger] c[b].1,
        ) is None,
    ensures
        first_overlap_with(c, i, j) is None,
    decreases c.len() - j,
{
    if j < c.len() {
        assert(overlap_of(c[i].1, c[j].1) is None);
        lemma_none_overlap_with(c, i, j + 1);
    }
}

proof fn lemma_none_overlap_from(c: FabricConfigView, i: int)
    requires
        0 <= i <= c.len(),
        forall|a: int, b: int| 0 <= a < b < c.len() ==> overlap_of(
            #[trigger] c[a].1,
            #[trigger] c[b].1,
        ) is None,
    ensures
        first_overlap_from(c, i) is None,
    decreases c.len() - i,
{
    if i < c.len() {
        lemma_none_overlap_with(c, i, i + 1);
        lemma_none_overlap_from(c, i + 1);
    }
}

proof fn lemma_all_entries_pass(c: FabricConfigView, i: int)
    requires
        0 <= i <= c.len(),
        forall|k: int| 0 <= k < c.len() ==> check_entry((#[trigger] c[k]).1) is Ok,
    ensures
        check_entries_from(c, i) is Ok,
    decreases c.len() - i,
{
    if i < c.len() {
        assert(check_entry(c[i].1) is Ok);
        lemma_all_entries_pass(c, i + 1);
    }
}

/// A configuration passes validation exactly when it is in order.
pub proof fn lemma_valid_iff_in_order(c: FabricConfigView)
    ensures
        check_config(c) is Ok <==> config_in_order(c),
{
    if check_config(c) is Ok {
        lemma_valid_config(c);
    }
    if config_in_order(c) {
        assert forall|a: int, b: int| 0 <= a < b < c.len() implies overlap_of(
            #[trigger] c[a].1,
            #[trigger] c[b].1,
        ) is None by {
            assert(c[a].1.fabric() == c[a].1.fabric());
        }
        lemma_none_overlap_from(c, 0);
        assert forall|k: int| 0 <= k < c.len() implies check_entry((#[trigger] c[k]).1) is Ok by {
            lemma_entry_in_order_passes(c[k].1);
        }
        lemma_all_entries_pass(c, 0);
    }
}


impl Clone for Valid<FabricConfig> {
    /// A copy of the valid configuration, valid as well.
    fn clone(&self) -> (r: Self)
        ensures
            r.inner()@ == self.inner()@,
    {
        let copy = self.get().clone();
        match Valid::into_valid(copy) {
            Ok(valid) => valid,
            Err(_) => vstd::pervasive::unreached(),
        }
    }
}

} // verus!
