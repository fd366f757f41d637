//! Access-lists, route-maps and their bindings to protocols.

use vstd::prelude::*;
use crate::ip_address::cidr::Cidr;
use crate::ip_address::IpAddr;
use crate::ordered::SortKey;
use crate::text::{
    code_points, lemma_code_points_injective, lemma_seq_lt_tagged, text_precedes, text_same,
};
use crate::views::views;

verus! {

/// What a rule does with what it matches: permit takes it, deny leaves it.
#[derive(Clone, Copy, Debug, PartialEq, Eq, Structural)]
pub enum AccessAction {
    Permit,
    Deny,
}

/// One rule of an access-list: an action, the network it applies to and,
/// where rules have to be told apart, a sequence number.
#[derive(Clone, Copy, Debug, PartialEq, Eq, Structural)]
pub struct AccessListRule {
    pub action: AccessAction,
    pub network: Cidr,
    pub seq: Option<u32>,
}

impl View for AccessListRule {
    type V = AccessListRule;

    open spec fn view(&self) -> AccessListRule {
        *self
    }
}

/// The name of an access-list.
#[derive(Debug, PartialEq, Eq, PartialOrd, Ord)]
pub struct AccessListName(String);

impl View for AccessListName {
    type V = Seq<char>;

    closed spec fn view(&self) -> Seq<char> {
        self.0@
    }
}

impl Clone for AccessListName {
    fn clone(&self) -> (r: Self)
        ensures
            r == *self,
    {
        AccessListName(self.0.clone())
    }
}

impl AccessListName {
    pub fn new(name: String) -> (r: AccessListName)
        ensures
            r@ == name@,
    {
        AccessListName(name)
    }

    pub fn as_str(&self) -> (r: &str)
        ensures
            r@ == self@,
    {
        self.0.as_str()
    }
}

/// An access-list: a name and its rules.
#[derive(Clone, Debug, PartialEq, Eq)]
pub struct AccessList {
    pub name: AccessListName,
    pub rules: Vec<AccessListRule>,
}

/// The view of an access-list.
pub struct AccessListView {
    pub name: Seq<char>,
    pub rules: Seq<AccessListRule>,
}

impl View for AccessList {
    type V = AccessListView;

    open spec fn view(&self) -> AccessListView {
        AccessListView { name: self.name@, rules: self.rules@ }
    }
}

/// What a route-map matches on, for either address family.
#[derive(Clone, Debug, PartialEq, Eq)]
pub enum RouteMapMatchInner {
    IpAddress(AccessListName),
    IpNextHop(String),
}

/// The view of what a route-map matches on.
pub enum RouteMapMatchInnerView {
    IpAddress(Seq<char>),
    IpNextHop(Seq<char>),
}

impl View for RouteMapMatchInner {
    type V = RouteMapMatchInnerView;

    open spec fn view(&self) -> RouteMapMatchInnerView {
        match self {
            RouteMapMatchInner::IpAddress(n) => RouteMapMatchInnerView::IpAddress(n@),
            RouteMapMatchInner::IpNextHop(n) => RouteMapMatchInnerView::IpNextHop(n@),
        }
    }
}

/// A match statement of a route-map, for version 4 or for version 6.
#[derive(Clone, Debug, PartialEq, Eq)]
pub enum RouteMapMatch {
    V4(RouteMapMatchInner),
    V6(RouteMapMatchInner),
}

/// The view of a match statement.
pub enum RouteMapMatchView {
    V4(RouteMapMatchInnerView),
    V6(RouteMapMatchInnerView),
}

impl View for RouteMapMatch {
    type V = RouteMapMatchView;

    open spec fn view(&self) -> RouteMapMatchView {
        match self {
            RouteMapMatch::V4(m) => RouteMapMatchView::V4(m@),
            RouteMapMatch::V6(m) => RouteMapMatchView::V6(m@),
        }
    }
}

/// What a route-map does to a route that it matches.
#[derive(Clone, Debug, PartialEq, Eq)]
pub enum RouteMapSet {
    LocalPreference(u32),
    IpSrc(IpAddr),
    Metric(u32),
    Community(String),
}

/// The view of what a route-map does.
pub enum RouteMapSetView {
    LocalPreference(u32),
    IpSrc(IpAddr),
    Metric(u32),
    Community(Seq<char>),
}

impl View for RouteMapSet {
    type V = RouteMapSetView;

    open spec fn view(&self) -> RouteMapSetView {
        match self {
            RouteMapSet::LocalPreference(n) => RouteMapSetView::LocalPreference(*n),
            RouteMapSet::IpSrc(a) => RouteMapSetView::IpSrc(*a),
            RouteMapSet::Metric(n) => RouteMapSetView::Metric(*n),
            RouteMapSet::Community(c) => RouteMapSetView::Community(c@),
        }
    }
}

/// The name of a route-map.
#[derive(Debug, PartialEq, Eq, PartialOrd, Ord, Hash)]
pub struct RouteMapName(String);

impl View for RouteMapName {
    type V = Seq<char>;

    closed spec fn view(&self) -> Seq<char> {
        self.0@
    }
}

impl Clone for RouteMapName {
    fn clone(&self) -> (r: Self)
        ensures
            r == *self,
    {
        RouteMapName(self.0.clone())
    }
}

impl RouteMapName {
    pub fn new(name: String) -> (r: RouteMapName)
        ensures
            r@ == name@,
    {
        RouteMapName(name)
    }

    pub fn as_str(&self) -> (r: &str)
        ensures
            r@ == self@,
    {
        self.0.as_str()
    }
}

/// One entry of a route-map: the name of the map, the sequence number of
/// the entry, its action, what it matches and what it sets.
#[derive(Clone, Debug, PartialEq, Eq)]
pub struct RouteMap {
    pub name: RouteMapName,
    pub seq: u32,
    pub action: AccessAction,
    pub matches: Vec<RouteMapMatch>,
    pub sets: Vec<RouteMapSet>,
}

/// The view of an entry of a route-map.
pub struct RouteMapView {
    pub name: Seq<char>,
    pub seq: u32,
    pub action: AccessAction,
    pub matches: Seq<RouteMapMatchView>,
    pub sets: Seq<RouteMapSetView>,
}

impl View for RouteMap {
    type V = RouteMapView;

    open spec fn view(&self) -> RouteMapView {
        RouteMapView {
            name: self.name@,
            seq: self.seq,
            action: self.action,
            matches: views(self.matches@),
            sets: views(self.sets@),
        }
    }
}

/// The protocols that a route-map can be bound to.
#[derive(Clone, Copy, Debug, PartialEq, Eq, Structural, PartialOrd, Ord, Hash)]
pub enum ProtocolType {
    Openfabric,
    Ospf,
}

/// The binding of a route-map to a protocol, for one address family.
#[derive(Clone, Debug, PartialEq, Eq, PartialOrd, Ord, Hash)]
pub struct ProtocolRouteMap {
    pub is_ipv6: bool,
    pub protocol: ProtocolType,
    pub routemap_name: RouteMapName,
}

/// The view of a binding.
pub struct ProtocolRouteMapView {
    pub is_ipv6: bool,
    pub protocol: ProtocolType,
    pub routemap_name: Seq<char>,
}

impl View for ProtocolRouteMap {
    type V = ProtocolRouteMapView;

    open spec fn view(&self) -> ProtocolRouteMapView {
        ProtocolRouteMapView {
            is_ipv6: self.is_ipv6,
            protocol: self.protocol,
            routemap_name: self.routemap_name@,
        }
    }
}

/// The place of a binding's family and protocol in the order of bindings:
/// version 4 before version 6, then OpenFabric before OSPF.
pub open spec fn binding_tag(is_ipv6: bool, protocol: ProtocolType) -> int {
    (if is_ipv6 { 2int } else { 0int }) + (match protocol {
        ProtocolType::Openfabric => 0int,
        ProtocolType::Ospf => 1int,
    })
}

impl SortKey for ProtocolRouteMap {
    open spec fn rank(v: ProtocolRouteMapView) -> Seq<int> {
        seq![binding_tag(v.is_ipv6, v.protocol)] + code_points(v.routemap_name)
    }

    proof fn lemma_rank_injective(a: ProtocolRouteMapView, b: ProtocolRouteMapView) {
        let ra = Self::rank(a);
        let rb = Self::rank(b);
        assert(ra[0] == rb[0]);
        assert(code_points(a.routemap_name) =~= ra.subrange(1, ra.len() as int));
        assert(code_points(b.routemap_name) =~= rb.subrange(1, rb.len() as int));
        lemma_code_points_injective(a.routemap_name, b.routemap_name);
    }

    fn precedes(&self, other: &Self) -> (r: bool) {
        proof {
            lemma_seq_lt_tagged(
                binding_tag(self.is_ipv6, self.protocol),
                code_points(self.routemap_name@),
                binding_tag(other.is_ipv6, other.protocol),
                code_points(other.routemap_name@),
            );
        }
        let a: u8 = tag_of(self.is_ipv6, self.protocol);
        let b: u8 = tag_of(other.is_ipv6, other.protocol);
        if a < b {
            true
        } else if a > b {
            false
        } else {
            text_precedes(self.routemap_name.as_str(), other.routemap_name.as_str())
        }
    }

    fn same(&self, other: &Self) -> (r: bool) {
        let a: u8 = tag_of(self.is_ipv6, self.protocol);
        let b: u8 = tag_of(other.is_ipv6, other.protocol);
        a == b && text_same(self.routemap_name.as_str(), other.routemap_name.as_str())
    }
}

/// The place of a binding's family and protocol in the order of bindings.
pub fn tag_of(is_ipv6: bool, protocol: ProtocolType) -> (t: u8)
    ensures
        t == binding_tag(is_ipv6, protocol),
{
    let family: u8 = if is_ipv6 { 2 } else { 0 };
    let proto: u8 = match protocol {
        ProtocolType::Openfabric => 0,
        ProtocolType::Ospf => 1,
    };
    family + proto
}

} // verus!
