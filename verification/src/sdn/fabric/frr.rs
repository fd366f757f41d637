//! The compilation of a fabric configuration into the records of the
//! routing daemon, for one node.
//!
//! The fabrics are taken in ascending order of their names. A fabric in
//! which the node does not take part adds nothing. The router of an
//! OpenFabric fabric has the network entity title of the node's address in
//! that fabric. The sequence numbers of the route-map entries and the OSPF
//! router identifier are carried from fabric to fabric: sequence numbers
//! start at 100 and go up by 10, and the identifier is the node's address
//! in the first OSPF fabric in which it takes part.

use vstd::prelude::*;
use crate::common::valid::Valid;
use crate::frr::openfabric::{
    OpenfabricInterface, OpenfabricInterfaceView as RecordOpenfabricInterfaceView,
    OpenfabricRouter, OpenfabricRouterName,
};
use crate::frr::ospf::{
    is_area_text, Area as RecordArea, AreaParsingError, NetworkType, OspfInterface,
    OspfInterfaceView as RecordOspfInterfaceView, OspfRouter, OspfRouterName,
};
use crate::frr::route_map::{
    AccessAction, AccessList, AccessListName, AccessListRule, AccessListView, ProtocolRouteMap,
    ProtocolRouteMapView, ProtocolType, RouteMap, RouteMapMatch, RouteMapMatchInner,
    RouteMapMatchInnerView, RouteMapMatchView, RouteMapName, RouteMapSet, RouteMapSetView,
    RouteMapView,
};
use crate::frr::serializer::{config_text, router_name_text};
use crate::frr::{
    is_frr_word, plain_chars, CommonInterfaceName, CommonInterfaceNameError, FrrConfig,
    FrrConfigView, FrrWord, FrrWordError, Interface, InterfaceName, InterfaceNameView,
    InterfaceView, Router, RouterName, RouterNameView, RouterView,
};
use crate::ip_address::cidr::Cidr;
use crate::ip_address::{IpAddr, Ipv4Addr};
use crate::ordered::{has_key, lemma_position_from, lookup, position, put};
use crate::sdn::fabric::validation::{
    check_config, check_entry, check_node_at, lemma_entries_pass, lemma_nodes_pass,
};
use crate::sdn_types::area::lemma_area_text;
use crate::sdn::fabric::section_config::fabric::FabricId;
use crate::sdn::fabric::section_config::interface::is_interface_name;
use crate::sdn::fabric::section_config::is_label;
use crate::sdn::fabric::section_config::node::{NodeId, NodeSectionView};
use crate::sdn::fabric::section_config::protocol::openfabric::{
    OpenfabricInterfaceProperties, OpenfabricInterfaceView, OpenfabricProperties,
};
use crate::sdn::fabric::section_config::protocol::ospf::{
    OspfInterfaceProperties, OspfInterfaceView, OspfProperties,
};
use crate::sdn::fabric::section_config::protocol::openfabric::OpenfabricNodeProperties;
use crate::sdn::fabric::section_config::protocol::ospf::OspfNodeProperties;
use crate::sdn::fabric::{
    Entry, EntryView, FabricConfig, FabricConfigView, FabricEntry, FabricEntryView,
};
use crate::sdn_types::net::{net_of_ipv4, net_of_ipv6, Net, NetView};
use crate::text::{is_alphanumeric, is_ascii_char, is_whitespace};
use crate::views::{byte_len, lemma_ascii_byte_len, lemma_views_push, views};

verus! {

/// Why a configuration could not be compiled for a node.
#[derive(Clone, Copy, Debug, PartialEq, Eq, Structural)]
pub enum CompileError {
    /// The node has no address in an OpenFabric fabric, so that no network
    /// entity title can be made.
    NoAddress,
    /// The node has no address of version 4 in an OSPF fabric.
    MissingIpv4Address,
    /// An OSPF fabric has no prefix of version 4.
    MissingIpv4Prefix,
    /// A text is no word of the daemon's language.
    Word(FrrWordError),
    /// A text is no interface name.
    InterfaceName(CommonInterfaceNameError),
    /// A word is no area.
    Area(AreaParsingError),
    /// A fabric needs more sequence numbers for its route-map entries than
    /// are left.
    TooManyFabrics,
}

/// What compilation found and went on from: a record was there already
/// and has been replaced.
#[derive(Clone, Debug, PartialEq, Eq)]
pub enum CompileWarning {
    /// An interface with the name of a fabric's dummy interface was there.
    DummyInterfaceExists(String),
    /// An interface of the node was there, claimed by another fabric.
    InterfaceClaimedTwice(String),
    /// Another router was there under the name, given as the daemon reads
    /// it.
    RouterReplaced(String),
}

/// The view of a warning.
pub enum CompileWarningView {
    DummyInterfaceExists(Seq<char>),
    InterfaceClaimedTwice(Seq<char>),
    RouterReplaced(Seq<char>),
}

impl View for CompileWarning {
    type V = CompileWarningView;

    open spec fn view(&self) -> CompileWarningView {
        match self {
            CompileWarning::DummyInterfaceExists(n) => CompileWarningView::DummyInterfaceExists(n@),
            CompileWarning::InterfaceClaimedTwice(n) => CompileWarningView::InterfaceClaimedTwice(
                n@,
            ),
            CompileWarning::RouterReplaced(n) => CompileWarningView::RouterReplaced(n@),
        }
    }
}

/// What compilation has reached between two fabrics: the records so far,
/// the next sequence number, the OSPF router identifier where a fabric has
/// set it, and the warnings so far.
pub struct CompileState {
    pub config: FrrConfigView,
    pub seq: u32,
    pub router_id: Option<Ipv4Addr>,
    pub warnings: Seq<CompileWarningView>,
}

/// The state that compilation starts from.
pub open spec fn initial_state(config: FrrConfigView) -> CompileState {
    CompileState { config, seq: 100, router_id: None, warnings: Seq::empty() }
}

/// The name of the dummy interface of a fabric.
pub open spec fn dummy_name(id: Seq<char>) -> Seq<char> {
    "dummy_"@ + id
}

/// The name of the access-list of an OpenFabric fabric for one family.
pub open spec fn openfabric_list_name(id: Seq<char>, v6: bool) -> Seq<char> {
    if v6 {
        "pve_openfabric_"@ + id + "_ip6s"@
    } else {
        "pve_openfabric_"@ + id + "_ips"@
    }
}

/// The name of the access-list of an OSPF fabric.
pub open spec fn ospf_list_name(id: Seq<char>) -> Seq<char> {
    "pve_ospf_"@ + id + "_ips"@
}

/// The name of the route-map of OpenFabric for one family.
pub open spec fn openfabric_map_name(v6: bool) -> Seq<char> {
    if v6 {
        "pve_openfabric6"@
    } else {
        "pve_openfabric"@
    }
}

/// The access-list that permits one network.
pub open spec fn permit_list(name: Seq<char>, network: Cidr) -> AccessListView {
    AccessListView {
        name,
        rules: seq![AccessListRule { action: AccessAction::Permit, network, seq: None }],
    }
}

/// The route-map entry that matches on an access-list and sets the source
/// address of the routes.
pub open spec fn source_map(name: Seq<char>, list: Seq<char>, source: IpAddr, seq: u32) -> RouteMapView {
    RouteMapView {
        name,
        seq,
        action: AccessAction::Permit,
        matches: seq![
            match source {
                IpAddr::V4(_) => RouteMapMatchView::V4(RouteMapMatchInnerView::IpAddress(list)),
                IpAddr::V6(_) => RouteMapMatchView::V6(RouteMapMatchInnerView::IpAddress(list)),
            },
        ],
        sets: seq![RouteMapSetView::IpSrc(source)],
    }
}

/// The state with an interface record put in. Where a record of the name
/// was there, the new one takes its place and the warning is added.
pub open spec fn with_interface(
    s: CompileState,
    name: InterfaceNameView,
    record: InterfaceView,
    warning: CompileWarningView,
) -> CompileState {
    CompileState {
        config: FrrConfigView {
            interfaces: put::<InterfaceName, _>(s.config.interfaces, name, record),
            ..s.config
        },
        warnings: if has_key(s.config.interfaces, name) {
            s.warnings.push(warning)
        } else {
            s.warnings
        },
        ..s
    }
}

/// A router of the name is there and differs from the record.
pub open spec fn replaces_router(s: CompileState, name: RouterNameView, record: RouterView) -> bool {
    lookup(s.config.router, name) is Some && lookup(s.config.router, name)->Some_0 != record
}

/// The state with a router record put in. Where another router of the name
/// was there, the new one takes its place and a warning names it; where
/// the same router was there, nothing is noted.
pub open spec fn with_router(s: CompileState, name: RouterNameView, record: RouterView) -> CompileState {
    CompileState {
        config: FrrConfigView {
            router: put::<RouterName, _>(s.config.router, name, record),
            ..s.config
        },
        warnings: if replaces_router(s, name, record) {
            s.warnings.push(CompileWarningView::RouterReplaced(router_name_text(name)))
        } else {
            s.warnings
        },
        ..s
    }
}

/// The state with an access-list added.
pub open spec fn with_list(s: CompileState, list: AccessListView) -> CompileState {
    CompileState {
        config: FrrConfigView { access_lists: s.config.access_lists.push(list), ..s.config },
        ..s
    }
}

/// The state with a route-map entry of the next sequence number added and
/// bound to the protocol, and the sequence number moved on by 10.
pub open spec fn with_source_map(
    s: CompileState,
    name: Seq<char>,
    list: Seq<char>,
    protocol: ProtocolType,
    source: IpAddr,
) -> CompileState {
    CompileState {
        config: FrrConfigView {
            routemaps: s.config.routemaps.push(source_map(name, list, source, s.seq)),
            protocol_routemaps: put::<ProtocolRouteMap, _>(
                s.config.protocol_routemaps,
                ProtocolRouteMapView { is_ipv6: source is V6, protocol, routemap_name: name },
                (),
            ),
            ..s.config
        },
        seq: (s.seq + 10) as u32,
        ..s
    }
}

/// The dummy interface of an OpenFabric fabric: passive, with the flags of
/// the families in which the node takes part.
pub open spec fn openfabric_dummy(id: Seq<char>, v4: bool, v6: bool) -> InterfaceView {
    InterfaceView::Openfabric(
        RecordOpenfabricInterfaceView {
            fabric_id: id,
            passive: Some(true),
            hello_interval: None,
            csnp_interval: None,
            hello_multiplier: None,
            is_ipv4: v4,
            is_ipv6: v6,
        },
    )
}

/// The record of an interface of an OpenFabric node: the intervals of the
/// fabric, the multiplier of the interface, and the flags of the families in
/// which the node takes part.
pub open spec fn openfabric_member(
    id: Seq<char>,
    fabric: OpenfabricProperties,
    interface: OpenfabricInterfaceView,
    v4: bool,
    v6: bool,
) -> InterfaceView {
    InterfaceView::Openfabric(
        RecordOpenfabricInterfaceView {
            fabric_id: id,
            passive: None,
            hello_interval: fabric.hello_interval,
            csnp_interval: fabric.csnp_interval,
            hello_multiplier: interface.hello_multiplier,
            is_ipv4: v4,
            is_ipv6: v6,
        },
    )
}

/// The dummy interface of an OSPF fabric: passive, in the area of the
/// fabric.
pub open spec fn ospf_dummy(area: Seq<char>) -> InterfaceView {
    InterfaceView::Ospf(RecordOspfInterfaceView { area, passive: Some(true), network_type: None })
}

/// The record of an interface of an OSPF node: in the area of the fabric,
/// and point-to-point where the interface has no address of its own.
pub open spec fn ospf_member(area: Seq<char>, interface: OspfInterfaceView) -> InterfaceView {
    InterfaceView::Ospf(
        RecordOspfInterfaceView {
            area,
            passive: None,
            network_type: if interface.ip is Some {
                None
            } else {
                Some(NetworkType::PointToPoint)
            },
        },
    )
}

/// The state with the first `k` interfaces of an OpenFabric node put in.
pub open spec fn with_openfabric_members(
    s: CompileState,
    id: Seq<char>,
    fabric: OpenfabricProperties,
    interfaces: Seq<OpenfabricInterfaceView>,
    v4: bool,
    v6: bool,
    k: int,
) -> CompileState
    decreases k,
{
    if k <= 0 {
        s
    } else {
        with_interface(
            with_openfabric_members(s, id, fabric, interfaces, v4, v6, k - 1),
            InterfaceNameView::Openfabric(interfaces[k - 1].name),
            openfabric_member(id, fabric, interfaces[k - 1], v4, v6),
            CompileWarningView::InterfaceClaimedTwice(interfaces[k - 1].name),
        )
    }
}

/// The state with the first `k` interfaces of an OSPF node put in.
pub open spec fn with_ospf_members(
    s: CompileState,
    area: Seq<char>,
    interfaces: Seq<OspfInterfaceView>,
    k: int,
) -> CompileState
    decreases k,
{
    if k <= 0 {
        s
    } else {
        with_interface(
            with_ospf_members(s, area, interfaces, k - 1),
            InterfaceNameView::Ospf(interfaces[k - 1].name),
            ospf_member(area, interfaces[k - 1]),
            CompileWarningView::InterfaceClaimedTwice(interfaces[k - 1].name),
        )
    }
}

/// The network entity title of a node in an OpenFabric fabric: that of its
/// address of version 4 in the fabric, else that of its address of version
/// 6, and none where it has no address.
pub open spec fn title_for<P>(node: NodeSectionView<P>) -> Option<NetView> {
    match (node.ip, node.ip6) {
        (Some(ip), _) => Some(net_of_ipv4(ip.0)),
        (None, Some(ip6)) => Some(net_of_ipv6(ip6.0)),
        (None, None) => None,
    }
}

/// The number of route-map entries that an OpenFabric fabric adds for a
/// node: one for each of its addresses.
pub open spec fn maps_needed<P>(node: NodeSectionView<P>) -> int {
    (if node.ip is Some {
        1int
    } else {
        0int
    }) + (if node.ip6 is Some {
        1int
    } else {
        0int
    })
}

/// What an OpenFabric fabric adds for the node: nothing where the node does
/// not take part; else the router of the fabric, with the title of the
/// node's address in this fabric, its dummy interface, the interfaces of
/// the node, an access-list for each prefix of the fabric, and for each
/// address of the node a route-map entry that sets it as the source
/// address. The node needs an address, and each route-map entry a sequence
/// number; nothing is added where one is missing.
pub open spec fn compile_openfabric(
    s: CompileState,
    id: Seq<char>,
    e: EntryView<OpenfabricProperties, Seq<OpenfabricInterfaceView>>,
    node: Seq<char>,
) -> Result<CompileState, CompileError> {
    match lookup(e.nodes, node) {
        None => Ok(s),
        Some(n) => match title_for(n) {
            None => Err(CompileError::NoAddress),
            Some(net) => if s.seq + 10 * maps_needed(n) > u32::MAX {
                Err(CompileError::TooManyFabrics)
            } else {
                let v4 = n.ip is Some;
                let v6 = n.ip6 is Some;
                let s1 = with_router(
                    s,
                    RouterNameView::Openfabric(id),
                    RouterView::Openfabric(net),
                );
                let s2 = with_interface(
                    s1,
                    InterfaceNameView::Openfabric(dummy_name(id)),
                    openfabric_dummy(id, v4, v6),
                    CompileWarningView::DummyInterfaceExists(dummy_name(id)),
                );
                let s3 = with_openfabric_members(
                    s2,
                    id,
                    e.fabric.properties,
                    n.properties,
                    v4,
                    v6,
                    n.properties.len() as int,
                );
                let s4 = match e.fabric.ip_prefix {
                    Some(p) => with_list(
                        s3,
                        permit_list(openfabric_list_name(id, false), Cidr::Ipv4(p)),
                    ),
                    None => s3,
                };
                let s5 = match e.fabric.ip6_prefix {
                    Some(p) => with_list(
                        s4,
                        permit_list(openfabric_list_name(id, true), Cidr::Ipv6(p)),
                    ),
                    None => s4,
                };
                let s6 = match n.ip {
                    Some(ip) => with_source_map(
                        s5,
                        openfabric_map_name(false),
                        openfabric_list_name(id, false),
                        ProtocolType::Openfabric,
                        IpAddr::V4(ip),
                    ),
                    None => s5,
                };
                let s7 = match n.ip6 {
                    Some(ip) => with_source_map(
                        s6,
                        openfabric_map_name(true),
                        openfabric_list_name(id, true),
                        ProtocolType::Openfabric,
                        IpAddr::V6(ip),
                    ),
                    None => s6,
                };
                Ok(s7)
            },
        },
    }
}

/// Why the text of an area is no word, if it is none.
pub open spec fn word_error(s: Seq<char>) -> Option<FrrWordError> {
    if s.len() == 0 {
        Some(FrrWordError::IsEmpty)
    } else if !plain_chars(s) {
        Some(FrrWordError::InvalidCharacter)
    } else {
        None
    }
}

/// What an OSPF fabric adds for the node: nothing where the node does not
/// take part; else the one OSPF router, with the identifier that is set or
/// else the node's address, the dummy interface of the fabric, the
/// interfaces of the node, an access-list for the prefix of the fabric and a
/// route-map entry that sets the node's address as the source address. The
/// node needs an address of version 4, the fabric a prefix of version 4 and
/// an area that the daemon takes, and the route-map entry a sequence
/// number; nothing is added where one is missing.
pub open spec fn compile_ospf(
    s: CompileState,
    id: Seq<char>,
    e: EntryView<OspfProperties, Seq<OspfInterfaceView>>,
    node: Seq<char>,
) -> Result<CompileState, CompileError> {
    match lookup(e.nodes, node) {
        None => Ok(s),
        Some(n) => {
            let area = e.fabric.properties.area.text();
            if n.ip is None {
                Err(CompileError::MissingIpv4Address)
            } else if e.fabric.ip_prefix is None {
                Err(CompileError::MissingIpv4Prefix)
            } else if word_error(area) is Some {
                Err(CompileError::Word(word_error(area)->Some_0))
            } else if !is_area_text(area) {
                Err(CompileError::Area(AreaParsingError::InvalidArea))
            } else if s.seq + 10 > u32::MAX {
                Err(CompileError::TooManyFabrics)
            } else {
                let ip = n.ip->Some_0;
                let router_id = match s.router_id {
                    Some(r) => r,
                    None => ip,
                };
                let s0 = CompileState { router_id: Some(router_id), ..s };
                let s1 = with_router(
                    s0,
                    RouterNameView::Ospf,
                    RouterView::Ospf(OspfRouter { router_id }),
                );
                let s2 = with_interface(
                    s1,
                    InterfaceNameView::Openfabric(dummy_name(id)),
                    ospf_dummy(area),
                    CompileWarningView::DummyInterfaceExists(dummy_name(id)),
                );
                let s3 = with_ospf_members(s2, area, n.properties, n.properties.len() as int);
                let s4 = with_list(
                    s3,
                    permit_list(ospf_list_name(id), Cidr::Ipv4(e.fabric.ip_prefix->Some_0)),
                );
                let s5 = with_source_map(
                    s4,
                    "pve_ospf"@,
                    ospf_list_name(id),
                    ProtocolType::Ospf,
                    IpAddr::V4(ip),
                );
                Ok(s5)
            }
        },
    }
}

/// What a fabric adds for the node.
pub open spec fn compile_entry(
    s: CompileState,
    id: Seq<char>,
    e: FabricEntryView,
    node: Seq<char>,
) -> Result<CompileState, CompileError> {
    match e {
        FabricEntryView::Openfabric(x) => compile_openfabric(s, id, x, node),
        FabricEntryView::Ospf(x) => compile_ospf(s, id, x, node),
    }
}

/// What the fabrics from place `i` on add for the node: the state that is
/// reached, and the error that stopped compilation where one did. A fabric
/// that cannot be compiled adds nothing, and no fabric behind it is looked
/// at.
pub open spec fn compile_from(s: CompileState, c: FabricConfigView, node: Seq<char>, i: int) -> (
    CompileState,
    Option<CompileError>,
)
    decreases c.len() - i,
{
    if i < 0 || i >= c.len() {
        (s, None)
    } else {
        match compile_entry(s, c[i].0, c[i].1, node) {
            Err(e) => (s, Some(e)),
            Ok(next) => compile_from(next, c, node, i + 1),
        }
    }
}

/// What compiling a configuration for a node adds to the records that are
/// there.
pub open spec fn compile(records: FrrConfigView, c: FabricConfigView, node: Seq<char>) -> (
    CompileState,
    Option<CompileError>,
) {
    compile_from(initial_state(records), c, node, 0)
}

/// Compiling the same configuration for the same node, on the same records,
/// gives the same records, the same warnings and the same outcome, and so
/// the same text, character by character.
pub proof fn lemma_compile_deterministic(
    records: FrrConfigView,
    c: FabricConfigView,
    node: Seq<char>,
    first: (CompileState, Option<CompileError>),
    second: (CompileState, Option<CompileError>),
)
    requires
        first == compile(records, c, node),
        second == compile(records, c, node),
    ensures
        first == second,
        config_text(first.0.config) == config_text(second.0.config),
{
}

/// A fabric in which the node does not take part adds nothing.
pub proof fn lemma_absent_node_adds_nothing(
    s: CompileState,
    id: Seq<char>,
    e: FabricEntryView,
    node: Seq<char>,
)
    requires
        e.node_position(node) is None,
    ensures
        compile_entry(s, id, e, node) == Ok::<CompileState, CompileError>(s),
{
}

/// A configuration none of whose fabrics has the node adds nothing.
pub proof fn lemma_absent_everywhere(s: CompileState, c: FabricConfigView, node: Seq<char>, i: int)
    requires
        0 <= i <= c.len(),
        forall|k: int| 0 <= k < c.len() ==> (#[trigger] c[k]).1.node_position(node) is None,
    ensures
        compile_from(s, c, node, i) == (s, None::<CompileError>),
    decreases c.len() - i,
{
    if i < c.len() {
        lemma_absent_node_adds_nothing(s, c[i].0, c[i].1, node);
        lemma_absent_everywhere(s, c, node, i + 1);
    }
}

/// Putting the interfaces of an OpenFabric node in leaves the sequence
/// number as it is.
pub proof fn lemma_openfabric_members_keep_seq(
    s: CompileState,
    id: Seq<char>,
    fabric: OpenfabricProperties,
    interfaces: Seq<OpenfabricInterfaceView>,
    v4: bool,
    v6: bool,
    k: int,
)
    ensures
        with_openfabric_members(s, id, fabric, interfaces, v4, v6, k).seq == s.seq,
    decreases k,
{
    if k > 0 {
        lemma_openfabric_members_keep_seq(s, id, fabric, interfaces, v4, v6, k - 1);
    }
}

/// Putting the interfaces of an OSPF node in leaves the sequence number as
/// it is.
pub proof fn lemma_ospf_members_keep_seq(
    s: CompileState,
    area: Seq<char>,
    interfaces: Seq<OspfInterfaceView>,
    k: int,
)
    ensures
        with_ospf_members(s, area, interfaces, k).seq == s.seq,
    decreases k,
{
    if k > 0 {
        lemma_ospf_members_keep_seq(s, area, interfaces, k - 1);
    }
}

/// A fabric that compiles moves the sequence number on by at most 20.
pub proof fn lemma_entry_uses_two(s: CompileState, id: Seq<char>, e: FabricEntryView, node: Seq<char>)
    requires
        compile_entry(s, id, e, node) is Ok,
    ensures
        s.seq <= compile_entry(s, id, e, node)->Ok_0.seq <= s.seq + 20,
{
    match e {
        FabricEntryView::Openfabric(x) => {
            match lookup(x.nodes, node) {
                Some(n) => {
                    let s1 = with_router(
                        s,
                        RouterNameView::Openfabric(id),
                        RouterView::Openfabric(title_for(n)->Some_0),
                    );
                    let s2 = with_interface(
                        s1,
                        InterfaceNameView::Openfabric(dummy_name(id)),
                        openfabric_dummy(id, n.ip is Some, n.ip6 is Some),
                        CompileWarningView::DummyInterfaceExists(dummy_name(id)),
                    );
                    lemma_openfabric_members_keep_seq(
                        s2,
                        id,
                        x.fabric.properties,
                        n.properties,
                        n.ip is Some,
                        n.ip6 is Some,
                        n.properties.len() as int,
                    );
                },
                None => {},
            }
        },
        FabricEntryView::Ospf(x) => {
            match lookup(x.nodes, node) {
                Some(n) => {
                    let area = x.fabric.properties.area.text();
                    let router_id = match s.router_id {
                        Some(r) => r,
                        None => n.ip->Some_0,
                    };
                    let s0 = CompileState { router_id: Some(router_id), ..s };
                    let s1 = with_router(
                        s0,
                        RouterNameView::Ospf,
                        RouterView::Ospf(OspfRouter { router_id }),
                    );
                    let s2 = with_interface(
                        s1,
                        InterfaceNameView::Openfabric(dummy_name(id)),
                        ospf_dummy(area),
                        CompileWarningView::DummyInterfaceExists(dummy_name(id)),
                    );
                    lemma_ospf_members_keep_seq(s2, area, n.properties, n.properties.len() as int);
                },
                None => {},
            }
        },
    }
}

/// A fabric that passes validation compiles where two sequence numbers are
/// left, whatever has been compiled before it.
pub proof fn lemma_valid_entry_compiles(
    s: CompileState,
    id: Seq<char>,
    e: FabricEntryView,
    node: Seq<char>,
)
    requires
        check_entry(e) is Ok,
        s.seq + 20 <= u32::MAX,
    ensures
        compile_entry(s, id, e, node) is Ok,
{
    match e {
        FabricEntryView::Openfabric(x) => {
            lemma_position_from(x.nodes, node, 0);
            match position(x.nodes, node) {
                Some(p) => {
                    lemma_nodes_pass(x, false, 0, p);
                    assert(check_node_at(x, false, p) is Ok);
                },
                None => {},
            }
        },
        FabricEntryView::Ospf(x) => {
            lemma_position_from(x.nodes, node, 0);
            lemma_area_text(x.fabric.properties.area);
            match position(x.nodes, node) {
                Some(p) => {
                    lemma_nodes_pass(x, true, 0, p);
                    assert(check_node_at(x, true, p) is Ok);
                },
                None => {},
            }
        },
    }
}

/// Fabrics that pass validation compile where two sequence numbers are
/// left for each.
pub proof fn lemma_valid_entries_compile(s: CompileState, c: FabricConfigView, node: Seq<char>, i: int)
    requires
        0 <= i <= c.len(),
        forall|k: int| 0 <= k < c.len() ==> check_entry((#[trigger] c[k]).1) is Ok,
        s.seq + 20 * (c.len() - i) <= u32::MAX,
    ensures
        compile_from(s, c, node, i).1 is None,
    decreases c.len() - i,
{
    if i < c.len() {
        lemma_valid_entry_compiles(s, c[i].0, c[i].1, node);
        lemma_entry_uses_two(s, c[i].0, c[i].1, node);
        lemma_valid_entries_compile(compile_entry(s, c[i].0, c[i].1, node)->Ok_0, c, node, i + 1);
    }
}

/// A configuration that passes validation compiles for every node where
/// two sequence numbers are there for each of its fabrics.
pub proof fn lemma_valid_config_compiles(records: FrrConfigView, c: FabricConfigView, node: Seq<char>)
    requires
        check_config(c) is Ok,
        100 + 20 * c.len() <= u32::MAX,
    ensures
        compile(records, c, node).1 is None,
{
    assert forall|k: int| 0 <= k < c.len() implies check_entry((#[trigger] c[k]).1) is Ok by {
        lemma_entries_pass(c, 0, k);
    }
    lemma_valid_entries_compile(initial_state(records), c, node, 0);
}

/// A label is a word of the daemon's language.
pub proof fn lemma_label_is_word(s: Seq<char>, max: nat)
    requires
        is_label(s, max),
    ensures
        is_frr_word(s),
        forall|i: int| 0 <= i < s.len() ==> is_ascii_char(#[trigger] s[i]),
{
    assert forall|i: int| 0 <= i < s.len() implies is_ascii_char(#[trigger] s[i]) && !is_whitespace(
        s[i],
    ) by {
        if i > 0 {
            assert(is_alphanumeric(s[i]) || s[i] == '-');
        }
    }
}

/// The name of a fabric's dummy interface fits an interface name.
pub proof fn lemma_dummy_name_fits(id: Seq<char>)
    requires
        is_label(id, 8),
    ensures
        byte_len(dummy_name(id)) <= 15,
{
    reveal_strlit("dummy_");
    lemma_label_is_word(id, 8);
    let name = dummy_name(id);
    assert forall|i: int| 0 <= i < name.len() implies is_ascii_char(#[trigger] name[i]) by {
        if i >= 6 {
            assert(name[i] == id[i - 6]);
        }
    }
    lemma_ascii_byte_len(name);
}

/// The word that is the name of a fabric.
pub fn word_of(fabric_id: &FabricId) -> (r: FrrWord)
    ensures
        r@ == fabric_id@,
{
    let text = fabric_id.to_text();
    proof {
        lemma_label_is_word(text@, 8);
    }
    match FrrWord::new(text) {
        Ok(w) => w,
        Err(_) => vstd::pervasive::unreached(),
    }
}

/// The name and the record of the OSPF router with the given identifier.
pub fn build_ospf_router(router_id: Ipv4Addr) -> (r: Result<(RouterName, Router), CompileError>)
    ensures
        r is Ok,
        r->Ok_0.0@ == RouterNameView::Ospf,
        r->Ok_0.1@ == RouterView::Ospf(OspfRouter { router_id }),
{
    let ospf_router = OspfRouter { router_id };
    let router_item = Router::Ospf(ospf_router);
    let router_name = RouterName::Ospf(OspfRouterName);
    Ok((router_name, router_item))
}

/// The name and the record of the router of an OpenFabric fabric with the
/// given network entity title.
pub fn build_openfabric_router(fabric_id: &FabricId, net: Net) -> (r: Result<
    (RouterName, Router),
    CompileError,
>)
    ensures
        r is Ok,
        r->Ok_0.0@ == RouterNameView::Openfabric(fabric_id@),
        r->Ok_0.1@ == RouterView::Openfabric(net@),
{
    let ofr = OpenfabricRouter { net };
    let router_item = Router::Openfabric(ofr);
    let frr_word_id = word_of(fabric_id);
    let router_name = RouterName::Openfabric(OpenfabricRouterName::new(frr_word_id));
    Ok((router_name, router_item))
}

/// The interface name with the text of the name of an interface of a node.
fn record_name(name: &str) -> (r: CommonInterfaceName)
    requires
        is_interface_name(name@),
    ensures
        r@ == name@,
{
    proof {
        lemma_ascii_byte_len(name@);
    }
    match CommonInterfaceName::new(String::from_str(name)) {
        Ok(n) => n,
        Err(_) => vstd::pervasive::unreached(),
    }
}

/// The interface name of the dummy interface of a fabric.
fn dummy_record_name(fabric_id: &FabricId) -> (r: CommonInterfaceName)
    ensures
        r@ == dummy_name(fabric_id@),
{
    let mut text = String::from_str("dummy_");
    text.append(fabric_id.as_str());
    proof {
        lemma_dummy_name_fits(fabric_id@);
    }
    match CommonInterfaceName::new(text) {
        Ok(n) => n,
        Err(_) => vstd::pervasive::unreached(),
    }
}

/// The record and the name of an interface of an OSPF node in the area of
/// its fabric.
pub fn build_ospf_interface(area: RecordArea, interface: &OspfInterfaceProperties) -> (r: Result<
    (Interface, InterfaceName),
    CompileError,
>)
    ensures
        r is Ok,
        r->Ok_0.0@ == ospf_member(area@, interface@),
        r->Ok_0.1@ == InterfaceNameView::Ospf(interface@.name),
{
    let frr_interface = OspfInterface {
        area,
        passive: None,
        network_type: if interface.ip.is_some() {
            None
        } else {
            Some(NetworkType::PointToPoint)
        },
    };
    let interface_name = InterfaceName::Ospf(record_name(interface.name.as_str()));
    Ok((Interface::Ospf(frr_interface), interface_name))
}

/// The record and the name of the dummy interface of an OSPF fabric.
pub fn build_ospf_dummy_interface(fabric_id: &FabricId, area: RecordArea) -> (r: Result<
    (Interface, InterfaceName),
    CompileError,
>)
    ensures
        r is Ok,
        r->Ok_0.0@ == ospf_dummy(area@),
        r->Ok_0.1@ == InterfaceNameView::Openfabric(dummy_name(fabric_id@)),
{
    let frr_interface = OspfInterface { area, passive: Some(true), network_type: None };
    let interface_name = InterfaceName::Openfabric(dummy_record_name(fabric_id));
    Ok((Interface::Ospf(frr_interface), interface_name))
}

/// The record and the name of an interface of an OpenFabric node.
pub fn build_openfabric_interface(
    fabric_id: &FabricId,
    interface: &OpenfabricInterfaceProperties,
    fabric_config: &OpenfabricProperties,
    is_ipv4: bool,
    is_ipv6: bool,
) -> (r: Result<(Interface, InterfaceName), CompileError>)
    ensures
        r is Ok,
        r->Ok_0.0@ == openfabric_member(fabric_id@, *fabric_config, interface@, is_ipv4, is_ipv6),
        r->Ok_0.1@ == InterfaceNameView::Openfabric(interface@.name),
{
    let frr_word = word_of(fabric_id);
    let frr_interface = OpenfabricInterface {
        fabric_id: OpenfabricRouterName::new(frr_word),
        passive: None,
        hello_interval: fabric_config.hello_interval,
        csnp_interval: fabric_config.csnp_interval,
        hello_multiplier: interface.hello_multiplier,
        is_ipv4,
        is_ipv6,
    };
    let interface_name = InterfaceName::Openfabric(record_name(interface.name.as_str()));
    Ok((Interface::Openfabric(frr_interface), interface_name))
}

/// The record and the name of the dummy interface of an OpenFabric fabric.
pub fn build_openfabric_dummy_interface(fabric_id: &FabricId, is_ipv4: bool, is_ipv6: bool) -> (r:
    Result<(Interface, InterfaceName), CompileError>)
    ensures
        r is Ok,
        r->Ok_0.0@ == openfabric_dummy(fabric_id@, is_ipv4, is_ipv6),
        r->Ok_0.1@ == InterfaceNameView::Openfabric(dummy_name(fabric_id@)),
{
    let frr_word = word_of(fabric_id);
    let frr_interface = OpenfabricInterface {
        fabric_id: OpenfabricRouterName::new(frr_word),
        hello_interval: None,
        passive: Some(true),
        csnp_interval: None,
        hello_multiplier: None,
        is_ipv4,
        is_ipv6,
    };
    let interface_name = InterfaceName::Openfabric(dummy_record_name(fabric_id));
    Ok((Interface::Openfabric(frr_interface), interface_name))
}

/// The text of the name of the access-list of an OpenFabric fabric.
fn openfabric_list_text(fabric_id: &FabricId, v6: bool) -> (r: String)
    ensures
        r@ == openfabric_list_name(fabric_id@, v6),
{
    let mut text = String::from_str("pve_openfabric_");
    text.append(fabric_id.as_str());
    if v6 {
        text.append("_ip6s");
    } else {
        text.append("_ips");
    }
    text
}

/// The text of the name of the access-list of an OSPF fabric.
fn ospf_list_text(fabric_id: &FabricId) -> (r: String)
    ensures
        r@ == ospf_list_name(fabric_id@),
{
    let mut text = String::from_str("pve_ospf_");
    text.append(fabric_id.as_str());
    text.append("_ips");
    text
}

/// The route-map entry of an OpenFabric fabric for one address of the
/// node.
pub fn build_openfabric_routemap(fabric_id: &FabricId, router_ip: IpAddr, seq: u32) -> (r: RouteMap)
    ensures
        r@ == source_map(
            openfabric_map_name(router_ip is V6),
            openfabric_list_name(fabric_id@, router_ip is V6),
            router_ip,
            seq,
        ),
{
    let routemap_name = match router_ip {
        IpAddr::V4(_) => RouteMapName::new(String::from_str("pve_openfabric")),
        IpAddr::V6(_) => RouteMapName::new(String::from_str("pve_openfabric6")),
    };
    let mut matches: Vec<RouteMapMatch> = Vec::new();
    matches.push(
        match router_ip {
            IpAddr::V4(_) => RouteMapMatch::V4(
                RouteMapMatchInner::IpAddress(
                    AccessListName::new(openfabric_list_text(fabric_id, false)),
                ),
            ),
            IpAddr::V6(_) => RouteMapMatch::V6(
                RouteMapMatchInner::IpAddress(
                    AccessListName::new(openfabric_list_text(fabric_id, true)),
                ),
            ),
        },
    );
    let mut sets: Vec<RouteMapSet> = Vec::new();
    sets.push(RouteMapSet::IpSrc(router_ip));
    let r = RouteMap { name: routemap_name, seq, action: AccessAction::Permit, matches, sets };
    proof {
        let want = source_map(
            openfabric_map_name(router_ip is V6),
            openfabric_list_name(fabric_id@, router_ip is V6),
            router_ip,
            seq,
        );
        assert(r@.matches =~= want.matches);
        assert(r@.sets =~= want.sets);
    }
    r
}

/// The route-map entry of an OSPF fabric for the address of the node.
pub fn build_ospf_dummy_routemap(fabric_id: &FabricId, router_ip: Ipv4Addr, seq: u32) -> (r: Result<
    RouteMap,
    CompileError,
>)
    ensures
        r is Ok,
        r->Ok_0@ == source_map("pve_ospf"@, ospf_list_name(fabric_id@), IpAddr::V4(router_ip), seq),
{
    let routemap_name = RouteMapName::new(String::from_str("pve_ospf"));
    let mut matches: Vec<RouteMapMatch> = Vec::new();
    matches.push(
        RouteMapMatch::V4(RouteMapMatchInner::IpAddress(AccessListName::new(ospf_list_text(fabric_id)))),
    );
    let mut sets: Vec<RouteMapSet> = Vec::new();
    sets.push(RouteMapSet::IpSrc(IpAddr::V4(router_ip)));
    let routemap = RouteMap {
        name: routemap_name,
        seq,
        action: AccessAction::Permit,
        matches,
        sets,
    };
    proof {
        let want = source_map(
            "pve_ospf"@,
            ospf_list_name(fabric_id@),
            IpAddr::V4(router_ip),
            seq,
        );
        assert(routemap@.matches =~= want.matches);
        assert(routemap@.sets =~= want.sets);
    }
    Ok(routemap)
}

/// What compilation carries from fabric to fabric besides the records.
struct Progress {
    seq: u32,
    router_id: Option<Ipv4Addr>,
    warnings: Vec<CompileWarning>,
}

/// The state that the records and the progress stand for.
spec fn state_of(records: FrrConfigView, p: Progress) -> CompileState {
    CompileState {
        config: records,
        seq: p.seq,
        router_id: p.router_id,
        warnings: views(p.warnings@),
    }
}

/// Whether the two routers are the same.
fn router_same(a: &Router, b: &Router) -> (r: bool)
    ensures
        r == (a@ == b@),
{
    match (a, b) {
        (Router::Openfabric(x), Router::Openfabric(y)) => x.net.same(&y.net),
        (Router::Ospf(x), Router::Ospf(y)) => x.router_id.0 == y.router_id.0,
        _ => false,
    }
}

/// The name of a router as the daemon reads it.
fn router_label(name: &RouterName) -> (r: String)
    ensures
        r@ == router_name_text(name@),
{
    match name {
        RouterName::Openfabric(n) => {
            let mut text = String::from_str("openfabric ");
            text.append(n.as_str());
            text
        },
        RouterName::Ospf(_) => String::from_str("ospf"),
    }
}

/// Puts a router record in, and notes where another one was there.
fn put_router(records: &mut FrrConfig, p: &mut Progress, name: RouterName, record: Router)
    ensures
        state_of(final(records)@, *final(p)) == with_router(
            state_of(old(records)@, *old(p)),
            name@,
            record@,
        ),
        final(p).seq == old(p).seq,
        final(p).router_id == old(p).router_id,
{
    let replaces: bool = match records.router.get(&name) {
        Some(was) => !router_same(was, &record),
        None => false,
    };
    if replaces {
        let warning = CompileWarning::RouterReplaced(router_label(&name));
        proof {
            lemma_views_push(p.warnings@, warning);
        }
        p.warnings.push(warning);
    }
    records.router.insert(name, record);
}

/// Puts an interface record in, and notes where one was there.
fn put_interface(
    records: &mut FrrConfig,
    p: &mut Progress,
    name: InterfaceName,
    record: Interface,
    dummy: bool,
)
    ensures
        state_of(final(records)@, *final(p)) == with_interface(
            state_of(old(records)@, *old(p)),
            name@,
            record@,
            if dummy {
                CompileWarningView::DummyInterfaceExists(name@.text())
            } else {
                CompileWarningView::InterfaceClaimedTwice(name@.text())
            },
        ),
{
    let text = String::from_str(name.as_str());
    let ghost before = views(p.warnings@);
    let was = records.interfaces.insert(name, record);
    if was.is_some() {
        let warning = if dummy {
            CompileWarning::DummyInterfaceExists(text)
        } else {
            CompileWarning::InterfaceClaimedTwice(text)
        };
        proof {
            lemma_views_push(p.warnings@, warning);
        }
        p.warnings.push(warning);
    }
}

/// Adds the access-list that permits one network.
fn push_list(records: &mut FrrConfig, p: &Progress, name: String, network: Cidr)
    ensures
        state_of(final(records)@, *p) == with_list(
            state_of(old(records)@, *p),
            permit_list(name@, network),
        ),
{
    let mut rules: Vec<AccessListRule> = Vec::new();
    rules.push(AccessListRule { action: AccessAction::Permit, network, seq: None });
    let list = AccessList { name: AccessListName::new(name), rules };
    proof {
        assert(list@.rules =~= permit_list(name@, network).rules);
        lemma_views_push(records.access_lists@, list);
    }
    records.access_lists.push(list);
}

/// Adds a route-map entry of the next sequence number and binds the
/// route-map to the protocol.
fn push_source_map(
    records: &mut FrrConfig,
    p: &mut Progress,
    map: RouteMap,
    protocol: ProtocolType,
    is_ipv6: bool,
    Ghost(name): Ghost<Seq<char>>,
    Ghost(list): Ghost<Seq<char>>,
    Ghost(source): Ghost<IpAddr>,
)
    requires
        old(p).seq + 10 <= u32::MAX,
        is_ipv6 == (source is V6),
        map@ == source_map(name, list, source, old(p).seq),
    ensures
        state_of(final(records)@, *final(p)) == with_source_map(
            state_of(old(records)@, *old(p)),
            name,
            list,
            protocol,
            source,
        ),
        final(p).seq == old(p).seq + 10,
{
    let binding = ProtocolRouteMap { is_ipv6, protocol, routemap_name: map.name.clone() };
    proof {
        lemma_views_push(records.routemaps@, map);
    }
    records.routemaps.push(map);
    records.protocol_routemaps.insert(binding, ());
    p.seq = p.seq + 10;
}

/// Adds what an OpenFabric fabric adds for the node.
fn compile_openfabric_entry(
    records: &mut FrrConfig,
    p: &mut Progress,
    fabric_id: &FabricId,
    entry: &Entry<OpenfabricProperties, OpenfabricNodeProperties>,
    node: &NodeId,
) -> (r: Result<(), CompileError>)
    ensures
        match compile_openfabric(state_of(old(records)@, *old(p)), fabric_id@, entry@, node@) {
            Ok(next) => r is Ok && state_of(final(records)@, *final(p)) == next,
            Err(e) => r == Err::<(), CompileError>(e) && state_of(final(records)@, *final(p))
                == state_of(old(records)@, *old(p)),
        },
{
    let ghost start = state_of(records@, *p);
    let n = match entry.node_section(node) {
        Ok(n) => n,
        Err(_) => {
            return Ok(());
        },
    };
    let net = match (n.ip(), n.ip6()) {
        (Some(ip), _) => Net::from_ipv4(ip),
        (None, Some(ip6)) => Net::from_ipv6(ip6),
        (None, None) => {
            return Err(CompileError::NoAddress);
        },
    };
    let is_ipv4: bool = n.ip().is_some();
    let is_ipv6: bool = n.ip6().is_some();
    let needed: u32 = if is_ipv4 && is_ipv6 {
        20
    } else {
        10
    };
    if p.seq > u32::MAX - needed {
        return Err(CompileError::TooManyFabrics);
    }
    let fabric = entry.fabric_section();
    match build_openfabric_router(fabric_id, net) {
        Ok((router_name, router_item)) => {
            put_router(records, p, router_name, router_item);
        },
        Err(e) => {
            return Err(e);
        },
    }
    match build_openfabric_dummy_interface(fabric_id, is_ipv4, is_ipv6) {
        Ok((interface, interface_name)) => {
            put_interface(records, p, interface_name, interface, true);
        },
        Err(e) => {
            return Err(e);
        },
    }
    let ghost s2 = state_of(records@, *p);
    let list = n.properties().interfaces();
    let mut k: usize = 0;
    while k < list.len()
        invariant
            k <= list.len(),
            views(list@) == n@.properties,
            fabric@ == entry@.fabric,
            is_ipv4 == (n@.ip is Some),
            is_ipv6 == (n@.ip6 is Some),
            p.seq == old(p).seq,
            p.seq + 10 * maps_needed(n@) <= u32::MAX,
            state_of(records@, *p) == with_openfabric_members(
                s2,
                fabric_id@,
                fabric@.properties,
                n@.properties,
                is_ipv4,
                is_ipv6,
                k as int,
            ),
        decreases list.len() - k,
    {
        assert(views(list@)[k as int] == list@[k as int]@);
        match build_openfabric_interface(fabric_id, &list[k], fabric.properties(), is_ipv4, is_ipv6) {
            Ok((interface, interface_name)) => {
                put_interface(records, p, interface_name, interface, false);
            },
            Err(e) => {
                return Err(e);
            },
        }
        k = k + 1;
    }
    if let Some(prefix) = fabric.ip_prefix() {
        push_list(records, p, openfabric_list_text(fabric_id, false), Cidr::Ipv4(prefix));
    }
    if let Some(prefix) = fabric.ip6_prefix() {
        push_list(records, p, openfabric_list_text(fabric_id, true), Cidr::Ipv6(prefix));
    }
    if let Some(ip) = n.ip() {
        let map = build_openfabric_routemap(fabric_id, IpAddr::V4(ip), p.seq);
        push_source_map(
            records,
            p,
            map,
            ProtocolType::Openfabric,
            false,
            Ghost(openfabric_map_name(false)),
            Ghost(openfabric_list_name(fabric_id@, false)),
            Ghost(IpAddr::V4(ip)),
        );
    }
    if let Some(ip6) = n.ip6() {
        let map = build_openfabric_routemap(fabric_id, IpAddr::V6(ip6), p.seq);
        push_source_map(
            records,
            p,
            map,
            ProtocolType::Openfabric,
            true,
            Ghost(openfabric_map_name(true)),
            Ghost(openfabric_list_name(fabric_id@, true)),
            Ghost(IpAddr::V6(ip6)),
        );
    }
    Ok(())
}

/// Adds what an OSPF fabric adds for the node.
fn compile_ospf_entry(
    records: &mut FrrConfig,
    p: &mut Progress,
    fabric_id: &FabricId,
    entry: &Entry<OspfProperties, OspfNodeProperties>,
    node: &NodeId,
) -> (r: Result<(), CompileError>)
    ensures
        match compile_ospf(state_of(old(records)@, *old(p)), fabric_id@, entry@, node@) {
            Ok(next) => r is Ok && state_of(final(records)@, *final(p)) == next,
            Err(e) => r == Err::<(), CompileError>(e) && state_of(final(records)@, *final(p))
                == state_of(old(records)@, *old(p)),
        },
{
    let ghost start = state_of(records@, *p);
    let n = match entry.node_section(node) {
        Ok(n) => n,
        Err(_) => {
            return Ok(());
        },
    };
    let fabric = entry.fabric_section();
    let ip = match n.ip() {
        Some(ip) => ip,
        None => {
            return Err(CompileError::MissingIpv4Address);
        },
    };
    let prefix = match fabric.ip_prefix() {
        Some(prefix) => prefix,
        None => {
            return Err(CompileError::MissingIpv4Prefix);
        },
    };
    let frr_word_area = match FrrWord::new(fabric.properties().area.to_text()) {
        Ok(w) => w,
        Err(e) => {
            return Err(CompileError::Word(e));
        },
    };
    let frr_area = match RecordArea::new(frr_word_area) {
        Ok(a) => a,
        Err(e) => {
            return Err(CompileError::Area(e));
        },
    };
    if p.seq > u32::MAX - 10 {
        return Err(CompileError::TooManyFabrics);
    }
    let router_id = match p.router_id {
        Some(r) => r,
        None => ip,
    };
    p.router_id = Some(router_id);
    match build_ospf_router(router_id) {
        Ok((router_name, router_item)) => {
            put_router(records, p, router_name, router_item);
        },
        Err(e) => {
            return Err(e);
        },
    }
    match build_ospf_dummy_interface(fabric_id, frr_area.clone()) {
        Ok((interface, interface_name)) => {
            put_interface(records, p, interface_name, interface, true);
        },
        Err(e) => {
            return Err(e);
        },
    }
    let ghost s2 = state_of(records@, *p);
    let list = n.properties().interfaces();
    let mut k: usize = 0;
    while k < list.len()
        invariant
            k <= list.len(),
            views(list@) == n@.properties,
            p.seq == old(p).seq,
            p.seq + 10 <= u32::MAX,
            state_of(records@, *p) == with_ospf_members(s2, frr_area@, n@.properties, k as int),
        decreases list.len() - k,
    {
        assert(views(list@)[k as int] == list@[k as int]@);
        match build_ospf_interface(frr_area.clone(), &list[k]) {
            Ok((interface, interface_name)) => {
                put_interface(records, p, interface_name, interface, false);
            },
            Err(e) => {
                return Err(e);
            },
        }
        k = k + 1;
    }
    push_list(records, p, ospf_list_text(fabric_id), Cidr::Ipv4(prefix));
    match build_ospf_dummy_routemap(fabric_id, ip, p.seq) {
        Ok(routemap) => {
            push_source_map(
                records,
                p,
                routemap,
                ProtocolType::Ospf,
                false,
                Ghost("pve_ospf"@),
                Ghost(ospf_list_name(fabric_id@)),
                Ghost(IpAddr::V4(ip)),
            );
        },
        Err(e) => {
            return Err(e);
        },
    }
    Ok(())
}

/// Compiles a valid configuration for the node of the given name and adds
/// the records to those that are there. Hands back the warnings: each names
/// a record that was there already and has been replaced.
///
/// Where a fabric cannot be compiled, the records hold what the fabrics
/// before it have added, and the error says what stopped compilation. A
/// configuration in which the node takes part nowhere adds nothing and
/// compiles, and so does every valid configuration for which the sequence
/// numbers suffice.
pub fn build_fabric(current_node: NodeId, config: Valid<FabricConfig>, frr_config: &mut FrrConfig) -> (r:
    Result<Vec<CompileWarning>, CompileError>)
    ensures
        final(frr_config)@ == compile(old(frr_config)@, config.inner()@, current_node@).0.config,
        match compile(old(frr_config)@, config.inner()@, current_node@).1 {
            None => r is Ok && views(r->Ok_0@) == compile(
                old(frr_config)@,
                config.inner()@,
                current_node@,
            ).0.warnings,
            Some(e) => r == Err::<Vec<CompileWarning>, CompileError>(e),
        },
        100 + 20 * config.inner()@.len() <= u32::MAX ==> r is Ok,
        (forall|k: int|
            0 <= k < config.inner()@.len() ==> (#[trigger] config.inner()@[k]).1.node_position(
                current_node@,
            ) is None) ==> r is Ok && final(frr_config)@ == old(frr_config)@,
{
    let fabrics = config.get();
    let count: usize = fabrics.len();
    proof {
        if 100 + 20 * count <= u32::MAX {
            lemma_valid_config_compiles(old(frr_config)@, fabrics@, current_node@);
        }
        if forall|k: int|
            0 <= k < fabrics@.len() ==> (#[trigger] fabrics@[k]).1.node_position(current_node@)
                is None {
            lemma_absent_everywhere(
                initial_state(old(frr_config)@),
                fabrics@,
                current_node@,
                0,
            );
        }
    }
    let mut p = Progress { seq: 100, router_id: None, warnings: Vec::new() };
    assert(views(p.warnings@) =~= Seq::<CompileWarningView>::empty());
    let mut i: usize = 0;
    while i < count
        invariant
            i <= count,
            count == fabrics@.len(),
            fabrics@ == config.inner()@,
            100 + 20 * count <= u32::MAX ==> compile(
                old(frr_config)@,
                fabrics@,
                current_node@,
            ).1 is None,
            (compile_from(state_of(frr_config@, p), fabrics@, current_node@, i as int)) == compile(
                old(frr_config)@,
                fabrics@,
                current_node@,
            ),
        decreases count - i,
    {
        let fabric_id = fabrics.id_at(i);
        let outcome = match fabrics.entry_at(i) {
            FabricEntry::Openfabric(entry) => compile_openfabric_entry(
                frr_config,
                &mut p,
                fabric_id,
                entry,
                &current_node,
            ),
            FabricEntry::Ospf(entry) => compile_ospf_entry(
                frr_config,
                &mut p,
                fabric_id,
                entry,
                &current_node,
            ),
        };
        match outcome {
            Ok(()) => {},
            Err(e) => {
                return Err(e);
            },
        }
        i = i + 1;
    }
    Ok(p.warnings)
}

} // verus!
