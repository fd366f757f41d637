//! The daemon's configuration as text.
//!
//! Every record becomes a block of lines. The blocks of the routers come
//! first, then those of the interfaces, the access-lists, the route-maps and
//! the bindings of route-maps to protocols, each kind in the order in which
//! the configuration holds it. The keywords are those of the daemon and are
//! written as they stand here.

use vstd::prelude::*;
use crate::frr::openfabric::{OpenfabricInterface, OpenfabricInterfaceView, OpenfabricRouter};
use crate::frr::ospf::{NetworkType, OspfInterface, OspfInterfaceView, OspfRouter};
use crate::frr::route_map::{
    AccessAction, AccessList, AccessListRule, AccessListView, ProtocolRouteMap,
    ProtocolRouteMapView, ProtocolType, RouteMap, RouteMapMatch, RouteMapMatchInner,
    RouteMapMatchInnerView, RouteMapMatchView, RouteMapSet, RouteMapSetView, RouteMapView,
};
use crate::frr::{
    FrrConfig, FrrConfigView, Interface, InterfaceName, InterfaceNameView, InterfaceView, Router,
    RouterName, RouterNameView, RouterView,
};
use crate::ip_address::cidr::Cidr;
use crate::ip_address::text::{cidr_text, ip_text, ipv4_text};
use crate::text::{dec_text, find_from, index_from, push_dec, string_of, chars_of};
use crate::views::views;

verus! {

/// The text that is being written.
#[derive(Debug)]
pub struct FrrConfigBlob {
    buf: String,
}

impl View for FrrConfigBlob {
    type V = Seq<char>;

    closed spec fn view(&self) -> Seq<char> {
        self.buf@
    }
}

impl FrrConfigBlob {
    /// The empty text.
    pub fn new() -> (r: FrrConfigBlob)
        ensures
            r@ == Seq::<char>::empty(),
    {
        FrrConfigBlob { buf: String::new() }
    }

    /// Writes a piece of text at the end.
    pub fn write_str(&mut self, s: &str)
        ensures
            final(self)@ == old(self)@ + s@,
    {
        self.buf.append(s);
    }

    /// Writes a number in decimal at the end.
    pub fn write_dec(&mut self, n: u32)
        ensures
            final(self)@ == old(self)@ + dec_text(n as nat),
    {
        push_dec(&mut self.buf, n);
    }

    /// Writes a prefix at the end.
    pub fn write_cidr(&mut self, c: &Cidr)
        ensures
            final(self)@ == old(self)@ + cidr_text(*c),
    {
        let text = c.to_text();
        self.buf.append(text.as_str());
    }

    /// The text that has been written.
    pub fn into_string(self) -> (r: String)
        ensures
            r@ == self@,
    {
        self.buf
    }
}

/// What can be written as a block of the daemon's configuration.
pub trait FrrSerializer {
    /// The text of the block.
    spec fn text(&self) -> Seq<char>;

    /// Writes the block at the end of the text.
    fn serialize(&self, f: &mut FrrConfigBlob)
        ensures
            final(f)@ == old(f)@ + self.text(),
    ;
}

/// A router name as the daemon reads it.
pub open spec fn router_name_text(n: RouterNameView) -> Seq<char> {
    match n {
        RouterNameView::Openfabric(w) => "openfabric "@ + w,
        RouterNameView::Ospf => "ospf"@,
    }
}

/// The lines of a router.
pub open spec fn router_text(r: RouterView) -> Seq<char> {
    match r {
        RouterView::Openfabric(net) => " net "@ + net.text() + "\n"@,
        RouterView::Ospf(r) => " ospf router-id "@ + ipv4_text(r.router_id.0) + "\n"@,
    }
}

/// The block of a router.
pub open spec fn router_block(n: RouterNameView, r: RouterView) -> Seq<char> {
    "router "@ + router_name_text(n) + "\n"@ + router_text(r) + "exit\n"@ + "!\n"@
}

/// The lines of an OpenFabric interface.
pub open spec fn openfabric_interface_text(i: OpenfabricInterfaceView) -> Seq<char> {
    (if i.is_ipv6 {
        " ipv6 router openfabric "@ + i.fabric_id + "\n"@
    } else {
        Seq::empty()
    }) + (if i.is_ipv4 {
        " ip router openfabric "@ + i.fabric_id + "\n"@
    } else {
        Seq::empty()
    }) + (if i.passive == Some(true) {
        " openfabric passive\n"@
    } else {
        Seq::empty()
    }) + (match i.hello_interval {
        Some(v) => " openfabric hello-interval "@ + dec_text(v.seconds()) + "\n"@,
        None => Seq::empty(),
    }) + (match i.hello_multiplier {
        Some(v) => " openfabric hello-multiplier "@ + dec_text(v.factor()) + "\n"@,
        None => Seq::empty(),
    }) + (match i.csnp_interval {
        Some(v) => " openfabric csnp-interval "@ + dec_text(v.seconds()) + "\n"@,
        None => Seq::empty(),
    })
}

/// A network type as the daemon reads it.
pub open spec fn network_type_text(t: NetworkType) -> Seq<char> {
    match t {
        NetworkType::Broadcast => "broadcast"@,
        NetworkType::NonBroadcast => "non-broadcast"@,
        NetworkType::PointToPoint => "point-to-point"@,
        NetworkType::PointToMultipoint => "point-to-multicast"@,
    }
}

/// The lines of an OSPF interface.
pub open spec fn ospf_interface_text(i: OspfInterfaceView) -> Seq<char> {
    " ip ospf area "@ + i.area + "\n"@ + (if i.passive == Some(true) {
        " ip ospf passive\n"@
    } else {
        Seq::empty()
    }) + (match i.network_type {
        Some(t) => " ip ospf network "@ + network_type_text(t) + "\n"@,
        None => Seq::empty(),
    })
}

/// The lines of an interface.
pub open spec fn interface_text(i: InterfaceView) -> Seq<char> {
    match i {
        InterfaceView::Openfabric(x) => openfabric_interface_text(x),
        InterfaceView::Ospf(x) => ospf_interface_text(x),
    }
}

/// The block of an interface.
pub open spec fn interface_block(n: InterfaceNameView, i: InterfaceView) -> Seq<char> {
    "interface "@ + n.text() + "\n"@ + interface_text(i) + "exit\n"@ + "!\n"@
}

/// An action as the daemon reads it.
pub open spec fn action_text(a: AccessAction) -> Seq<char> {
    match a {
        AccessAction::Permit => "permit"@,
        AccessAction::Deny => "deny"@,
    }
}

/// The line of one rule of an access-list.
pub open spec fn rule_text(name: Seq<char>, r: AccessListRule) -> Seq<char> {
    (if r.network is Ipv6 {
        "ipv6 "@
    } else {
        "ip "@
    }) + "access-list "@ + name + " "@ + (match r.seq {
        Some(n) => "seq "@ + dec_text(n as nat) + " "@,
        None => Seq::empty(),
    }) + action_text(r.action) + " "@ + cidr_text(r.network) + "\n"@
}

/// The lines of the first `n` rules of an access-list.
pub open spec fn rules_text(name: Seq<char>, rules: Seq<AccessListRule>, n: int) -> Seq<char>
    decreases n,
{
    if n <= 0 {
        Seq::empty()
    } else {
        rules_text(name, rules, n - 1) + rule_text(name, rules[n - 1])
    }
}

/// The block of an access-list.
pub open spec fn access_list_block(l: AccessListView) -> Seq<char> {
    rules_text(l.name, l.rules, l.rules.len() as int) + "!\n"@
}

/// A match statement as the daemon reads it.
pub open spec fn match_text(m: RouteMapMatchView) -> Seq<char> {
    match m {
        RouteMapMatchView::V4(RouteMapMatchInnerView::IpAddress(n)) => "match ip address "@ + n,
        RouteMapMatchView::V4(RouteMapMatchInnerView::IpNextHop(n)) => "match ip next-hop "@ + n,
        RouteMapMatchView::V6(RouteMapMatchInnerView::IpAddress(n)) => "match ipv6 address "@ + n,
        RouteMapMatchView::V6(RouteMapMatchInnerView::IpNextHop(n)) => "match ipv6 next-hop "@
            + n,
    }
}

/// A set statement as the daemon reads it.
pub open spec fn set_text(s: RouteMapSetView) -> Seq<char> {
    match s {
        RouteMapSetView::LocalPreference(n) => "set local-preference "@ + dec_text(n as nat),
        RouteMapSetView::IpSrc(a) => "set src "@ + ip_text(a),
        RouteMapSetView::Metric(n) => "set metric "@ + dec_text(n as nat),
        RouteMapSetView::Community(c) => "set community "@ + c,
    }
}

/// The lines of the first `n` match statements.
pub open spec fn matches_text(m: Seq<RouteMapMatchView>, n: int) -> Seq<char>
    decreases n,
{
    if n <= 0 {
        Seq::empty()
    } else {
        matches_text(m, n - 1) + " "@ + match_text(m[n - 1]) + "\n"@
    }
}

/// The lines of the first `n` set statements.
pub open spec fn sets_text(s: Seq<RouteMapSetView>, n: int) -> Seq<char>
    decreases n,
{
    if n <= 0 {
        Seq::empty()
    } else {
        sets_text(s, n - 1) + " "@ + set_text(s[n - 1]) + "\n"@
    }
}

/// The block of an entry of a route-map.
pub open spec fn route_map_block(m: RouteMapView) -> Seq<char> {
    "route-map "@ + m.name + " "@ + action_text(m.action) + " "@ + dec_text(m.seq as nat) + "\n"@
        + matches_text(m.matches, m.matches.len() as int) + sets_text(
        m.sets,
        m.sets.len() as int,
    ) + "exit\n"@ + "!\n"@
}

/// A protocol as the daemon reads it.
pub open spec fn protocol_text(p: ProtocolType) -> Seq<char> {
    match p {
        ProtocolType::Openfabric => "openfabric"@,
        ProtocolType::Ospf => "ospf"@,
    }
}

/// The block of a binding of a route-map to a protocol.
pub open spec fn binding_block(b: ProtocolRouteMapView) -> Seq<char> {
    (if b.is_ipv6 {
        "ipv6 protocol "@
    } else {
        "ip protocol "@
    }) + protocol_text(b.protocol) + " route-map "@ + b.routemap_name + "\n"@ + "!\n"@
}

/// The blocks of the first `n` routers.
pub open spec fn routers_text(s: Seq<(RouterNameView, RouterView)>, n: int) -> Seq<char>
    decreases n,
{
    if n <= 0 {
        Seq::empty()
    } else {
        routers_text(s, n - 1) + router_block(s[n - 1].0, s[n - 1].1)
    }
}

/// The blocks of the first `n` interfaces.
pub open spec fn interfaces_text(s: Seq<(InterfaceNameView, InterfaceView)>, n: int) -> Seq<char>
    decreases n,
{
    if n <= 0 {
        Seq::empty()
    } else {
        interfaces_text(s, n - 1) + interface_block(s[n - 1].0, s[n - 1].1)
    }
}

/// The blocks of the first `n` access-lists.
pub open spec fn access_lists_text(s: Seq<AccessListView>, n: int) -> Seq<char>
    decreases n,
{
    if n <= 0 {
        Seq::empty()
    } else {
        access_lists_text(s, n - 1) + access_list_block(s[n - 1])
    }
}

/// The blocks of the first `n` entries of route-maps.
pub open spec fn route_maps_text(s: Seq<RouteMapView>, n: int) -> Seq<char>
    decreases n,
{
    if n <= 0 {
        Seq::empty()
    } else {
        route_maps_text(s, n - 1) + route_map_block(s[n - 1])
    }
}

/// The blocks of the first `n` bindings.
pub open spec fn bindings_text(s: Seq<(ProtocolRouteMapView, ())>, n: int) -> Seq<char>
    decreases n,
{
    if n <= 0 {
        Seq::empty()
    } else {
        bindings_text(s, n - 1) + binding_block(s[n - 1].0)
    }
}

/// The whole configuration as text.
pub open spec fn config_text(c: FrrConfigView) -> Seq<char> {
    routers_text(c.router, c.router.len() as int) + interfaces_text(
        c.interfaces,
        c.interfaces.len() as int,
    ) + access_lists_text(c.access_lists, c.access_lists.len() as int) + route_maps_text(
        c.routemaps,
        c.routemaps.len() as int,
    ) + bindings_text(c.protocol_routemaps, c.protocol_routemaps.len() as int)
}

impl FrrSerializer for OpenfabricRouter {
    open spec fn text(&self) -> Seq<char> {
        router_text(RouterView::Openfabric(self.net@))
    }

    fn serialize(&self, f: &mut FrrConfigBlob) {
        let net = self.net.to_text();
        f.write_str(" net ");
        f.write_str(net.as_str());
        f.write_str("\n");
        assert(f@ =~= old(f)@ + self.text());
    }
}

impl FrrSerializer for OspfRouter {
    open spec fn text(&self) -> Seq<char> {
        router_text(RouterView::Ospf(*self))
    }

    fn serialize(&self, f: &mut FrrConfigBlob) {
        let id = self.router_id.to_text();
        f.write_str(" ospf router-id ");
        f.write_str(id.as_str());
        f.write_str("\n");
        assert(f@ =~= old(f)@ + self.text());
    }
}

impl FrrSerializer for Router {
    open spec fn text(&self) -> Seq<char> {
        router_text(self@)
    }

    fn serialize(&self, f: &mut FrrConfigBlob) {
        match self {
            Router::Openfabric(r) => r.serialize(f),
            Router::Ospf(r) => r.serialize(f),
        }
    }
}

/// Joining texts does not depend on how they are grouped.
pub proof fn lemma_concat_assoc(x: Seq<char>, y: Seq<char>, z: Seq<char>)
    ensures
        (x + y) + z == x + (y + z),
{
    assert((x + y) + z =~= x + (y + z));
}

/// Writes a line that holds a keyword and a number, where the number is
/// there.
fn write_number_line(f: &mut FrrConfigBlob, keyword: &str, value: Option<u16>)
    ensures
        final(f)@ == old(f)@ + (match value {
            Some(v) => keyword@ + dec_text(v as nat) + "\n"@,
            None => Seq::empty(),
        }),
{
    if let Some(v) = value {
        f.write_str(keyword);
        f.write_dec(v as u32);
        f.write_str("\n");
        assert(f@ =~= old(f)@ + (keyword@ + dec_text(v as nat) + "\n"@));
    } else {
        assert(f@ =~= old(f)@ + Seq::<char>::empty());
    }
}

/// Writes a line that holds a keyword and a name, where the flag is set.
fn write_name_line(f: &mut FrrConfigBlob, flag: bool, keyword: &str, name: &str)
    ensures
        final(f)@ == old(f)@ + (if flag {
            keyword@ + name@ + "\n"@
        } else {
            Seq::empty()
        }),
{
    if flag {
        f.write_str(keyword);
        f.write_str(name);
        f.write_str("\n");
        assert(f@ =~= old(f)@ + (keyword@ + name@ + "\n"@));
    } else {
        assert(f@ =~= old(f)@ + Seq::<char>::empty());
    }
}

/// Writes a line, where the flag is set.
fn write_flag_line(f: &mut FrrConfigBlob, flag: bool, line: &str)
    ensures
        final(f)@ == old(f)@ + (if flag {
            line@
        } else {
            Seq::empty()
        }),
{
    if flag {
        f.write_str(line);
    } else {
        assert(f@ =~= old(f)@ + Seq::<char>::empty());
    }
}

/// Whether an interface is said to be passive.
fn is_passive(passive: Option<bool>) -> (r: bool)
    ensures
        r == (passive == Some(true)),
{
    match passive {
        Some(true) => true,
        _ => false,
    }
}

impl FrrSerializer for OpenfabricInterface {
    open spec fn text(&self) -> Seq<char> {
        openfabric_interface_text(self@)
    }

    fn serialize(&self, f: &mut FrrConfigBlob) {
        let ghost start = f@;
        write_name_line(f, self.is_ipv6, " ipv6 router openfabric ", self.fabric_id.as_str());
        let ghost s1 = f@;
        write_name_line(f, self.is_ipv4, " ip router openfabric ", self.fabric_id.as_str());
        let ghost s2 = f@;
        write_flag_line(f, is_passive(self.passive), " openfabric passive\n");
        let ghost s3 = f@;
        let hello: Option<u16> = match self.hello_interval {
            Some(v) => Some(v.value()),
            None => None,
        };
        write_number_line(f, " openfabric hello-interval ", hello);
        let ghost s4 = f@;
        let multiplier: Option<u16> = match self.hello_multiplier {
            Some(v) => Some(v.value()),
            None => None,
        };
        write_number_line(f, " openfabric hello-multiplier ", multiplier);
        let ghost s5 = f@;
        let csnp: Option<u16> = match self.csnp_interval {
            Some(v) => Some(v.value()),
            None => None,
        };
        write_number_line(f, " openfabric csnp-interval ", csnp);
        proof {
            let a = if self.is_ipv6 {
                " ipv6 router openfabric "@ + self.fabric_id@ + "\n"@
            } else {
                Seq::empty()
            };
            let b = if self.is_ipv4 {
                " ip router openfabric "@ + self.fabric_id@ + "\n"@
            } else {
                Seq::empty()
            };
            let c = if self.passive == Some(true) {
                " openfabric passive\n"@
            } else {
                Seq::empty()
            };
            let d = match self.hello_interval {
                Some(v) => " openfabric hello-interval "@ + dec_text(v.seconds()) + "\n"@,
                None => Seq::empty(),
            };
            let e = match self.hello_multiplier {
                Some(v) => " openfabric hello-multiplier "@ + dec_text(v.factor()) + "\n"@,
                None => Seq::empty(),
            };
            let g = match self.csnp_interval {
                Some(v) => " openfabric csnp-interval "@ + dec_text(v.seconds()) + "\n"@,
                None => Seq::empty(),
            };
            assert(s1 == start + a);
            assert(s2 == s1 + b);
            assert(s3 == s2 + c);
            assert(s4 == s3 + d);
            assert(s5 == s4 + e);
            assert(f@ == s5 + g);
            lemma_concat_assoc(start, a, b);
            lemma_concat_assoc(start, a + b, c);
            lemma_concat_assoc(start, a + b + c, d);
            lemma_concat_assoc(start, a + b + c + d, e);
            lemma_concat_assoc(start, a + b + c + d + e, g);
        }
    }
}

/// A network type as the daemon reads it.
pub fn network_type_str(t: NetworkType) -> (r: &'static str)
    ensures
        r@ == network_type_text(t),
{
    match t {
        NetworkType::Broadcast => "broadcast",
        NetworkType::NonBroadcast => "non-broadcast",
        NetworkType::PointToPoint => "point-to-point",
        NetworkType::PointToMultipoint => "point-to-multicast",
    }
}

/// An action as the daemon reads it.
pub fn action_str(a: AccessAction) -> (r: &'static str)
    ensures
        r@ == action_text(a),
{
    match a {
        AccessAction::Permit => "permit",
        AccessAction::Deny => "deny",
    }
}

/// A protocol as the daemon reads it.
pub fn protocol_str(p: ProtocolType) -> (r: &'static str)
    ensures
        r@ == protocol_text(p),
{
    match p {
        ProtocolType::Openfabric => "openfabric",
        ProtocolType::Ospf => "ospf",
    }
}

impl FrrSerializer for OspfInterface {
    open spec fn text(&self) -> Seq<char> {
        ospf_interface_text(self@)
    }

    fn serialize(&self, f: &mut FrrConfigBlob) {
        let ghost start = f@;
        f.write_str(" ip ospf area ");
        f.write_str(self.area.as_str());
        f.write_str("\n");
        let ghost a = " ip ospf area "@ + self.area@ + "\n"@;
        assert(f@ =~= start + a);
        match self.passive {
            Some(true) => {
                f.write_str(" ip ospf passive\n");
            },
            _ => {},
        }
        let ghost b = if self.passive == Some(true) {
            " ip ospf passive\n"@
        } else {
            Seq::empty()
        };
        assert(f@ =~= start + a + b);
        if let Some(network_type) = self.network_type {
            f.write_str(" ip ospf network ");
            f.write_str(network_type_str(network_type));
            f.write_str("\n");
        }
        let ghost c = match self.network_type {
            Some(t) => " ip ospf network "@ + network_type_text(t) + "\n"@,
            None => Seq::empty(),
        };
        assert(f@ =~= start + a + b + c);
        assert(f@ =~= start + self.text());
    }
}

impl FrrSerializer for Interface {
    open spec fn text(&self) -> Seq<char> {
        interface_text(self@)
    }

    fn serialize(&self, f: &mut FrrConfigBlob) {
        match self {
            Interface::Openfabric(i) => i.serialize(f),
            Interface::Ospf(i) => i.serialize(f),
        }
    }
}

/// Writes the block of a router.
pub fn serialize_router(name: &RouterName, router: &Router, f: &mut FrrConfigBlob)
    ensures
        final(f)@ == old(f)@ + router_block(name@, router@),
{
    f.write_str("router ");
    match name {
        RouterName::Openfabric(n) => {
            f.write_str("openfabric ");
            f.write_str(n.as_str());
        },
        RouterName::Ospf(_) => {
            f.write_str("ospf");
        },
    }
    f.write_str("\n");
    assert(f@ =~= old(f)@ + "router "@ + router_name_text(name@) + "\n"@);
    router.serialize(f);
    f.write_str("exit\n");
    f.write_str("!\n");
    assert(f@ =~= old(f)@ + router_block(name@, router@));
}

/// Writes the block of an interface.
pub fn serialize_interface(name: &InterfaceName, interface: &Interface, f: &mut FrrConfigBlob)
    ensures
        final(f)@ == old(f)@ + interface_block(name@, interface@),
{
    f.write_str("interface ");
    f.write_str(name.as_str());
    f.write_str("\n");
    interface.serialize(f);
    f.write_str("exit\n");
    f.write_str("!\n");
    assert(f@ =~= old(f)@ + interface_block(name@, interface@));
}

/// Writes the line of one rule of an access-list.
fn write_rule(name: &str, rule: &AccessListRule, f: &mut FrrConfigBlob)
    ensures
        final(f)@ == old(f)@ + rule_text(name@, *rule),
{
    let ghost start = f@;
    let ghost family = if rule.network is Ipv6 {
        "ipv6 "@
    } else {
        "ip "@
    };
    match rule.network {
        Cidr::Ipv6(_) => {
            f.write_str("ipv6 ");
        },
        Cidr::Ipv4(_) => {
            f.write_str("ip ");
        },
    }
    f.write_str("access-list ");
    f.write_str(name);
    f.write_str(" ");
    let ghost s1 = f@;
    let seq: Option<u32> = rule.seq;
    let ghost numbered = match rule.seq {
        Some(n) => "seq "@ + dec_text(n as nat) + " "@,
        None => Seq::empty(),
    };
    if let Some(n) = seq {
        let ghost s0 = f@;
        f.write_str("seq ");
        f.write_dec(n);
        f.write_str(" ");
        proof {
            lemma_concat_assoc(s0, "seq "@, dec_text(n as nat));
            lemma_concat_assoc(s0, "seq "@ + dec_text(n as nat), " "@);
        }
    } else {
        assert(f@ =~= s1 + numbered);
    }
    let ghost s2 = f@;
    f.write_str(action_str(rule.action));
    f.write_str(" ");
    f.write_cidr(&rule.network);
    f.write_str("\n");
    proof {
        let a = family + "access-list "@ + name@ + " "@;
        lemma_concat_assoc(start, family, "access-list "@);
        lemma_concat_assoc(start, family + "access-list "@, name@);
        lemma_concat_assoc(start, family + "access-list "@ + name@, " "@);
        assert(s1 == start + a);
        assert(s2 == s1 + numbered);
        lemma_concat_assoc(start, a, numbered);
        let b = a + numbered;
        lemma_concat_assoc(start, b, action_text(rule.action));
        lemma_concat_assoc(start, b + action_text(rule.action), " "@);
        lemma_concat_assoc(start, b + action_text(rule.action) + " "@, cidr_text(rule.network));
        lemma_concat_assoc(
            start,
            b + action_text(rule.action) + " "@ + cidr_text(rule.network),
            "\n"@,
        );
    }
}

impl FrrSerializer for AccessList {
    open spec fn text(&self) -> Seq<char> {
        access_list_block(self@)
    }

    fn serialize(&self, f: &mut FrrConfigBlob) {
        let ghost start = f@;
        let mut k: usize = 0;
        assert(f@ =~= start + rules_text(self@.name, self@.rules, 0));
        while k < self.rules.len()
            invariant
                k <= self.rules.len(),
                f@ == start + rules_text(self@.name, self@.rules, k as int),
            decreases self.rules.len() - k,
        {
            write_rule(self.name.as_str(), &self.rules[k], f);
            proof {
                lemma_concat_assoc(
                    start,
                    rules_text(self@.name, self@.rules, k as int),
                    rule_text(self@.name, self@.rules[k as int]),
                );
            }
            k = k + 1;
        }
        f.write_str("!\n");
        proof {
            lemma_concat_assoc(
                start,
                rules_text(self@.name, self@.rules, self@.rules.len() as int),
                "!\n"@,
            );
        }
    }
}

/// Writes a match statement.
fn write_match(m: &RouteMapMatch, f: &mut FrrConfigBlob)
    ensures
        final(f)@ == old(f)@ + match_text(m@),
{
    match m {
        RouteMapMatch::V4(RouteMapMatchInner::IpAddress(n)) => {
            f.write_str("match ip address ");
            f.write_str(n.as_str());
        },
        RouteMapMatch::V4(RouteMapMatchInner::IpNextHop(n)) => {
            f.write_str("match ip next-hop ");
            f.write_str(n.as_str());
        },
        RouteMapMatch::V6(RouteMapMatchInner::IpAddress(n)) => {
            f.write_str("match ipv6 address ");
            f.write_str(n.as_str());
        },
        RouteMapMatch::V6(RouteMapMatchInner::IpNextHop(n)) => {
            f.write_str("match ipv6 next-hop ");
            f.write_str(n.as_str());
        },
    }
    assert(f@ =~= old(f)@ + match_text(m@));
}

/// Writes a set statement.
fn write_set(s: &RouteMapSet, f: &mut FrrConfigBlob)
    ensures
        final(f)@ == old(f)@ + set_text(s@),
{
    match s {
        RouteMapSet::LocalPreference(n) => {
            f.write_str("set local-preference ");
            f.write_dec(*n);
        },
        RouteMapSet::IpSrc(a) => {
            let text = a.to_text();
            f.write_str("set src ");
            f.write_str(text.as_str());
        },
        RouteMapSet::Metric(n) => {
            f.write_str("set metric ");
            f.write_dec(*n);
        },
        RouteMapSet::Community(c) => {
            f.write_str("set community ");
            f.write_str(c.as_str());
        },
    }
    assert(f@ =~= old(f)@ + set_text(s@));
}

impl FrrSerializer for RouteMap {
    open spec fn text(&self) -> Seq<char> {
        route_map_block(self@)
    }

    fn serialize(&self, f: &mut FrrConfigBlob) {
        let ghost start = f@;
        f.write_str("route-map ");
        f.write_str(self.name.as_str());
        f.write_str(" ");
        f.write_str(action_str(self.action));
        f.write_str(" ");
        f.write_dec(self.seq);
        f.write_str("\n");
        let ghost head = start + "route-map "@ + self@.name + " "@ + action_text(self@.action)
            + " "@ + dec_text(self@.seq as nat) + "\n"@;
        assert(f@ =~= head);
        let mut i: usize = 0;
        assert(f@ =~= head + matches_text(self@.matches, 0));
        while i < self.matches.len()
            invariant
                i <= self.matches.len(),
                f@ == head + matches_text(self@.matches, i as int),
            decreases self.matches.len() - i,
        {
            let ghost before = f@;
            f.write_str(" ");
            write_match(&self.matches[i], f);
            f.write_str("\n");
            assert(views(self.matches@)[i as int] == self.matches@[i as int]@);
            assert(f@ =~= before + " "@ + match_text(self@.matches[i as int]) + "\n"@);
            assert(f@ =~= head + matches_text(self@.matches, i + 1));
            i = i + 1;
        }
        let ghost mid = f@;
        let mut j: usize = 0;
        assert(f@ =~= mid + sets_text(self@.sets, 0));
        while j < self.sets.len()
            invariant
                j <= self.sets.len(),
                f@ == mid + sets_text(self@.sets, j as int),
            decreases self.sets.len() - j,
        {
            let ghost before = f@;
            f.write_str(" ");
            write_set(&self.sets[j], f);
            f.write_str("\n");
            assert(views(self.sets@)[j as int] == self.sets@[j as int]@);
            assert(f@ =~= before + " "@ + set_text(self@.sets[j as int]) + "\n"@);
            assert(f@ =~= mid + sets_text(self@.sets, j + 1));
            j = j + 1;
        }
        f.write_str("exit\n");
        f.write_str("!\n");
        assert(f@ =~= start + self.text());
    }
}

impl FrrSerializer for ProtocolRouteMap {
    open spec fn text(&self) -> Seq<char> {
        binding_block(self@)
    }

    fn serialize(&self, f: &mut FrrConfigBlob) {
        if self.is_ipv6 {
            f.write_str("ipv6 protocol ");
        } else {
            f.write_str("ip protocol ");
        }
        f.write_str(protocol_str(self.protocol));
        f.write_str(" route-map ");
        f.write_str(self.routemap_name.as_str());
        f.write_str("\n");
        f.write_str("!\n");
        assert(f@ =~= old(f)@ + self.text());
    }
}

impl FrrSerializer for FrrConfig {
    open spec fn text(&self) -> Seq<char> {
        config_text(self@)
    }

    fn serialize(&self, f: &mut FrrConfigBlob) {
        let ghost start = f@;
        let ghost c = self@;
        let mut i: usize = 0;
        let n: usize = self.router.len();
        assert(f@ =~= start + routers_text(c.router, 0));
        while i < n
            invariant
                i <= n,
                n == self.router@.len(),
                c == self@,
                f@ == start + routers_text(c.router, i as int),
            decreases n - i,
        {
            let ghost before = f@;
            serialize_router(self.router.key_at(i), self.router.value_at(i), f);
            assert(f@ =~= start + routers_text(c.router, i + 1));
            i = i + 1;
        }
        let ghost s1 = f@;
        let mut i: usize = 0;
        let n: usize = self.interfaces.len();
        assert(f@ =~= s1 + interfaces_text(c.interfaces, 0));
        while i < n
            invariant
                i <= n,
                n == self.interfaces@.len(),
                c == self@,
                f@ == s1 + interfaces_text(c.interfaces, i as int),
            decreases n - i,
        {
            serialize_interface(self.interfaces.key_at(i), self.interfaces.value_at(i), f);
            assert(f@ =~= s1 + interfaces_text(c.interfaces, i + 1));
            i = i + 1;
        }
        let ghost s2 = f@;
        let mut i: usize = 0;
        assert(f@ =~= s2 + access_lists_text(c.access_lists, 0));
        while i < self.access_lists.len()
            invariant
                i <= self.access_lists.len(),
                c == self@,
                f@ == s2 + access_lists_text(c.access_lists, i as int),
            decreases self.access_lists.len() - i,
        {
            self.access_lists[i].serialize(f);
            assert(c.access_lists[i as int] == self.access_lists@[i as int]@);
            assert(f@ =~= s2 + access_lists_text(c.access_lists, i + 1));
            i = i + 1;
        }
        let ghost s3 = f@;
        let mut i: usize = 0;
        assert(f@ =~= s3 + route_maps_text(c.routemaps, 0));
        while i < self.routemaps.len()
            invariant
                i <= self.routemaps.len(),
                c == self@,
                f@ == s3 + route_maps_text(c.routemaps, i as int),
            decreases self.routemaps.len() - i,
        {
            self.routemaps[i].serialize(f);
            assert(c.routemaps[i as int] == self.routemaps@[i as int]@);
            assert(f@ =~= s3 + route_maps_text(c.routemaps, i + 1));
            i = i + 1;
        }
        let ghost s4 = f@;
        let mut i: usize = 0;
        let n: usize = self.protocol_routemaps.len();
        assert(f@ =~= s4 + bindings_text(c.protocol_routemaps, 0));
        while i < n
            invariant
                i <= n,
                n == self.protocol_routemaps@.len(),
                c == self@,
                f@ == s4 + bindings_text(c.protocol_routemaps, i as int),
            decreases n - i,
        {
            self.protocol_routemaps.key_at(i).serialize(f);
            assert(f@ =~= s4 + bindings_text(c.protocol_routemaps, i + 1));
            i = i + 1;
        }
        assert(f@ =~= start + self.text());
    }
}

/// The whole configuration as one text.
pub fn dump(config: &FrrConfig) -> (r: String)
    ensures
        r@ == config_text(config@),
{
    let mut blob = FrrConfigBlob::new();
    config.serialize(&mut blob);
    assert(blob@ =~= config_text(config@));
    blob.into_string()
}

/// The line of `s` that starts at place `i`: up to the next line feed,
/// without a carriage return before it.
pub open spec fn line_at(s: Seq<char>, i: int) -> Seq<char> {
    let end = index_from(s, '\n', i);
    if end < s.len() && i < end && s[end - 1] == '\r' {
        s.subrange(i, end - 1)
    } else {
        s.subrange(i, end)
    }
}

/// The lines of `s` from place `i` on. A line ends with a line feed, or a
/// carriage return and a line feed, or where the text ends; nothing behind
/// the last line feed is no line.
pub open spec fn lines_from(s: Seq<char>, i: int) -> Seq<Seq<char>>
    decreases s.len() - i,
{
    if i < 0 || i >= s.len() {
        Seq::empty()
    } else {
        let end = index_from(s, '\n', i);
        if end >= s.len() {
            seq![line_at(s, i)]
        } else {
            proof {
                crate::text::lemma_index_from(s, '\n', i);
            }
            seq![line_at(s, i)] + lines_from(s, end + 1)
        }
    }
}

/// The whole configuration as its lines.
pub fn to_raw_config(frr_config: &FrrConfig) -> (r: Vec<String>)
    ensures
        views(r@) == lines_from(config_text(frr_config@), 0),
{
    let text = dump(frr_config);
    let v = chars_of(text.as_str());
    let mut out: Vec<String> = Vec::new();
    let mut i: usize = 0;
    assert(views(out@) + lines_from(v@, 0) =~= lines_from(v@, 0));
    while i < v.len()
        invariant
            i <= v.len(),
            v@ == config_text(frr_config@),
            views(out@) + lines_from(v@, i as int) == lines_from(v@, 0),
        decreases v.len() - i,
    {
        let end: usize = find_from(&v, '\n', i);
        let stop: usize = if end < v.len() && i < end && v[end - 1] == '\r' {
            end - 1
        } else {
            end
        };
        let line = string_of(&v, i, stop);
        proof {
            crate::views::lemma_views_push(out@, line);
            assert(line@ == line_at(v@, i as int));
            if end < v.len() {
                assert(views(out@).push(line@) + lines_from(v@, end + 1) =~= views(out@) + (
                seq![line_at(v@, i as int)] + lines_from(v@, end + 1)));
            } else {
                assert(views(out@).push(line@) =~= views(out@) + seq![line_at(v@, i as int)]);
            }
        }
        out.push(line);
        if end >= v.len() {
            return out;
        }
        i = end + 1;
    }
    assert(lines_from(v@, i as int) =~= Seq::empty());
    assert(views(out@) =~= lines_from(v@, 0));
    out
}

} // verus!
