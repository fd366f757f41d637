//! Zones, virtual networks and subnets.
//!
//! A configuration holds zones, each zone its virtual networks, and each
//! virtual network its subnets. The name of a virtual network occurs in one
//! zone only, and a subnet lies in the zone that its name holds; both are
//! looked at when something is added.

use vstd::prelude::*;
use crate::common::{lists, Allowlist};
use crate::firewall::types::ipset::{
    Ipset, IpsetEntry, IpsetEntryView, IpsetName, IpsetScope, IpsetView,
};
use crate::ip_address::cidr::Cidr;
use crate::ip_address::range::{AddressRange, IpRange, IpRangeError};
use crate::ip_address::IpAddr;
use crate::ordered::{has_key, lemma_fits_back, lookup, position, put, OrderedMap};
use crate::sdn::{SdnNameError, SubnetName, VnetName, ZoneName};
use crate::text::text_same;
use crate::views::views;

verus! {

/// What can be wrong with zones, virtual networks and subnets.
#[derive(Copy, Clone, Debug, PartialEq, Eq, Structural, Hash, PartialOrd, Ord)]
pub enum SdnConfigError {
    InvalidZoneType,
    InvalidDhcpType,
    ZoneNotFound,
    VnetNotFound,
    MismatchedCidrGateway,
    MismatchedSubnetZone,
    NameError(SdnNameError),
    InvalidDhcpRange(IpRangeError),
    DuplicateVnetName,
}

impl SdnConfigError {
    /// What the error says; an error that wraps another says what that one
    /// says behind its own words.
    pub open spec fn text(self) -> Seq<char> {
        match self {
            SdnConfigError::NameError(e) => "invalid name: "@ + e.text(),
            SdnConfigError::InvalidDhcpRange(e) => "invalid dhcp range: "@ + e.text(),
            SdnConfigError::ZoneNotFound => "zone not found"@,
            SdnConfigError::VnetNotFound => "vnet not found"@,
            SdnConfigError::MismatchedCidrGateway =>
                "mismatched ip address family for gateway and CIDR"@,
            SdnConfigError::InvalidZoneType => "invalid zone type"@,
            SdnConfigError::InvalidDhcpType => "invalid dhcp type"@,
            SdnConfigError::DuplicateVnetName => "vnet name occurs in multiple zones"@,
            SdnConfigError::MismatchedSubnetZone => "subnet zone does not match actual zone"@,
        }
    }

    /// What the error says.
    pub fn message(&self) -> (r: String)
        ensures
            r@ == self.text(),
    {
        match self {
            SdnConfigError::NameError(e) => {
                let mut m = String::from_str("invalid name: ");
                m.append(e.message());
                m
            },
            SdnConfigError::InvalidDhcpRange(e) => {
                let mut m = String::from_str("invalid dhcp range: ");
                m.append(e.message());
                m
            },
            SdnConfigError::ZoneNotFound => String::from_str("zone not found"),
            SdnConfigError::VnetNotFound => String::from_str("vnet not found"),
            SdnConfigError::MismatchedCidrGateway => String::from_str(
                "mismatched ip address family for gateway and CIDR",
            ),
            SdnConfigError::InvalidZoneType => String::from_str("invalid zone type"),
            SdnConfigError::InvalidDhcpType => String::from_str("invalid dhcp type"),
            SdnConfigError::DuplicateVnetName => String::from_str(
                "vnet name occurs in multiple zones",
            ),
            SdnConfigError::MismatchedSubnetZone => String::from_str(
                "subnet zone does not match actual zone",
            ),
        }
    }
}

/// The kinds of zones.
#[derive(Copy, Clone, Debug, PartialEq, Eq, Structural, Hash, PartialOrd, Ord)]
pub enum ZoneType {
    Simple,
    Vlan,
    Qinq,
    Vxlan,
    Evpn,
}

impl ZoneType {
    /// The kind as text.
    pub open spec fn text(self) -> Seq<char> {
        match self {
            ZoneType::Simple => "simple"@,
            ZoneType::Vlan => "vlan"@,
            ZoneType::Qinq => "qinq"@,
            ZoneType::Vxlan => "vxlan"@,
            ZoneType::Evpn => "evpn"@,
        }
    }

    /// What a text means as a kind of zone.
    pub open spec fn parse_spec(s: Seq<char>) -> Option<ZoneType> {
        if s == "simple"@ {
            Some(ZoneType::Simple)
        } else if s == "vlan"@ {
            Some(ZoneType::Vlan)
        } else if s == "qinq"@ {
            Some(ZoneType::Qinq)
        } else if s == "vxlan"@ {
            Some(ZoneType::Vxlan)
        } else if s == "evpn"@ {
            Some(ZoneType::Evpn)
        } else {
            None
        }
    }

    /// Reads a kind of zone from its text.
    pub fn parse_text(s: &str) -> (r: Result<ZoneType, SdnConfigError>)
        ensures
            match ZoneType::parse_spec(s@) {
                Some(t) => r == Ok::<ZoneType, SdnConfigError>(t),
                None => r == Err::<ZoneType, SdnConfigError>(SdnConfigError::InvalidZoneType),
            },
    {
        if text_same(s, "simple") {
            Ok(ZoneType::Simple)
        } else if text_same(s, "vlan") {
            Ok(ZoneType::Vlan)
        } else if text_same(s, "qinq") {
            Ok(ZoneType::Qinq)
        } else if text_same(s, "vxlan") {
            Ok(ZoneType::Vxlan)
        } else if text_same(s, "evpn") {
            Ok(ZoneType::Evpn)
        } else {
            Err(SdnConfigError::InvalidZoneType)
        }
    }

    /// The kind as text.
    pub fn as_str(&self) -> (r: &'static str)
        ensures
            r@ == self.text(),
    {
        match self {
            ZoneType::Simple => "simple",
            ZoneType::Vlan => "vlan",
            ZoneType::Qinq => "qinq",
            ZoneType::Vxlan => "vxlan",
            ZoneType::Evpn => "evpn",
        }
    }
}

/// The kinds of DHCP servers.
#[derive(Copy, Clone, Debug, PartialEq, Eq, Structural, Hash, PartialOrd, Ord)]
pub enum DhcpType {
    Dnsmasq,
}

impl DhcpType {
    /// Reads a kind of DHCP server from its text.
    pub fn parse_text(s: &str) -> (r: Result<DhcpType, SdnConfigError>)
        ensures
            s@ == "dnsmasq"@ ==> r == Ok::<DhcpType, SdnConfigError>(DhcpType::Dnsmasq),
            s@ != "dnsmasq"@ ==> r == Err::<DhcpType, SdnConfigError>(
                SdnConfigError::InvalidDhcpType,
            ),
    {
        if text_same(s, "dnsmasq") {
            Ok(DhcpType::Dnsmasq)
        } else {
            Err(SdnConfigError::InvalidDhcpType)
        }
    }

    /// The kind as text.
    pub fn as_str(&self) -> (r: &'static str)
        ensures
            r@ == "dnsmasq"@,
    {
        match self {
            DhcpType::Dnsmasq => "dnsmasq",
        }
    }
}

/// A zone of the running configuration.
#[derive(Clone, Debug, PartialEq, Eq, Hash, PartialOrd, Ord)]
pub struct ZoneRunningConfig {
    pub ty: ZoneType,
    pub dhcp: Option<DhcpType>,
}

/// The zones of the running configuration, each under its name.
#[derive(Clone, Debug, PartialEq, Eq, Default)]
pub struct ZonesRunningConfig {
    pub ids: Vec<(ZoneName, ZoneRunningConfig)>,
}

/// A range of addresses that a DHCP server hands out, as the running
/// configuration holds it.
#[derive(Clone, Copy, Debug, PartialEq, Eq, Structural, Hash, PartialOrd, Ord)]
pub struct DhcpRange {
    pub start: IpAddr,
    pub end: IpAddr,
}

/// A subnet of the running configuration.
#[derive(Clone, Debug, PartialEq, Eq, Hash, PartialOrd, Ord)]
pub struct SubnetRunningConfig {
    pub vnet: VnetName,
    pub gateway: Option<IpAddr>,
    pub snat: Option<u8>,
    pub dhcp_range: Option<Vec<DhcpRange>>,
}

/// The subnets of the running configuration, each under its name.
#[derive(Clone, Debug, PartialEq, Eq, Default)]
pub struct SubnetsRunningConfig {
    pub ids: Vec<(SubnetName, SubnetRunningConfig)>,
}

/// A virtual network of the running configuration.
#[derive(Clone, Debug, PartialEq, Eq, Hash, PartialOrd, Ord)]
pub struct VnetRunningConfig {
    pub tag: Option<u32>,
    pub zone: ZoneName,
}

/// The virtual networks of the running configuration, each under its name.
#[derive(Clone, Debug, PartialEq, Eq, Default)]
pub struct VnetsRunningConfig {
    pub ids: Vec<(VnetName, VnetRunningConfig)>,
}

/// The running configuration.
#[derive(Clone, Debug, PartialEq, Eq, Default)]
pub struct RunningConfig {
    pub zones: Option<ZonesRunningConfig>,
    pub subnets: Option<SubnetsRunningConfig>,
    pub vnets: Option<VnetsRunningConfig>,
}

/// A subnet: its name, which holds its zone and its prefix, its gateway,
/// whether its traffic leaves under the address of the host (source NAT),
/// and the ranges that its DHCP server hands out.
#[derive(Clone, Debug, PartialEq, Eq, Hash, PartialOrd, Ord)]
pub struct SubnetConfig {
    name: SubnetName,
    gateway: Option<IpAddr>,
    snat: bool,
    dhcp_range: Vec<IpRange>,
}

/// The view of a subnet.
pub struct SubnetConfigView {
    pub zone: Seq<char>,
    pub cidr: Cidr,
    pub gateway: Option<IpAddr>,
    pub snat: bool,
    pub dhcp_range: Seq<IpRange>,
}

impl View for SubnetConfig {
    type V = SubnetConfigView;

    closed spec fn view(&self) -> SubnetConfigView {
        SubnetConfigView {
            zone: self.name.zone_text(),
            cidr: self.name.prefix(),
            gateway: self.gateway,
            snat: self.snat,
            dhcp_range: self.dhcp_range@,
        }
    }
}

/// The range that a range of the running configuration stands for.
pub open spec fn range_of(d: DhcpRange) -> IpRange {
    AddressRange::between(d.start, d.end)
}

/// The ranges that ranges of the running configuration stand for.
pub open spec fn ranges_of(given: Seq<DhcpRange>) -> Seq<IpRange> {
    Seq::new(given.len(), |k: int| range_of(given[k]))
}

/// Why a range of the running configuration stands for no range, if it
/// stands for none.
pub open spec fn range_error(d: DhcpRange) -> Option<IpRangeError> {
    if d.start.family_of() != d.end.family_of() {
        Some(IpRangeError::MismatchedFamilies)
    } else if d.start.value() > d.end.value() {
        Some(IpRangeError::StartGreaterThanLast)
    } else {
        None
    }
}

/// The error of the first range at place `k` or behind it that stands for
/// no range.
pub open spec fn first_range_error(given: Seq<DhcpRange>, k: int) -> Option<IpRangeError>
    decreases given.len() - k,
{
    if k < 0 || k >= given.len() {
        None
    } else {
        match range_error(given[k]) {
            Some(e) => Some(e),
            None => first_range_error(given, k + 1),
        }
    }
}

/// The ranges that the running configuration gives for a subnet.
pub open spec fn given_ranges(given: Option<Vec<DhcpRange>>) -> Seq<DhcpRange> {
    match given {
        Some(v) => v@,
        None => Seq::empty(),
    }
}

/// The subnet that the running configuration holds for a zone and a
/// prefix, or why it holds none: each of its ranges has to be a range, and
/// its gateway has to be of the family of the prefix. Source NAT is on
/// where the configuration says so with a number other than zero.
pub open spec fn subnet_of(zone: Seq<char>, cidr: Cidr, running: SubnetRunningConfig) -> Result<
    SubnetConfigView,
    SdnConfigError,
> {
    match first_range_error(given_ranges(running.dhcp_range), 0) {
        Some(e) => Err(SdnConfigError::InvalidDhcpRange(e)),
        None => if running.gateway is Some && running.gateway->Some_0.family_of()
            != cidr.family_of() {
            Err(SdnConfigError::MismatchedCidrGateway)
        } else {
            Ok(
                SubnetConfigView {
                    zone,
                    cidr,
                    gateway: running.gateway,
                    snat: running.snat is Some && running.snat->Some_0 != 0,
                    dhcp_range: ranges_of(given_ranges(running.dhcp_range)),
                },
            )
        },
    }
}

impl SubnetConfig {
    /// The subnet of the given parts. The gateway has to be of the family
    /// of the prefix.
    pub fn new(name: SubnetName, gateway: Option<IpAddr>, snat: bool, dhcp_range: Vec<IpRange>) -> (r:
        Result<SubnetConfig, SdnConfigError>)
        ensures
            if gateway is Some && gateway->Some_0.family_of() != name.prefix().family_of() {
                r == Err::<SubnetConfig, SdnConfigError>(SdnConfigError::MismatchedCidrGateway)
            } else {
                r is Ok && r->Ok_0@ == (SubnetConfigView {
                    zone: name.zone_text(),
                    cidr: name.prefix(),
                    gateway,
                    snat,
                    dhcp_range: dhcp_range@,
                })
            },
    {
        if let Some(g) = gateway {
            if !((g.is_ipv4() && name.cidr().is_ipv4()) || (g.is_ipv6() && name.cidr().is_ipv6())) {
                return Err(SdnConfigError::MismatchedCidrGateway);
            }
        }
        Ok(SubnetConfig { name, gateway, snat, dhcp_range })
    }

    /// The subnet that the running configuration holds under the given
    /// name. Source NAT is on where the configuration says so with a number
    /// other than zero, and each of its ranges has to be a range.
    pub fn try_from_running_config(name: SubnetName, running_config: SubnetRunningConfig) -> (r:
        Result<SubnetConfig, SdnConfigError>)
        ensures
            match subnet_of(name.zone_text(), name.prefix(), running_config) {
                Ok(v) => r is Ok && r->Ok_0@ == v,
                Err(e) => r == Err::<SubnetConfig, SdnConfigError>(e),
            },
    {
        let snat: bool = match running_config.snat {
            Some(n) => n != 0,
            None => false,
        };
        let ghost given = given_ranges(running_config.dhcp_range);
        let mut dhcp_range: Vec<IpRange> = Vec::new();
        match &running_config.dhcp_range {
            Some(list) => {
                let mut k: usize = 0;
                while k < list.len()
                    invariant
                        k <= list.len(),
                        list@ == given,
                        given == given_ranges(running_config.dhcp_range),
                        first_range_error(given, k as int) == first_range_error(given, 0),
                        dhcp_range@.len() == k,
                        forall|j: int| 0 <= j < k ==> #[trigger] dhcp_range@[j] == range_of(given[j]),
                    decreases list.len() - k,
                {
                    match AddressRange::new(list[k].start, list[k].end) {
                        Ok(range) => {
                            dhcp_range.push(range);
                        },
                        Err(e) => {
                            return Err(SdnConfigError::InvalidDhcpRange(e));
                        },
                    }
                    k = k + 1;
                }
            },
            None => {},
        }
        assert(dhcp_range@ =~= ranges_of(given));
        SubnetConfig::new(name, running_config.gateway, snat, dhcp_range)
    }

    pub fn name(&self) -> (r: &SubnetName)
        ensures
            r.zone_text() == self@.zone,
            r.prefix() == self@.cidr,
    {
        &self.name
    }

    pub fn gateway(&self) -> (r: Option<&IpAddr>)
        ensures
            match r {
                Some(g) => self@.gateway == Some(*g),
                None => self@.gateway is None,
            },
    {
        match &self.gateway {
            Some(g) => Some(g),
            None => None,
        }
    }

    pub fn snat(&self) -> (r: bool)
        ensures
            r == self@.snat,
    {
        self.snat
    }

    pub fn cidr(&self) -> (r: &Cidr)
        ensures
            *r == self@.cidr,
    {
        self.name.cidr()
    }

    /// The ranges that the DHCP server of the subnet hands out.
    pub fn dhcp_ranges(&self) -> (r: &Vec<IpRange>)
        ensures
            r@ == self@.dhcp_range,
    {
        &self.dhcp_range
    }
}

/// The subnets with the first `k` of the given ones put in, each under its
/// prefix, a later one in place of an earlier one of the same prefix.
pub open spec fn with_subnets(
    s: Seq<(Cidr, SubnetConfigView)>,
    items: Seq<SubnetConfigView>,
    k: int,
) -> Seq<(Cidr, SubnetConfigView)>
    decreases k,
{
    if k <= 0 {
        s
    } else {
        put::<Cidr, _>(with_subnets(s, items, k - 1), items[k - 1].cidr, items[k - 1])
    }
}

/// The virtual networks with the first `k` of the given ones put in, each
/// under its name, a later one in place of an earlier one of the same name.
pub open spec fn with_vnets(
    s: Seq<(Seq<char>, VnetConfigView)>,
    items: Seq<VnetConfigView>,
    k: int,
) -> Seq<(Seq<char>, VnetConfigView)>
    decreases k,
{
    if k <= 0 {
        s
    } else {
        put::<VnetName, _>(with_vnets(s, items, k - 1), items[k - 1].name, items[k - 1])
    }
}

/// A virtual network: its name, its tag and its subnets by prefix, in
/// ascending order of the prefixes.
#[derive(Debug, PartialEq, Eq)]
pub struct VnetConfig {
    name: VnetName,
    tag: Option<u32>,
    subnets: OrderedMap<Cidr, SubnetConfig>,
}

/// The view of a virtual network.
pub struct VnetConfigView {
    pub name: Seq<char>,
    pub tag: Option<u32>,
    pub subnets: Seq<(Cidr, SubnetConfigView)>,
}

impl View for VnetConfig {
    type V = VnetConfigView;

    closed spec fn view(&self) -> VnetConfigView {
        VnetConfigView { name: self.name@, tag: self.tag, subnets: self.subnets@ }
    }
}

impl VnetConfig {
    /// The virtual network without subnets.
    pub fn new(name: VnetName, tag: Option<u32>) -> (r: VnetConfig)
        ensures
            r@ == (VnetConfigView { name: name@, tag, subnets: Seq::empty() }),
    {
        VnetConfig { name, subnets: OrderedMap::new(), tag }
    }

    /// Puts a subnet in, under its prefix, and hands back the subnet that
    /// was there under that prefix, if any.
    pub fn add_subnet(&mut self, subnet: SubnetConfig) -> (r: Result<
        Option<SubnetConfig>,
        SdnConfigError,
    >)
        ensures
            r is Ok,
            final(self)@ == (VnetConfigView {
                subnets: put::<Cidr, _>(old(self)@.subnets, subnet@.cidr, subnet@),
                ..old(self)@
            }),
            match r->Ok_0 {
                Some(s) => lookup(old(self)@.subnets, subnet@.cidr) == Some(s@),
                None => lookup(old(self)@.subnets, subnet@.cidr) is None,
            },
    {
        let key: Cidr = *subnet.cidr();
        Ok(self.subnets.insert(key, subnet))
    }

    /// Puts subnets in, one after the other.
    pub fn add_subnets(&mut self, subnets: Vec<SubnetConfig>) -> (r: Result<(), SdnConfigError>)
        ensures
            r is Ok,
            final(self)@ == (VnetConfigView {
                subnets: with_subnets(old(self)@.subnets, views(subnets@), subnets@.len() as int),
                ..old(self)@
            }),
    {
        let ghost all = views(subnets@);
        let ghost start = self@;
        let mut rest = subnets;
        let ghost mut k: int = 0;
        while rest.len() > 0
            invariant
                0 <= k,
                k + rest@.len() == all.len(),
                forall|j: int| 0 <= j < rest@.len() ==> (#[trigger] rest@[j])@ == all[k + j],
                self@ == (VnetConfigView { subnets: with_subnets(start.subnets, all, k), ..start }),
            decreases rest@.len(),
        {
            let subnet = rest.remove(0);
            assert(subnet@ == all[k]);
            let key: Cidr = *subnet.cidr();
            self.subnets.insert(key, subnet);
            proof {
                k = k + 1;
            }
        }
        Ok(())
    }

    /// The virtual network of the given name, without a tag, with the
    /// given subnets.
    pub fn from_subnets(name: VnetName, subnets: Vec<SubnetConfig>) -> (r: Result<
        VnetConfig,
        SdnConfigError,
    >)
        ensures
            r is Ok,
            r->Ok_0@ == (VnetConfigView {
                name: name@,
                tag: None,
                subnets: with_subnets(Seq::empty(), views(subnets@), subnets@.len() as int),
            }),
    {
        let mut config = VnetConfig::new(name, None);
        match config.add_subnets(subnets) {
            Ok(()) => Ok(config),
            Err(e) => Err(e),
        }
    }

    /// The virtual network of the given name and tag, with the given
    /// subnets.
    pub fn from_subnets_and_tag(name: VnetName, tag: Option<u32>, subnets: Vec<SubnetConfig>) -> (r:
        Result<VnetConfig, SdnConfigError>)
        ensures
            r is Ok,
            r->Ok_0@ == (VnetConfigView {
                name: name@,
                tag,
                subnets: with_subnets(Seq::empty(), views(subnets@), subnets@.len() as int),
            }),
    {
        let mut config = VnetConfig::new(name, None);
        config.tag = tag;
        match config.add_subnets(subnets) {
            Ok(()) => Ok(config),
            Err(e) => Err(e),
        }
    }

    /// The number of subnets.
    pub fn subnet_count(&self) -> (n: usize)
        ensures
            n == self@.subnets.len(),
    {
        self.subnets.len()
    }

    /// The subnet at place `i` in the order of the prefixes.
    pub fn subnet_at(&self, i: usize) -> (r: &SubnetConfig)
        requires
            i < self@.subnets.len(),
        ensures
            r@ == self@.subnets[i as int].1,
    {
        self.subnets.value_at(i)
    }

    /// The subnet of the given prefix.
    pub fn subnet(&self, cidr: &Cidr) -> (r: Option<&SubnetConfig>)
        ensures
            match r {
                Some(s) => lookup(self@.subnets, *cidr) == Some(s@),
                None => lookup(self@.subnets, *cidr) is None,
            },
    {
        self.subnets.get(cidr)
    }

    pub fn name(&self) -> (r: &VnetName)
        ensures
            r@ == self@.name,
    {
        &self.name
    }

    pub fn tag(&self) -> (r: &Option<u32>)
        ensures
            *r == self@.tag,
    {
        &self.tag
    }
}

/// A zone: its name, its kind and its virtual networks by name, in
/// ascending order of the names.
#[derive(Debug, PartialEq, Eq)]
pub struct ZoneConfig {
    name: ZoneName,
    ty: ZoneType,
    vnets: OrderedMap<VnetName, VnetConfig>,
}

/// The view of a zone.
pub struct ZoneConfigView {
    pub name: Seq<char>,
    pub ty: ZoneType,
    pub vnets: Seq<(Seq<char>, VnetConfigView)>,
}

impl View for ZoneConfig {
    type V = ZoneConfigView;

    closed spec fn view(&self) -> ZoneConfigView {
        ZoneConfigView { name: self.name@, ty: self.ty, vnets: self.vnets@ }
    }
}

impl ZoneConfig {
    /// The zone without virtual networks.
    pub fn new(name: ZoneName, ty: ZoneType) -> (r: ZoneConfig)
        ensures
            r@ == (ZoneConfigView { name: name@, ty, vnets: Seq::empty() }),
    {
        ZoneConfig { name, ty, vnets: OrderedMap::new() }
    }

    /// Puts a virtual network in, under its name, and hands back the one
    /// that was there under that name, if any.
    pub fn add_vnet(&mut self, vnet: VnetConfig) -> (r: Result<Option<VnetConfig>, SdnConfigError>)
        ensures
            r is Ok,
            final(self)@ == (ZoneConfigView {
                vnets: put::<VnetName, _>(old(self)@.vnets, vnet@.name, vnet@),
                ..old(self)@
            }),
            match r->Ok_0 {
                Some(v) => lookup(old(self)@.vnets, vnet@.name) == Some(v@),
                None => lookup(old(self)@.vnets, vnet@.name) is None,
            },
    {
        let key = vnet.name.clone();
        Ok(self.vnets.insert(key, vnet))
    }

    /// Puts virtual networks in, one after the other.
    pub fn add_vnets(&mut self, vnets: Vec<VnetConfig>) -> (r: Result<(), SdnConfigError>)
        ensures
            r is Ok,
            final(self)@ == (ZoneConfigView {
                vnets: with_vnets(old(self)@.vnets, views(vnets@), vnets@.len() as int),
                ..old(self)@
            }),
    {
        let ghost all = views(vnets@);
        let ghost start = self@;
        let mut rest = vnets;
        let ghost mut k: int = 0;
        while rest.len() > 0
            invariant
                0 <= k,
                k + rest@.len() == all.len(),
                forall|j: int| 0 <= j < rest@.len() ==> (#[trigger] rest@[j])@ == all[k + j],
                self@ == (ZoneConfigView { vnets: with_vnets(start.vnets, all, k), ..start }),
            decreases rest@.len(),
        {
            let vnet = rest.remove(0);
            assert(vnet@ == all[k]);
            let key = vnet.name.clone();
            self.vnets.insert(key, vnet);
            proof {
                k = k + 1;
            }
        }
        Ok(())
    }

    /// The zone of the given name and kind, with the given virtual
    /// networks.
    pub fn from_vnets(name: ZoneName, ty: ZoneType, vnets: Vec<VnetConfig>) -> (r: Result<
        ZoneConfig,
        SdnConfigError,
    >)
        ensures
            r is Ok,
            r->Ok_0@ == (ZoneConfigView {
                name: name@,
                ty,
                vnets: with_vnets(Seq::empty(), views(vnets@), vnets@.len() as int),
            }),
    {
        let mut config = ZoneConfig::new(name, ty);
        match config.add_vnets(vnets) {
            Ok(()) => Ok(config),
            Err(e) => Err(e),
        }
    }

    /// The number of virtual networks.
    pub fn vnet_count(&self) -> (n: usize)
        ensures
            n == self@.vnets.len(),
    {
        self.vnets.len()
    }

    /// The virtual network at place `i` in the order of the names.
    pub fn vnet_at(&self, i: usize) -> (r: &VnetConfig)
        requires
            i < self@.vnets.len(),
        ensures
            r@ == self@.vnets[i as int].1,
    {
        self.vnets.value_at(i)
    }

    /// The virtual network of the given name.
    pub fn vnet(&self, name: &VnetName) -> (r: Option<&VnetConfig>)
        ensures
            match r {
                Some(v) => lookup(self@.vnets, name@) == Some(v@),
                None => lookup(self@.vnets, name@) is None,
            },
    {
        self.vnets.get(name)
    }

    /// The virtual network of the given name, to be changed in place: the
    /// zone holds afterwards, under that name, the virtual network as it
    /// was left.
    pub fn vnet_mut(&mut self, name: &VnetName) -> (r: Option<&mut VnetConfig>)
        ensures
            match position(old(self)@.vnets, name@) {
                Some(i) => r is Some && r->Some_0@ == old(self)@.vnets[i].1 && final(self)@ == (
                ZoneConfigView {
                    vnets: old(self)@.vnets.update(
                        i,
                        (old(self)@.vnets[i].0, final(r->Some_0)@),
                    ),
                    ..old(self)@
                }),
                None => r is None && final(self)@ == old(self)@,
            },
    {
        self.vnets.get_mut(name)
    }

    pub fn name(&self) -> (r: &ZoneName)
        ensures
            r@ == self@.name,
    {
        &self.name
    }

    pub fn ty(&self) -> (r: ZoneType)
        ensures
            r == self@.ty,
    {
        self.ty
    }
}

/// The view of a configuration: its zones by name, in ascending order of
/// the names.
pub type SdnConfigView = Seq<(Seq<char>, ZoneConfigView)>;

/// The zone at place `i` with the virtual network at place `j` replaced.
pub open spec fn with_vnet(c: SdnConfigView, i: int, j: int, v: VnetConfigView) -> SdnConfigView {
    c.update(
        i,
        (c[i].0, ZoneConfigView { vnets: c[i].1.vnets.update(j, (c[i].1.vnets[j].0, v)), ..c[i].1 }),
    )
}

/// What adding a subnet gives: the configuration afterwards, and the subnet
/// that was there under the same prefix, or why the subnet cannot be added.
/// The zone in the name of the subnet is looked at first, then the zone,
/// then the virtual network.
pub open spec fn add_subnet_spec(
    c: SdnConfigView,
    zone: Seq<char>,
    vnet: Seq<char>,
    s: SubnetConfigView,
) -> (SdnConfigView, Result<Option<SubnetConfigView>, SdnConfigError>) {
    if zone != s.zone {
        (c, Err(SdnConfigError::MismatchedSubnetZone))
    } else {
        match position(c, zone) {
            None => (c, Err(SdnConfigError::ZoneNotFound)),
            Some(i) => match position(c[i].1.vnets, vnet) {
                None => (c, Err(SdnConfigError::VnetNotFound)),
                Some(j) => {
                    let v = c[i].1.vnets[j].1;
                    (
                        with_vnet(
                            c,
                            i,
                            j,
                            VnetConfigView {
                                subnets: put::<Cidr, _>(v.subnets, s.cidr, s),
                                ..v
                            },
                        ),
                        Ok(lookup(v.subnets, s.cidr)),
                    )
                },
            },
        }
    }
}

/// Another zone than the one of the given name has a virtual network of
/// the given name.
pub open spec fn vnet_elsewhere(c: SdnConfigView, zone: Seq<char>, vnet: Seq<char>) -> bool {
    exists|i: int|
        0 <= i < c.len() && (#[trigger] c[i]).1.name != zone && has_key(c[i].1.vnets, vnet)
}

/// What adding subnets from place `k` on gives: the configuration
/// afterwards, and the first error where one stops it.
pub open spec fn add_subnets_from(
    c: SdnConfigView,
    zone: Seq<char>,
    vnet: Seq<char>,
    subnets: Seq<(Cidr, SubnetConfigView)>,
    k: int,
) -> (SdnConfigView, Option<SdnConfigError>)
    decreases subnets.len() - k,
{
    if k < 0 || k >= subnets.len() {
        (c, None)
    } else {
        let step = add_subnet_spec(c, zone, vnet, subnets[k].1);
        match step.1 {
            Err(e) => (step.0, Some(e)),
            Ok(_) => add_subnets_from(step.0, zone, vnet, subnets, k + 1),
        }
    }
}

/// What adding a virtual network to a zone gives: the configuration
/// afterwards, and the virtual network that was there under the same name,
/// or why it cannot be added. The name may not occur in another zone, and
/// the zone has to be there; then the virtual network is put in without its
/// subnets, and the subnets are added one after the other.
pub open spec fn add_vnet_spec(c: SdnConfigView, zone: Seq<char>, v: VnetConfigView) -> (
    SdnConfigView,
    Result<Option<VnetConfigView>, SdnConfigError>,
) {
    if vnet_elsewhere(c, zone, v.name) {
        (c, Err(SdnConfigError::DuplicateVnetName))
    } else {
        match position(c, zone) {
            None => (c, Err(SdnConfigError::ZoneNotFound)),
            Some(i) => {
                let bare = VnetConfigView { subnets: Seq::empty(), ..v };
                let placed = c.update(
                    i,
                    (
                        c[i].0,
                        ZoneConfigView {
                            vnets: put::<VnetName, _>(c[i].1.vnets, v.name, bare),
                            ..c[i].1
                        },
                    ),
                );
                let run = add_subnets_from(placed, zone, v.name, v.subnets, 0);
                match run.1 {
                    Some(e) => (run.0, Err(e)),
                    None => (run.0, Ok(lookup(c[i].1.vnets, v.name))),
                }
            },
        }
    }
}

/// What adding virtual networks from place `k` on gives.
pub open spec fn add_vnets_from(
    c: SdnConfigView,
    zone: Seq<char>,
    vnets: Seq<(Seq<char>, VnetConfigView)>,
    k: int,
) -> (SdnConfigView, Option<SdnConfigError>)
    decreases vnets.len() - k,
{
    if k < 0 || k >= vnets.len() {
        (c, None)
    } else {
        let step = add_vnet_spec(c, zone, vnets[k].1);
        match step.1 {
            Err(e) => (step.0, Some(e)),
            Ok(_) => add_vnets_from(step.0, zone, vnets, k + 1),
        }
    }
}

/// What adding a zone gives: the zone is put in without its virtual
/// networks, in place of a zone of the same name, and the virtual networks
/// are added one after the other.
pub open spec fn add_zone_spec(c: SdnConfigView, z: ZoneConfigView) -> (
    SdnConfigView,
    Result<Option<ZoneConfigView>, SdnConfigError>,
) {
    let bare = ZoneConfigView { vnets: Seq::empty(), ..z };
    let placed = put::<ZoneName, _>(c, z.name, bare);
    let run = add_vnets_from(placed, z.name, z.vnets, 0);
    match run.1 {
        Some(e) => (run.0, Err(e)),
        None => (run.0, Ok(lookup(c, z.name))),
    }
}

/// The outcome `r` is the outcome `s`, read by its view.
pub open spec fn same_outcome<T: View>(
    r: Result<Option<T>, SdnConfigError>,
    s: Result<Option<T::V>, SdnConfigError>,
) -> bool {
    match s {
        Err(e) => r == Err::<Option<T>, SdnConfigError>(e),
        Ok(None) => r is Ok && r->Ok_0 is None,
        Ok(Some(v)) => r is Ok && r->Ok_0 is Some && r->Ok_0->Some_0@ == v,
    }
}

/// A configuration of zones, virtual networks and subnets.
#[derive(Debug, PartialEq, Eq)]
pub struct SdnConfig {
    zones: OrderedMap<ZoneName, ZoneConfig>,
}

impl View for SdnConfig {
    type V = SdnConfigView;

    closed spec fn view(&self) -> SdnConfigView {
        self.zones@
    }
}

impl SdnConfig {
    /// The configuration without zones.
    pub fn new() -> (r: SdnConfig)
        ensures
            r@ == Seq::<(Seq<char>, ZoneConfigView)>::empty(),
    {
        SdnConfig { zones: OrderedMap::new() }
    }

    /// The number of zones.
    pub fn zone_count(&self) -> (n: usize)
        ensures
            n == self@.len(),
    {
        self.zones.len()
    }

    /// The zone at place `i` in the order of the names.
    pub fn zone_at(&self, i: usize) -> (r: &ZoneConfig)
        requires
            i < self@.len(),
        ensures
            r@ == self@[i as int].1,
    {
        self.zones.value_at(i)
    }

    /// The zone of the given name.
    pub fn zone(&self, name: &ZoneName) -> (r: Option<&ZoneConfig>)
        ensures
            match r {
                Some(z) => lookup(self@, name@) == Some(z@),
                None => lookup(self@, name@) is None,
            },
    {
        self.zones.get(name)
    }

    /// Adds a subnet to a virtual network of a zone, and hands back the
    /// subnet that was there under the same prefix, if any.
    pub fn add_subnet(&mut self, zone_name: &ZoneName, vnet_name: &VnetName, subnet: SubnetConfig) -> (r:
        Result<Option<SubnetConfig>, SdnConfigError>)
        ensures
            final(self)@ == add_subnet_spec(old(self)@, zone_name@, vnet_name@, subnet@).0,
            same_outcome(r, add_subnet_spec(old(self)@, zone_name@, vnet_name@, subnet@).1),
    {
        if !text_same(zone_name.as_str(), subnet.name.zone().as_str()) {
            return Err(SdnConfigError::MismatchedSubnetZone);
        }
        let count: usize = self.zones.len();
        match self.zones.find(zone_name) {
            None => Err(SdnConfigError::ZoneNotFound),
            Some(i) => {
                proof {
                    lemma_fits_back::<ZoneName, _>(self.zones@, i as int);
                }
                let (zone_key, zone) = self.zones.remove_at(i);
                let mut zone = zone;
                let vnets: usize = zone.vnets.len();
                let r = match zone.vnets.find(vnet_name) {
                    None => Err(SdnConfigError::VnetNotFound),
                    Some(j) => {
                        proof {
                            lemma_fits_back::<VnetName, _>(zone.vnets@, j as int);
                        }
                        let (vnet_key, vnet) = zone.vnets.remove_at(j);
                        let mut vnet = vnet;
                        let key: Cidr = *subnet.name.cidr();
                        let was = vnet.subnets.insert(key, subnet);
                        zone.vnets.insert_at(j, vnet_key, vnet);
                        Ok(was)
                    },
                };
                self.zones.insert_at(i, zone_key, zone);
                r
            },
        }
    }

    /// Whether another zone than the one of the given name has a virtual
    /// network of the given name.
    fn has_vnet_elsewhere(&self, zone_name: &ZoneName, vnet_name: &VnetName) -> (r: bool)
        ensures
            r == vnet_elsewhere(self@, zone_name@, vnet_name@),
    {
        let count: usize = self.zones.len();
        let mut i: usize = 0;
        while i < count
            invariant
                i <= count,
                count == self@.len(),
                forall|k: int|
                    0 <= k < i ==> !((#[trigger] self@[k]).1.name != zone_name@ && has_key(
                        self@[k].1.vnets,
                        vnet_name@,
                    )),
            decreases count - i,
        {
            let zone = self.zones.value_at(i);
            if !text_same(zone.name.as_str(), zone_name.as_str()) && zone.vnets.find(
                vnet_name,
            ).is_some() {
                assert(self@[i as int].1.name != zone_name@ && has_key(
                    self@[i as int].1.vnets,
                    vnet_name@,
                ));
                return true;
            }
            i = i + 1;
        }
        false
    }

    /// Adds a virtual network to a zone, with its subnets, and hands back
    /// the virtual network that was there under the same name, if any.
    /// Where a subnet cannot be added, the virtual network and the subnets
    /// before that one stay.
    pub fn add_vnet(&mut self, zone_name: &ZoneName, vnet: VnetConfig) -> (r: Result<
        Option<VnetConfig>,
        SdnConfigError,
    >)
        ensures
            final(self)@ == add_vnet_spec(old(self)@, zone_name@, vnet@).0,
            same_outcome(r, add_vnet_spec(old(self)@, zone_name@, vnet@).1),
    {
        let ghost given = vnet@;
        assert(given == vnet@);
        if self.has_vnet_elsewhere(zone_name, &vnet.name) {
            return Err(SdnConfigError::DuplicateVnetName);
        }
        let count: usize = self.zones.len();
        match self.zones.find(zone_name) {
            None => Err(SdnConfigError::ZoneNotFound),
            Some(i) => {
                let VnetConfig { name, tag, subnets } = vnet;
                let mut subnets = subnets;
                let bare = VnetConfig { name: name.clone(), tag, subnets: OrderedMap::new() };
                proof {
                    lemma_fits_back::<ZoneName, _>(self.zones@, i as int);
                }
                let (zone_key, zone) = self.zones.remove_at(i);
                let mut zone = zone;
                let was = zone.vnets.insert(name.clone(), bare);
                self.zones.insert_at(i, zone_key, zone);
                let ghost placed = self@;
                let ghost all = given.subnets;
                let ghost target = add_vnet_spec(old(self)@, zone_name@, given);
                let ghost run = add_subnets_from(placed, zone_name@, name@, all, 0);
                assert(target.0 == run.0);
                assert(run.1 is Some ==> target.1 == Err::<Option<VnetConfigView>, SdnConfigError>(
                    run.1->Some_0,
                ));
                assert(run.1 is None ==> same_outcome(
                    Ok::<Option<VnetConfig>, SdnConfigError>(was),
                    target.1,
                ));
                let ghost mut k: int = 0;
                while subnets.len() > 0
                    invariant
                        0 <= k,
                        k + subnets@.len() == all.len(),
                        forall|j: int|
                            0 <= j < subnets@.len() ==> #[trigger] subnets@[j] == all[k + j],
                        given == vnet@,
                        target == add_vnet_spec(old(self)@, zone_name@, given),
                        run == add_subnets_from(placed, zone_name@, name@, all, 0),
                        target.0 == run.0,
                        run.1 is Some ==> target.1 == Err::<Option<VnetConfigView>, SdnConfigError>(
                            run.1->Some_0,
                        ),
                        add_subnets_from(self@, zone_name@, name@, all, k) == run,
                    decreases subnets@.len(),
                {
                    let (_, subnet) = subnets.remove_at(0);
                    assert(subnet@ == all[k].1);
                    match self.add_subnet(zone_name, &name, subnet) {
                        Ok(_) => {},
                        Err(e) => {
                            return Err(e);
                        },
                    }
                    proof {
                        k = k + 1;
                    }
                }
                Ok(was)
            },
        }
    }

    /// Adds a zone, with its virtual networks, in place of a zone of the
    /// same name, and hands that zone back, if there was one. Where a
    /// virtual network cannot be added, the zone and what was added before
    /// stay.
    pub fn add_zone(&mut self, zone: ZoneConfig) -> (r: Result<Option<ZoneConfig>, SdnConfigError>)
        ensures
            final(self)@ == add_zone_spec(old(self)@, zone@).0,
            same_outcome(r, add_zone_spec(old(self)@, zone@).1),
    {
        let ghost given = zone@;
        let ZoneConfig { name, ty, vnets } = zone;
        let mut vnets = vnets;
        let bare = ZoneConfig { name: name.clone(), ty, vnets: OrderedMap::new() };
        let old_zone = self.zones.insert(name.clone(), bare);
        let ghost placed = self@;
        let ghost all = given.vnets;
        let ghost target = add_zone_spec(old(self)@, given);
        let ghost run = add_vnets_from(placed, name@, all, 0);
        assert(target.0 == run.0);
        assert(run.1 is None ==> same_outcome(
            Ok::<Option<ZoneConfig>, SdnConfigError>(old_zone),
            target.1,
        ));
        let ghost mut k: int = 0;
        while vnets.len() > 0
            invariant
                0 <= k,
                k + vnets@.len() == all.len(),
                forall|j: int| 0 <= j < vnets@.len() ==> #[trigger] vnets@[j] == all[k + j],
                given == zone@,
                target == add_zone_spec(old(self)@, given),
                run == add_vnets_from(placed, name@, all, 0),
                target.0 == run.0,
                run.1 is Some ==> target.1 == Err::<Option<ZoneConfigView>, SdnConfigError>(
                    run.1->Some_0,
                ),
                add_vnets_from(self@, name@, all, k) == run,
            decreases vnets@.len(),
        {
            let (_, vnet) = vnets.remove_at(0);
            assert(vnet@ == all[k].1);
            match self.add_vnet(&name, vnet) {
                Ok(_) => {},
                Err(e) => {
                    return Err(e);
                },
            }
            proof {
                k = k + 1;
            }
        }
        Ok(old_zone)
    }

    /// Adds zones one after the other, and stops at the first that cannot
    /// be added.
    pub fn add_zones(&mut self, zones: Vec<ZoneConfig>) -> (r: Result<(), SdnConfigError>)
        ensures
            final(self)@ == add_zones_from(old(self)@, views(zones@), 0).0,
            match add_zones_from(old(self)@, views(zones@), 0).1 {
                Some(e) => r == Err::<(), SdnConfigError>(e),
                None => r is Ok,
            },
    {
        let ghost all = views(zones@);
        let ghost start = self@;
        let ghost given = zones@;
        let mut rest = zones;
        let ghost mut k: int = 0;
        while rest.len() > 0
            invariant
                0 <= k,
                k + rest@.len() == all.len(),
                forall|j: int| 0 <= j < rest@.len() ==> (#[trigger] rest@[j])@ == all[k + j],
                start == old(self)@,
                given == zones@,
                all == views(given),
                add_zones_from(self@, all, k) == add_zones_from(start, all, 0),
            decreases rest@.len(),
        {
            let zone = rest.remove(0);
            assert(zone@ == all[k]);
            match self.add_zone(zone) {
                Ok(_) => {},
                Err(e) => {
                    return Err(e);
                },
            }
            proof {
                k = k + 1;
            }
        }
        Ok(())
    }

    /// The configuration of the given zones.
    pub fn from_zones(zones: Vec<ZoneConfig>) -> (r: Result<SdnConfig, SdnConfigError>)
        ensures
            match add_zones_from(Seq::empty(), views(zones@), 0).1 {
                Some(e) => r == Err::<SdnConfig, SdnConfigError>(e),
                None => r is Ok && r->Ok_0@ == add_zones_from(Seq::empty(), views(zones@), 0).0,
            },
    {
        let mut config = SdnConfig::new();
        match config.add_zones(zones) {
            Ok(()) => Ok(config),
            Err(e) => Err(e),
        }
    }

    /// The zone that holds the virtual network of the given name, and that
    /// virtual network: of the zones that hold one, the first.
    pub fn vnet(&self, name: &VnetName) -> (r: Option<(&ZoneConfig, &VnetConfig)>)
        ensures
            match r {
                Some((zone, vnet)) => exists|i: int|
                    0 <= i < self@.len() && (#[trigger] self@[i]).1 == zone@ && lookup(
                        self@[i].1.vnets,
                        name@,
                    ) == Some(vnet@) && forall|k: int|
                        0 <= k < i ==> !has_key((#[trigger] self@[k]).1.vnets, name@),
                None => forall|k: int|
                    0 <= k < self@.len() ==> !has_key((#[trigger] self@[k]).1.vnets, name@),
            },
    {
        let count: usize = self.zones.len();
        let mut i: usize = 0;
        while i < count
            invariant
                i <= count,
                count == self@.len(),
                forall|k: int| 0 <= k < i ==> !has_key((#[trigger] self@[k]).1.vnets, name@),
            decreases count - i,
        {
            let zone = self.zones.value_at(i);
            match zone.vnets.get(name) {
                Some(vnet) => {
                    assert(self@[i as int].1 == zone@);
                    return Some((zone, vnet));
                },
                None => {},
            }
            i = i + 1;
        }
        None
    }
}

/// What adding zones from place `k` on gives: the configuration afterwards,
/// and the first error where one stops it.
pub open spec fn add_zones_from(c: SdnConfigView, zones: Seq<ZoneConfigView>, k: int) -> (
    SdnConfigView,
    Option<SdnConfigError>,
)
    decreases zones.len() - k,
{
    if k < 0 || k >= zones.len() {
        (c, None)
    } else {
        let step = add_zone_spec(c, zones[k]);
        match step.1 {
            Err(e) => (step.0, Some(e)),
            Ok(_) => add_zones_from(step.0, zones, k + 1),
        }
    }
}

/// The entries of the set of all subnets, for the first `k` subnets: the
/// prefix of each.
pub open spec fn all_entries(subnets: Seq<(Cidr, SubnetConfigView)>, k: int) -> Seq<IpsetEntryView>
    decreases k,
{
    if k <= 0 {
        Seq::empty()
    } else {
        all_entries(subnets, k - 1).push(IpsetEntryView::of_cidr(subnets[k - 1].1.cidr))
    }
}

/// The entries of the set of gateways, for the first `k` subnets: the
/// gateway of each that has one, as the prefix that holds it alone.
pub open spec fn gateway_entries(subnets: Seq<(Cidr, SubnetConfigView)>, k: int) -> Seq<
    IpsetEntryView,
>
    decreases k,
{
    if k <= 0 {
        Seq::empty()
    } else {
        let before = gateway_entries(subnets, k - 1);
        match subnets[k - 1].1.gateway {
            Some(g) => before.push(IpsetEntryView::of_cidr(Cidr::host_of(g))),
            None => before,
        }
    }
}

/// The entries of the set without gateways, for the first `k` subnets: the
/// prefix of each and, behind it, its gateway taken out.
pub open spec fn no_gateway_entries(subnets: Seq<(Cidr, SubnetConfigView)>, k: int) -> Seq<
    IpsetEntryView,
>
    decreases k,
{
    if k <= 0 {
        Seq::empty()
    } else {
        let before = no_gateway_entries(subnets, k - 1).push(
            IpsetEntryView::of_cidr(subnets[k - 1].1.cidr),
        );
        match subnets[k - 1].1.gateway {
            Some(g) => before.push(IpsetEntryView::without_cidr(Cidr::host_of(g))),
            None => before,
        }
    }
}

/// The entries that the ranges of a subnet give.
pub open spec fn range_entries(ranges: Seq<IpRange>) -> Seq<IpsetEntryView> {
    Seq::new(ranges.len(), |j: int| IpsetEntryView::of_range(ranges[j]))
}

/// The entries of the set of DHCP ranges, for the first `k` subnets: the
/// ranges of each.
pub open spec fn dhcp_entries(subnets: Seq<(Cidr, SubnetConfigView)>, k: int) -> Seq<IpsetEntryView>
    decreases k,
{
    if k <= 0 {
        Seq::empty()
    } else {
        dhcp_entries(subnets, k - 1) + range_entries(subnets[k - 1].1.dhcp_range)
    }
}

/// The four sets are those of the virtual network: named after it, in the
/// scope of the software-defined network, each with its comment, and
/// holding what the subnets of the virtual network give.
pub open spec fn sets_of_vnet(v: VnetConfigView, sets: Seq<IpsetView>) -> bool {
    &&& sets.len() == 4
    &&& forall|j: int| 0 <= j < 4 ==> (#[trigger] sets[j]).scope == IpsetScope::Sdn
    &&& sets[0].name == v.name + "-all"@
    &&& sets[1].name == v.name + "-gateway"@
    &&& sets[2].name == v.name + "-no-gateway"@
    &&& sets[3].name == v.name + "-dhcp"@
    &&& sets[0].comment == Some("All subnets of VNet "@ + v.name)
    &&& sets[1].comment == Some("All gateways of VNet "@ + v.name)
    &&& sets[2].comment == Some("All subnets of VNet "@ + v.name + ", excluding gateways"@)
    &&& sets[3].comment == Some("DHCP ranges of VNet "@ + v.name)
    &&& sets[0].entries == all_entries(v.subnets, v.subnets.len() as int)
    &&& sets[1].entries == gateway_entries(v.subnets, v.subnets.len() as int)
    &&& sets[2].entries == no_gateway_entries(v.subnets, v.subnets.len() as int)
    &&& sets[3].entries == dhcp_entries(v.subnets, v.subnets.len() as int)
}

/// The virtual networks of a configuration, zone by zone, each zone's in
/// the order of their names: those of the first `i` zones.
pub open spec fn vnets_of(c: SdnConfigView, i: int) -> Seq<VnetConfigView>
    decreases i,
{
    if i <= 0 {
        Seq::empty()
    } else {
        vnets_of(c, i - 1) + Seq::new(c[i - 1].1.vnets.len(), |j: int| c[i - 1].1.vnets[j].1)
    }
}

/// The virtual networks among the first `k` that the filter lets through.
pub open spec fn let_through(vnets: Seq<VnetConfigView>, filter: Option<Seq<Seq<char>>>, k: int) -> Seq<
    VnetConfigView,
>
    decreases k,
{
    if k <= 0 {
        Seq::empty()
    } else {
        let before = let_through(vnets, filter, k - 1);
        if filter is None || lists(filter->Some_0, vnets[k - 1].name) {
            before.push(vnets[k - 1])
        } else {
            before
        }
    }
}

/// The text of a name with an ending.
fn with_ending(name: &str, ending: &str) -> (r: String)
    ensures
        r@ == name@ + ending@,
{
    let mut text = String::from_str(name);
    text.append(ending);
    text
}

/// The text of a beginning with a name.
fn with_beginning(beginning: &str, name: &str) -> (r: String)
    ensures
        r@ == beginning@ + name@,
{
    let mut text = String::from_str(beginning);
    text.append(name);
    text
}

/// The four sets of a virtual network: all subnets, all gateways, all
/// subnets without the gateways, and the DHCP ranges.
pub fn vnet_ipsets(vnet: &VnetConfig) -> (r: Vec<Ipset>)
    ensures
        sets_of_vnet(vnet@, views(r@)),
{
    let name = vnet.name.name();
    let mut ipset_all = Ipset::with_comment(
        IpsetName::new(IpsetScope::Sdn, with_ending(name, "-all")),
        with_beginning("All subnets of VNet ", name),
    );
    let mut ipset_gateway = Ipset::with_comment(
        IpsetName::new(IpsetScope::Sdn, with_ending(name, "-gateway")),
        with_beginning("All gateways of VNet ", name),
    );
    let mut wo_comment = with_beginning("All subnets of VNet ", name);
    wo_comment.append(", excluding gateways");
    let mut ipset_all_wo_gateway = Ipset::with_comment(
        IpsetName::new(IpsetScope::Sdn, with_ending(name, "-no-gateway")),
        wo_comment,
    );
    let mut ipset_dhcp = Ipset::with_comment(
        IpsetName::new(IpsetScope::Sdn, with_ending(name, "-dhcp")),
        with_beginning("DHCP ranges of VNet ", name),
    );
    let ghost heads = (ipset_all@, ipset_gateway@, ipset_all_wo_gateway@, ipset_dhcp@);
    let count: usize = vnet.subnets.len();
    let mut k: usize = 0;
    while k < count
        invariant
            k <= count,
            count == vnet@.subnets.len(),
            ipset_all@ == (IpsetView { entries: ipset_all@.entries, ..heads.0 }),
            ipset_gateway@ == (IpsetView { entries: ipset_gateway@.entries, ..heads.1 }),
            ipset_all_wo_gateway@ == (IpsetView { entries: ipset_all_wo_gateway@.entries, ..heads.2 }),
            ipset_dhcp@ == (IpsetView { entries: ipset_dhcp@.entries, ..heads.3 }),
            ipset_all@.entries == all_entries(vnet@.subnets, k as int),
            ipset_gateway@.entries == gateway_entries(vnet@.subnets, k as int),
            ipset_all_wo_gateway@.entries == no_gateway_entries(vnet@.subnets, k as int),
            ipset_dhcp@.entries == dhcp_entries(vnet@.subnets, k as int),
        decreases count - k,
    {
        let subnet = vnet.subnets.value_at(k);
        ipset_all.push(IpsetEntry::from_cidr(*subnet.cidr()));
        ipset_all_wo_gateway.push(IpsetEntry::from_cidr(*subnet.cidr()));
        if let Some(gateway) = subnet.gateway {
            let gateway_nomatch = IpsetEntry::new(Cidr::from_address(gateway), true, None);
            ipset_all_wo_gateway.push(gateway_nomatch);
            ipset_gateway.push(IpsetEntry::from_cidr(Cidr::from_address(gateway)));
        }
        let ranges = subnet.dhcp_ranges();
        let ghost wanted = range_entries(ranges@);
        let ghost dhcp_before = ipset_dhcp@.entries;
        let mut j: usize = 0;
        assert(ipset_dhcp@.entries =~= dhcp_before + wanted.subrange(0, 0));
        while j < ranges.len()
            invariant
                j <= ranges.len(),
                wanted == range_entries(ranges@),
                ipset_dhcp@ == (IpsetView { entries: ipset_dhcp@.entries, ..heads.3 }),
                ipset_dhcp@.entries == dhcp_before + wanted.subrange(0, j as int),
            decreases ranges.len() - j,
        {
            ipset_dhcp.push(IpsetEntry::from_range(ranges[j]));
            assert(ipset_dhcp@.entries =~= dhcp_before + wanted.subrange(0, j + 1));
            j = j + 1;
        }
        assert(wanted.subrange(0, j as int) =~= wanted);
        k = k + 1;
    }
    let mut out: Vec<Ipset> = Vec::new();
    out.push(ipset_all);
    out.push(ipset_gateway);
    out.push(ipset_all_wo_gateway);
    out.push(ipset_dhcp);
    proof {
        assert(views(out@)[0] == out@[0]@);
        assert(views(out@)[1] == out@[1]@);
        assert(views(out@)[2] == out@[2]@);
        assert(views(out@)[3] == out@[3]@);
    }
    out
}

/// The names that a filter lets through, where there is a filter.
pub open spec fn allowed_names(filter: Option<&Allowlist<VnetName>>) -> Option<Seq<Seq<char>>> {
    match filter {
        Some(f) => Some(f.texts()),
        None => None,
    }
}

impl SdnConfig {
    /// The sets of addresses of the virtual networks that the filter lets
    /// through, four for each: the virtual networks zone by zone, in the
    /// order of the names. Without a filter every virtual network is let
    /// through.
    pub fn ipsets(&self, filter: Option<&Allowlist<VnetName>>) -> (r: Vec<Ipset>)
        ensures
            ({
                let vnets = let_through(
                    vnets_of(self@, self@.len() as int),
                    allowed_names(filter),
                    vnets_of(self@, self@.len() as int).len() as int,
                );
                &&& r@.len() == 4 * vnets.len()
                &&& forall|n: int|
                    0 <= n < vnets.len() ==> sets_of_vnet(
                        #[trigger] vnets[n],
                        views(r@).subrange(4 * n, 4 * n + 4),
                    )
            }),
    {
        let ghost names = allowed_names(filter);
        let mut out: Vec<Ipset> = Vec::new();
        let zones: usize = self.zones.len();
        let mut i: usize = 0;
        let ghost mut seen: Seq<VnetConfigView> = Seq::empty();
        let ghost mut kept: Seq<VnetConfigView> = Seq::empty();
        assert(seen =~= vnets_of(self@, 0));
        while i < zones
            invariant
                i <= zones,
                zones == self@.len(),
                names == allowed_names(filter),
                seen == vnets_of(self@, i as int),
                kept == let_through(seen, names, seen.len() as int),
                out@.len() == 4 * kept.len(),
                forall|n: int|
                    0 <= n < kept.len() ==> sets_of_vnet(
                        #[trigger] kept[n],
                        views(out@).subrange(4 * n, 4 * n + 4),
                    ),
            decreases zones - i,
        {
            let zone = self.zones.value_at(i);
            let ghost zone_vnets = Seq::new(zone@.vnets.len(), |j: int| zone@.vnets[j].1);
            let ghost base = seen;
            let count: usize = zone.vnets.len();
            let mut j: usize = 0;
            assert(seen =~= base + zone_vnets.subrange(0, 0));
            while j < count
                invariant
                    j <= count,
                    count == zone@.vnets.len(),
                    zone_vnets == Seq::new(zone@.vnets.len(), |j: int| zone@.vnets[j].1),
                    names == allowed_names(filter),
                    seen == base + zone_vnets.subrange(0, j as int),
                    kept == let_through(seen, names, seen.len() as int),
                    out@.len() == 4 * kept.len(),
                    forall|n: int|
                        0 <= n < kept.len() ==> sets_of_vnet(
                            #[trigger] kept[n],
                            views(out@).subrange(4 * n, 4 * n + 4),
                        ),
                decreases count - j,
            {
                let vnet = zone.vnets.value_at(j);
                let allowed: bool = match filter {
                    Some(list) => list.is_allowed(&vnet.name),
                    None => true,
                };
                let ghost next = seen.push(vnet@);
                proof {
                    assert(next =~= base + zone_vnets.subrange(0, j + 1));
                    assert(next.subrange(0, seen.len() as int) =~= seen);
                    lemma_let_through_grows(seen, next, names);
                }
                if allowed {
                    let sets = vnet_ipsets(vnet);
                    let ghost before = views(out@);
                    let ghost fresh = views(sets@);
                    let mut sets = sets;
                    let ghost mut m: int = 0;
                    while sets.len() > 0
                        invariant
                            0 <= m,
                            m + sets@.len() == 4,
                            fresh.len() == 4,
                            forall|q: int|
                                0 <= q < sets@.len() ==> (#[trigger] sets@[q])@ == fresh[m + q],
                            views(out@) == before + fresh.subrange(0, m),
                        decreases sets@.len(),
                    {
                        let set = sets.remove(0);
                        proof {
                            crate::views::lemma_views_push(out@, set);
                            assert(fresh.subrange(0, m + 1) =~= fresh.subrange(0, m).push(
                                fresh[m],
                            ));
                            assert(before + fresh.subrange(0, m + 1) =~= (before
                                + fresh.subrange(0, m)).push(fresh[m]));
                        }
                        out.push(set);
                        proof {
                            m = m + 1;
                        }
                    }
                    proof {
                        assert(fresh.subrange(0, 4) =~= fresh);
                        let after = views(out@);
                        let grown = kept.push(vnet@);
                        assert forall|n: int| 0 <= n < grown.len() implies sets_of_vnet(
                            #[trigger] grown[n],
                            after.subrange(4 * n, 4 * n + 4),
                        ) by {
                            if n < kept.len() {
                                assert(after.subrange(4 * n, 4 * n + 4) =~= before.subrange(
                                    4 * n,
                                    4 * n + 4,
                                ));
                            } else {
                                assert(after.subrange(4 * n, 4 * n + 4) =~= fresh);
                            }
                        }
                        kept = grown;
                    }
                }
                proof {
                    seen = next;
                }
                j = j + 1;
            }
            proof {
                assert(zone_vnets.subrange(0, j as int) =~= zone_vnets);
            }
            i = i + 1;
        }
        out
    }
}

/// The virtual networks that are let through among those seen so far and
/// one more: those let through so far, and that one where the filter lets
/// it through.
proof fn lemma_let_through_grows(
    seen: Seq<VnetConfigView>,
    next: Seq<VnetConfigView>,
    filter: Option<Seq<Seq<char>>>,
)
    requires
        next.len() == seen.len() + 1,
        next.subrange(0, seen.len() as int) == seen,
    ensures
        let_through(next, filter, next.len() as int) == if filter is None || lists(
            filter->Some_0,
            next.last().name,
        ) {
            let_through(seen, filter, seen.len() as int).push(next.last())
        } else {
            let_through(seen, filter, seen.len() as int)
        },
{
    lemma_let_through_prefix(seen, next, filter, seen.len() as int);
}

/// What is let through among the first `k` does not depend on what comes
/// behind them.
proof fn lemma_let_through_prefix(
    a: Seq<VnetConfigView>,
    b: Seq<VnetConfigView>,
    filter: Option<Seq<Seq<char>>>,
    k: int,
)
    requires
        0 <= k <= a.len() <= b.len(),
        b.subrange(0, a.len() as int) == a,
    ensures
        let_through(a, filter, k) == let_through(b, filter, k),
    decreases k,
{
    if k > 0 {
        lemma_let_through_prefix(a, b, filter, k - 1);
        assert(b.subrange(0, a.len() as int)[k - 1] == b[k - 1]);
    }
}

} // verus!
