use proxmox_ve_config::common::Allowlist;
use proxmox_ve_config::firewall::types::ipset::{IpsetAddress, IpsetEntry, IpsetScope};
use proxmox_ve_config::ip_address::cidr::Cidr;
use proxmox_ve_config::ip_address::range::{IpRange, IpRangeError};
use proxmox_ve_config::ip_address::{IpAddr, Ipv4Addr, Ipv6Addr};
use proxmox_ve_config::sdn::config::{
    DhcpRange, DhcpType, RunningConfig, SdnConfig, SdnConfigError, SubnetConfig,
    SubnetRunningConfig, SubnetsRunningConfig, VnetConfig, VnetRunningConfig, VnetsRunningConfig,
    ZoneConfig, ZoneRunningConfig, ZoneType, ZonesRunningConfig,
};
use proxmox_ve_config::sdn::{SubnetName, VnetName, ZoneName};

fn zone(name: &str) -> ZoneName {
    ZoneName::new(name.to_string()).unwrap()
}

fn vnet(name: &str) -> VnetName {
    VnetName::new(name.to_string()).unwrap()
}

fn gateway4(a: u8, b: u8, c: u8, d: u8) -> Option<IpAddr> {
    Some(IpAddr::V4(Ipv4Addr::new(a, b, c, d)))
}

#[test]
fn sdn_config() {
    let mut sdn_config = SdnConfig::new();

    let zone0_name = ZoneName::new("zone0".to_string()).unwrap();
    let zone1_name = ZoneName::new("zone1".to_string()).unwrap();

    let vnet0_name = VnetName::new("vnet0".to_string()).unwrap();
    let vnet1_name = VnetName::new("vnet1".to_string()).unwrap();

    let zone0 = ZoneConfig::new(zone0_name.clone(), ZoneType::Qinq);
    sdn_config.add_zone(zone0).unwrap();

    let vnet0 = || VnetConfig::new(vnet0_name.clone(), None);
    assert_eq!(
        sdn_config.add_vnet(&zone1_name, vnet0()),
        Err(SdnConfigError::ZoneNotFound)
    );

    sdn_config.add_vnet(&zone0_name, vnet0()).unwrap();

    let subnet = || {
        SubnetConfig::new(
            SubnetName::new(zone0_name.clone(), Cidr::new_v4([10, 0, 0, 0], 16).unwrap()),
            Some(IpAddr::V4(Ipv4Addr::new(10, 0, 0, 1))),
            true,
            vec![],
        )
        .unwrap()
    };

    assert_eq!(
        sdn_config.add_subnet(&zone0_name, &vnet1_name, subnet()),
        Err(SdnConfigError::VnetNotFound),
    );

    sdn_config
        .add_subnet(&zone0_name, &vnet0_name, subnet())
        .unwrap();

    let zone1 = ZoneConfig::from_vnets(
        zone1_name.clone(),
        ZoneType::Evpn,
        vec![VnetConfig::from_subnets(
            vnet1_name.clone(),
            vec![SubnetConfig::new(
                SubnetName::new(
                    zone0_name.clone(),
                    Cidr::new_v4([192, 168, 0, 0], 24).unwrap(),
                ),
                None,
                false,
                vec![],
            )
            .unwrap()],
        )
        .unwrap()],
    )
    .unwrap();

    assert_eq!(
        sdn_config.add_zones(vec![zone1]),
        Err(SdnConfigError::MismatchedSubnetZone),
    );

    let zone1 = ZoneConfig::new(zone1_name.clone(), ZoneType::Evpn);
    sdn_config.add_zone(zone1).unwrap();

    assert_eq!(
        sdn_config.add_vnet(&zone1_name, vnet0()),
        Err(SdnConfigError::DuplicateVnetName),
    )
}

#[test]
fn subnet_gateway_family() {
    let name = || SubnetName::new(zone("zone0"), Cidr::new_v4([10, 0, 0, 0], 16).unwrap());
    assert_eq!(
        SubnetConfig::new(name(), Some(IpAddr::V6(Ipv6Addr::from_bits(1))), false, vec![]),
        Err(SdnConfigError::MismatchedCidrGateway)
    );
    let subnet = SubnetConfig::new(name(), gateway4(10, 0, 0, 1), true, vec![]).unwrap();
    assert_eq!(subnet.gateway(), Some(&IpAddr::V4(Ipv4Addr::new(10, 0, 0, 1))));
    assert!(subnet.snat());
    assert_eq!(subnet.cidr(), &Cidr::new_v4([10, 0, 0, 0], 16).unwrap());
    assert_eq!(subnet.name().zone(), &zone("zone0"));
    assert!(SubnetConfig::new(name(), None, false, vec![]).is_ok());
}

#[test]
fn subnet_from_running_config() {
    let name = || SubnetName::new(zone("zone0"), Cidr::new_v4([10, 101, 0, 0], 16).unwrap());
    let range = |a: u8, b: u8| DhcpRange {
        start: IpAddr::V4(Ipv4Addr::new(10, 101, 98, a)),
        end: IpAddr::V4(Ipv4Addr::new(10, 101, 98, b)),
    };
    let running = |snat: Option<u8>, ranges: Option<Vec<DhcpRange>>| SubnetRunningConfig {
        vnet: vnet("vnet0"),
        gateway: gateway4(10, 101, 1, 1),
        snat,
        dhcp_range: ranges,
    };
    let subnet =
        SubnetConfig::try_from_running_config(name(), running(Some(1), Some(vec![range(100, 200)])))
            .unwrap();
    assert!(subnet.snat());
    assert_eq!(
        subnet.dhcp_ranges(),
        &vec![IpRange::new_v4([10, 101, 98, 100], [10, 101, 98, 200]).unwrap()]
    );
    let subnet = SubnetConfig::try_from_running_config(name(), running(Some(0), None)).unwrap();
    assert!(!subnet.snat());
    assert!(subnet.dhcp_ranges().is_empty());
    assert!(!SubnetConfig::try_from_running_config(name(), running(None, None)).unwrap().snat());
    assert_eq!(
        SubnetConfig::try_from_running_config(
            name(),
            running(None, Some(vec![range(100, 200), range(200, 100)]))
        ),
        Err(SdnConfigError::InvalidDhcpRange(IpRangeError::StartGreaterThanLast))
    );
    let mixed = DhcpRange {
        start: IpAddr::V4(Ipv4Addr::new(10, 101, 98, 1)),
        end: IpAddr::V6(Ipv6Addr::from_bits(1)),
    };
    assert_eq!(
        SubnetConfig::try_from_running_config(name(), running(None, Some(vec![mixed]))),
        Err(SdnConfigError::InvalidDhcpRange(IpRangeError::MismatchedFamilies))
    );
}

#[test]
fn zone_and_dhcp_types() {
    for (text, ty) in [
        ("simple", ZoneType::Simple),
        ("vlan", ZoneType::Vlan),
        ("qinq", ZoneType::Qinq),
        ("vxlan", ZoneType::Vxlan),
        ("evpn", ZoneType::Evpn),
    ] {
        assert_eq!(ZoneType::parse_text(text), Ok(ty));
        assert_eq!(ty.as_str(), text);
    }
    assert_eq!(ZoneType::parse_text("Simple"), Err(SdnConfigError::InvalidZoneType));
    assert_eq!(DhcpType::parse_text("dnsmasq"), Ok(DhcpType::Dnsmasq));
    assert_eq!(DhcpType::parse_text("kea"), Err(SdnConfigError::InvalidDhcpType));
    assert_eq!(DhcpType::Dnsmasq.as_str(), "dnsmasq");
}

fn example() -> SdnConfig {
    let subnet = |cidr: Cidr, gateway: Option<IpAddr>, ranges: Vec<IpRange>| {
        SubnetConfig::new(SubnetName::new(zone("zone0"), cidr), gateway, true, ranges).unwrap()
    };
    SdnConfig::from_zones(vec![ZoneConfig::from_vnets(
        zone("zone0"),
        ZoneType::Simple,
        vec![
            VnetConfig::from_subnets(
                vnet("vnet1"),
                vec![subnet(Cidr::new_v4([10, 102, 0, 0], 16).unwrap(), None, vec![])],
            )
            .unwrap(),
            VnetConfig::from_subnets_and_tag(
                vnet("vnet0"),
                Some(100),
                vec![
                    subnet(
                        Cidr::new_v6([0xfd80, 0, 0, 0, 0, 0, 0, 0], 64).unwrap(),
                        Some(IpAddr::V6(Ipv6Addr::from_segments([0xfd80, 0, 0, 0, 0, 0, 0, 1]))),
                        vec![IpRange::new_v6(
                            [0xfd80, 0, 0, 0, 0, 0, 0, 0x1000],
                            [0xfd80, 0, 0, 0, 0, 0, 0, 0xffff],
                        )
                        .unwrap()],
                    ),
                    subnet(
                        Cidr::new_v4([10, 101, 0, 0], 16).unwrap(),
                        gateway4(10, 101, 1, 1),
                        vec![
                            IpRange::new_v4([10, 101, 98, 100], [10, 101, 98, 200]).unwrap(),
                            IpRange::new_v4([10, 101, 99, 100], [10, 101, 99, 200]).unwrap(),
                        ],
                    ),
                ],
            )
            .unwrap(),
        ],
    )
    .unwrap()])
    .unwrap()
}

#[test]
fn sdn_config_lookups() {
    let config = example();
    assert_eq!(config.zone_count(), 1);
    let zone0 = config.zone(&zone("zone0")).unwrap();
    assert_eq!(zone0.ty(), ZoneType::Simple);
    assert_eq!(zone0.name(), &zone("zone0"));
    assert_eq!(zone0.vnet_count(), 2);
    assert_eq!(zone0.vnet_at(0).name(), &vnet("vnet0"));
    assert_eq!(zone0.vnet_at(1).name(), &vnet("vnet1"));
    assert!(config.zone(&zone("zone1")).is_none());
    let (found_zone, found) = config.vnet(&vnet("vnet0")).unwrap();
    assert_eq!(found_zone.name(), &zone("zone0"));
    assert_eq!(found.tag(), &Some(100));
    assert_eq!(found.subnet_count(), 2);
    assert_eq!(found.subnet_at(0).cidr(), &Cidr::new_v4([10, 101, 0, 0], 16).unwrap());
    assert!(found.subnet(&Cidr::new_v6([0xfd80, 0, 0, 0, 0, 0, 0, 0], 64).unwrap()).is_some());
    assert!(found.subnet(&Cidr::new_v4([10, 101, 0, 0], 17).unwrap()).is_none());
    assert!(config.vnet(&vnet("vnet9")).is_none());
    assert_eq!(example(), config);
}

#[test]
fn sdn_ipsets() {
    let config = example();
    let sets = config.ipsets(None);
    assert_eq!(sets.len(), 8);
    let names: Vec<&str> = sets.iter().map(|s| s.name().name.as_str()).collect();
    assert_eq!(
        names,
        [
            "vnet0-all",
            "vnet0-gateway",
            "vnet0-no-gateway",
            "vnet0-dhcp",
            "vnet1-all",
            "vnet1-gateway",
            "vnet1-no-gateway",
            "vnet1-dhcp"
        ]
    );
    assert!(sets.iter().all(|s| s.name().scope == IpsetScope::Sdn));
    assert_eq!(sets[0].comment.as_deref(), Some("All subnets of VNet vnet0"));
    assert_eq!(sets[1].comment.as_deref(), Some("All gateways of VNet vnet0"));
    assert_eq!(
        sets[2].comment.as_deref(),
        Some("All subnets of VNet vnet0, excluding gateways")
    );
    assert_eq!(sets[3].comment.as_deref(), Some("DHCP ranges of VNet vnet0"));

    let v4 = Cidr::new_v4([10, 101, 0, 0], 16).unwrap();
    let v6 = Cidr::new_v6([0xfd80, 0, 0, 0, 0, 0, 0, 0], 64).unwrap();
    let gw4 = Cidr::new_v4([10, 101, 1, 1], 32).unwrap();
    let gw6 = Cidr::new_v6([0xfd80, 0, 0, 0, 0, 0, 0, 1], 128).unwrap();
    assert_eq!(
        sets[0].entries(),
        &vec![IpsetEntry::from_cidr(v4), IpsetEntry::from_cidr(v6)]
    );
    assert_eq!(
        sets[1].entries(),
        &vec![IpsetEntry::from_cidr(gw4), IpsetEntry::from_cidr(gw6)]
    );
    assert_eq!(
        sets[2].entries(),
        &vec![
            IpsetEntry::from_cidr(v4),
            IpsetEntry::new(gw4, true, None),
            IpsetEntry::from_cidr(v6),
            IpsetEntry::new(gw6, true, None),
        ]
    );
    assert_eq!(sets[3].entries().len(), 3);
    assert_eq!(
        sets[3].entries()[0].address,
        IpsetAddress::Range(IpRange::new_v4([10, 101, 98, 100], [10, 101, 98, 200]).unwrap())
    );
    assert_eq!(sets[4].entries().len(), 1);
    assert!(sets[5].entries().is_empty());
    assert_eq!(sets[6].entries().len(), 1);
    assert!(sets[7].entries().is_empty());

    let only = Allowlist::new(vec![vnet("vnet1")]);
    let sets = config.ipsets(Some(&only));
    assert_eq!(sets.len(), 4);
    assert_eq!(sets[0].name().name, "vnet1-all");
    let none: Allowlist<VnetName> = Allowlist::new(vec![]);
    assert!(config.ipsets(Some(&none)).is_empty());
}

#[test]
fn running_config_to_config() {
    let v4 = |a, b, c, d| IpAddr::V4(Ipv4Addr::new(a, b, c, d));
    let running = |subnets: Vec<(SubnetName, SubnetRunningConfig)>| RunningConfig {
        zones: Some(ZonesRunningConfig {
            ids: vec![
                (zone("zone1"), ZoneRunningConfig { ty: ZoneType::Vlan, dhcp: None }),
                (zone("zone0"), ZoneRunningConfig { ty: ZoneType::Simple, dhcp: None }),
            ],
        }),
        vnets: Some(VnetsRunningConfig {
            ids: vec![
                (vnet("vnet0"), VnetRunningConfig { tag: Some(7), zone: zone("zone0") }),
                (vnet("vnet1"), VnetRunningConfig { tag: None, zone: zone("zone1") }),
            ],
        }),
        subnets: Some(SubnetsRunningConfig { ids: subnets }),
    };
    let subnet = |gateway, range: Option<(IpAddr, IpAddr)>| SubnetRunningConfig {
        vnet: vnet("vnet0"),
        gateway,
        snat: Some(1),
        dhcp_range: range.map(|(start, end)| vec![DhcpRange { start, end }]),
    };
    let name = SubnetName::parse_text("zone0-10.101.0.0-16").unwrap();

    let config = SdnConfig::try_from(running(vec![(
        name.clone(),
        subnet(Some(v4(10, 101, 0, 1)), Some((v4(10, 101, 1, 0), v4(10, 101, 1, 9)))),
    )]))
    .unwrap();
    assert_eq!(config.zone_count(), 2);
    assert_eq!(config.zone_at(0).name().as_str(), "zone0");
    assert_eq!(config.zone_at(0).ty(), ZoneType::Simple);
    assert_eq!(config.zone_at(1).name().as_str(), "zone1");
    let (z, v) = config.vnet(&vnet("vnet0")).unwrap();
    assert_eq!(z.name().as_str(), "zone0");
    assert_eq!(v.tag(), &Some(7));
    let s = v.subnet(&Cidr::new_v4([10, 101, 0, 0], 16).unwrap()).unwrap();
    assert_eq!(s.gateway(), Some(&v4(10, 101, 0, 1)));
    assert!(s.snat());
    assert_eq!(
        s.dhcp_ranges(),
        &vec![IpRange::new_v4([10, 101, 1, 0], [10, 101, 1, 9]).unwrap()]
    );

    assert_eq!(SdnConfig::try_from(RunningConfig::default()), Ok(SdnConfig::new()));
    assert_eq!(
        SdnConfig::try_from(running(vec![(
            name.clone(),
            subnet(None, Some((v4(10, 101, 1, 9), v4(10, 101, 1, 0)))),
        )])),
        Err(SdnConfigError::InvalidDhcpRange(IpRangeError::StartGreaterThanLast))
    );
    assert_eq!(
        SdnConfig::try_from(running(vec![(
            name.clone(),
            subnet(Some(IpAddr::V6(Ipv6Addr::from_bits(1))), None),
        )])),
        Err(SdnConfigError::MismatchedCidrGateway)
    );
    assert_eq!(
        SdnConfig::try_from(running(vec![(
            SubnetName::parse_text("zone1-10.101.0.0-16").unwrap(),
            subnet(None, None),
        )])),
        Err(SdnConfigError::VnetNotFound)
    );
    assert_eq!(
        SdnConfig::try_from(running(vec![(
            SubnetName::parse_text("zone2-10.101.0.0-16").unwrap(),
            subnet(None, None),
        )])),
        Err(SdnConfigError::ZoneNotFound)
    );
    let mut twice = running(vec![]);
    twice.vnets = Some(VnetsRunningConfig {
        ids: vec![
            (vnet("vnet0"), VnetRunningConfig { tag: None, zone: zone("zone0") }),
            (vnet("vnet0"), VnetRunningConfig { tag: None, zone: zone("zone1") }),
        ],
    });
    assert_eq!(SdnConfig::try_from(twice), Err(SdnConfigError::DuplicateVnetName));
    let mut lost = running(vec![]);
    lost.vnets = Some(VnetsRunningConfig {
        ids: vec![(vnet("vnet0"), VnetRunningConfig { tag: None, zone: zone("zone9") })],
    });
    assert_eq!(SdnConfig::try_from(lost), Err(SdnConfigError::ZoneNotFound));
}

#[test]
fn configuration_errors_in_words() {
    assert_eq!(SdnConfigError::ZoneNotFound.message(), "zone not found");
    assert_eq!(SdnConfigError::VnetNotFound.message(), "vnet not found");
    assert_eq!(
        SdnConfigError::MismatchedCidrGateway.message(),
        "mismatched ip address family for gateway and CIDR"
    );
    assert_eq!(SdnConfigError::InvalidZoneType.message(), "invalid zone type");
    assert_eq!(SdnConfigError::InvalidDhcpType.message(), "invalid dhcp type");
    assert_eq!(
        SdnConfigError::DuplicateVnetName.message(),
        "vnet name occurs in multiple zones"
    );
    assert_eq!(
        SdnConfigError::MismatchedSubnetZone.message(),
        "subnet zone does not match actual zone"
    );
    assert_eq!(
        SdnConfigError::InvalidDhcpRange(IpRangeError::StartGreaterThanLast).message(),
        "invalid dhcp range: start is greater than last"
    );
    assert_eq!(
        SdnConfigError::InvalidDhcpRange(IpRangeError::MismatchedFamilies).message(),
        "invalid dhcp range: mismatched ip address families"
    );
    assert_eq!(
        SdnConfigError::NameError(proxmox_ve_config::sdn::SdnNameError::TooLong).message(),
        "invalid name: name too long"
    );
}

#[test]
fn parse_running_config() {
    let v6 = |segments: [u16; 8]| IpAddr::V6(Ipv6Addr::from_segments(segments));
    let v4 = |a, b, c, d| IpAddr::V4(Ipv4Addr::new(a, b, c, d));
    let running_config = RunningConfig {
        zones: Some(ZonesRunningConfig {
            ids: vec![(zone("zone0"), ZoneRunningConfig { ty: ZoneType::Simple, dhcp: None })],
        }),
        vnets: Some(VnetsRunningConfig {
            ids: vec![
                (vnet("vnet1"), VnetRunningConfig { tag: None, zone: zone("zone0") }),
                (vnet("vnet0"), VnetRunningConfig { tag: Some(100), zone: zone("zone0") }),
            ],
        }),
        subnets: Some(SubnetsRunningConfig {
            ids: vec![
                (
                    SubnetName::parse_text("zone0-10.102.0.0-16").unwrap(),
                    SubnetRunningConfig {
                        vnet: vnet("vnet1"),
                        gateway: None,
                        snat: None,
                        dhcp_range: None,
                    },
                ),
                (
                    SubnetName::parse_text("zone0-10.101.0.0-16").unwrap(),
                    SubnetRunningConfig {
                        vnet: vnet("vnet0"),
                        gateway: Some(v4(10, 101, 1, 1)),
                        snat: Some(1),
                        dhcp_range: Some(vec![
                            DhcpRange { start: v4(10, 101, 98, 100), end: v4(10, 101, 98, 200) },
                            DhcpRange { start: v4(10, 101, 99, 100), end: v4(10, 101, 99, 200) },
                        ]),
                    },
                ),
                (
                    SubnetName::parse_text("zone0-fd80::-64").unwrap(),
                    SubnetRunningConfig {
                        vnet: vnet("vnet0"),
                        gateway: Some(v6([0xFD80, 0, 0, 0, 0, 0, 0, 0x1])),
                        snat: Some(1),
                        dhcp_range: Some(vec![DhcpRange {
                            start: v6([0xFD80, 0, 0, 0, 0, 0, 0, 0x1000]),
                            end: v6([0xFD80, 0, 0, 0, 0, 0, 0, 0xFFFF]),
                        }]),
                    },
                ),
            ],
        }),
    };

    let parsed_config = SdnConfig::try_from(running_config).unwrap();

    let sdn_config = SdnConfig::from_zones(vec![ZoneConfig::from_vnets(
        ZoneName::parse_text("zone0").unwrap(),
        ZoneType::Simple,
        vec![
            VnetConfig::from_subnets_and_tag(
                VnetName::parse_text("vnet0").unwrap(),
                Some(100),
                vec![
                    SubnetConfig::new(
                        SubnetName::parse_text("zone0-fd80::-64").unwrap(),
                        Some(v6([0xFD80, 0, 0, 0, 0, 0, 0, 0x1])),
                        true,
                        vec![IpRange::new_v6(
                            [0xFD80, 0, 0, 0, 0, 0, 0, 0x1000],
                            [0xFD80, 0, 0, 0, 0, 0, 0, 0xFFFF],
                        )
                        .unwrap()],
                    )
                    .unwrap(),
                    SubnetConfig::new(
                        SubnetName::parse_text("zone0-10.101.0.0-16").unwrap(),
                        Some(v4(10, 101, 1, 1)),
                        true,
                        vec![
                            IpRange::new_v4([10, 101, 98, 100], [10, 101, 98, 200]).unwrap(),
                            IpRange::new_v4([10, 101, 99, 100], [10, 101, 99, 200]).unwrap(),
                        ],
                    )
                    .unwrap(),
                ],
            )
            .unwrap(),
            VnetConfig::from_subnets(
                VnetName::parse_text("vnet1").unwrap(),
                vec![SubnetConfig::new(
                    SubnetName::parse_text("zone0-10.102.0.0-16").unwrap(),
                    None,
                    false,
                    vec![],
                )
                .unwrap()],
            )
            .unwrap(),
        ],
    )
    .unwrap()])
    .unwrap();

    assert_eq!(sdn_config, parsed_config);
}

#[test]
fn virtual_network_changed_in_place() {
    let mut zone0 = ZoneConfig::new(zone("zone0"), ZoneType::Simple);
    zone0.add_vnet(VnetConfig::new(vnet("vnet0"), None)).unwrap();
    assert!(zone0.vnet_mut(&vnet("vnet1")).is_none());
    let subnet = SubnetConfig::new(
        SubnetName::parse_text("zone0-10.0.0.0-24").unwrap(),
        gateway4(10, 0, 0, 1),
        false,
        vec![],
    )
    .unwrap();
    zone0.vnet_mut(&vnet("vnet0")).unwrap().add_subnet(subnet.clone()).unwrap();
    let held = zone0.vnet(&vnet("vnet0")).unwrap();
    assert_eq!(held.subnet_count(), 1);
    assert_eq!(held.subnet(&Cidr::new_v4([10, 0, 0, 0], 24).unwrap()), Some(&subnet));
}
