use proxmox_ve_config::common::valid::{IntoValid, Valid, Validatable};
use proxmox_ve_config::frr::openfabric::{OpenfabricInterface, OpenfabricRouterName};
use proxmox_ve_config::frr::ospf::{Area as FrrArea, NetworkType, OspfInterface, OspfRouter, OspfRouterName};
use proxmox_ve_config::frr::route_map::{
    AccessAction, AccessList, AccessListName, AccessListRule, ProtocolRouteMap, ProtocolType,
    RouteMap, RouteMapMatch, RouteMapMatchInner, RouteMapName, RouteMapSet,
};
use proxmox_ve_config::frr::serializer::{dump, to_raw_config, FrrConfigBlob, FrrSerializer};
use proxmox_ve_config::frr::{
    CommonInterfaceName, FrrConfig, FrrWord, Interface, InterfaceName as FrrInterfaceName, Router,
    RouterName,
};
use proxmox_ve_config::ip_address::cidr::{Cidr, Ipv4Cidr, Ipv6Cidr};
use proxmox_ve_config::ip_address::{IpAddr, Ipv4Addr, Ipv6Addr};
use proxmox_ve_config::sdn::fabric::frr::{build_fabric, CompileError, CompileWarning};
use proxmox_ve_config::sdn::fabric::section_config::fabric::{
    Fabric, FabricDeletableProperties, FabricId, FabricSection, FabricSectionUpdater,
    FabricUpdater,
};
use proxmox_ve_config::sdn::fabric::section_config::interface::InterfaceName;
use proxmox_ve_config::sdn::fabric::section_config::node::api::{
    NodeDataUpdater, NodeDeletableProperties, NodeUpdater,
};
use proxmox_ve_config::sdn::fabric::section_config::node::{
    Node, NodeId, NodeSection, NodeSectionId,
};
use proxmox_ve_config::sdn::fabric::section_config::Section;
use proxmox_ve_config::sdn::fabric::section_config::protocol::openfabric::{
    OpenfabricDeletableProperties, OpenfabricInterfaceProperties, OpenfabricNodeDeletableProperties,
    OpenfabricNodeProperties, OpenfabricNodePropertiesUpdater, OpenfabricProperties,
    OpenfabricPropertiesUpdater,
};
use proxmox_ve_config::sdn::fabric::section_config::protocol::ospf::{
    OspfInterfaceProperties, OspfNodeProperties, OspfProperties, OspfPropertiesUpdater,
};
use proxmox_ve_config::sdn::fabric::{FabricConfig, FabricConfigError, FabricEntry};
use proxmox_ve_config::sdn::frr::FrrConfigBuilder;
use proxmox_ve_config::sdn_types::area::Area;
use proxmox_ve_config::sdn_types::net::Net;
use proxmox_ve_config::sdn_types::openfabric::{CsnpInterval, HelloInterval, HelloMultiplier};

fn fid(s: &str) -> FabricId {
    FabricId::from_string(s.to_string()).expect("fabric id")
}

fn nid(s: &str) -> NodeId {
    NodeId::from_string(s.to_string()).expect("node id")
}

fn ifname(s: &str) -> InterfaceName {
    InterfaceName::from_string(s.to_string()).expect("interface name")
}

fn v4(a: u8, b: u8, c: u8, d: u8) -> Ipv4Addr {
    Ipv4Addr::new(a, b, c, d)
}

fn v4net(a: u8, b: u8, c: u8, d: u8, mask: u8) -> Ipv4Cidr {
    Ipv4Cidr::new(v4(a, b, c, d), mask).expect("prefix")
}

fn v6(segments: [u16; 8]) -> Ipv6Addr {
    Ipv6Addr::from_segments(segments)
}

fn v6net(segments: [u16; 8], mask: u8) -> Ipv6Cidr {
    Ipv6Cidr::new(v6(segments), mask).expect("prefix")
}

fn openfabric(id: &str, p4: Option<Ipv4Cidr>, p6: Option<Ipv6Cidr>) -> Fabric {
    Fabric::Openfabric(FabricSection::new(
        fid(id),
        p4,
        p6,
        OpenfabricProperties { hello_interval: None, csnp_interval: None },
    ))
}

fn ospf(id: &str, p4: Option<Ipv4Cidr>, area: Area) -> Fabric {
    Fabric::Ospf(FabricSection::new(fid(id), p4, None, OspfProperties { area }))
}

fn openfabric_node(
    fabric: &str,
    node: &str,
    ip: Option<Ipv4Addr>,
    ip6: Option<Ipv6Addr>,
    interfaces: &[&str],
) -> Node {
    Node::Openfabric(NodeSection::new(
        NodeSectionId::new(fid(fabric), nid(node)),
        ip,
        ip6,
        OpenfabricNodeProperties {
            interfaces: interfaces
                .iter()
                .map(|name| OpenfabricInterfaceProperties {
                    name: ifname(name),
                    hello_multiplier: None,
                    ip: None,
                    ip6: None,
                })
                .collect(),
        },
    ))
}

fn ospf_node(fabric: &str, node: &str, ip: Option<Ipv4Addr>, interfaces: &[&str]) -> Node {
    Node::Ospf(NodeSection::new(
        NodeSectionId::new(fid(fabric), nid(node)),
        ip,
        None,
        OspfNodeProperties {
            interfaces: interfaces
                .iter()
                .map(|name| OspfInterfaceProperties { name: ifname(name), ip: None })
                .collect(),
        },
    ))
}

fn config(fabrics: Vec<Fabric>, nodes: Vec<Node>) -> FabricConfig {
    let mut config = FabricConfig::new();
    for fabric in fabrics {
        config.add_fabric(fabric).expect("fabric is added");
    }
    for node in nodes {
        config.add_node(node).expect("node is added");
    }
    config
}

fn compile(config: FabricConfig, node: &str) -> (FrrConfig, Vec<CompileWarning>) {
    let valid = Valid::into_valid(config).expect("configuration is valid");
    FrrConfigBuilder::new()
        .add_fabrics(valid)
        .build(nid(node))
        .expect("configuration compiles")
}

fn word(s: &str) -> FrrWord {
    FrrWord::new(s.to_string()).expect("word")
}

fn of_name(s: &str) -> FrrInterfaceName {
    FrrInterfaceName::Openfabric(CommonInterfaceName::new(s.to_string()).expect("name"))
}

fn ospf_name(s: &str) -> FrrInterfaceName {
    FrrInterfaceName::Ospf(CommonInterfaceName::new(s.to_string()).expect("name"))
}

fn interface_names(frr: &FrrConfig) -> Vec<FrrInterfaceName> {
    (0..frr.interfaces.len()).map(|i| frr.interfaces.key_at(i).clone()).collect()
}

fn list(name: &str, network: Cidr) -> AccessList {
    AccessList {
        name: AccessListName::new(name.to_string()),
        rules: vec![AccessListRule { action: AccessAction::Permit, network, seq: None }],
    }
}

fn map(name: &str, seq: u32, v6: bool, list: &str, source: IpAddr) -> RouteMap {
    let inner = RouteMapMatchInner::IpAddress(AccessListName::new(list.to_string()));
    RouteMap {
        name: RouteMapName::new(name.to_string()),
        seq,
        action: AccessAction::Permit,
        matches: vec![if v6 { RouteMapMatch::V6(inner) } else { RouteMapMatch::V4(inner) }],
        sets: vec![RouteMapSet::IpSrc(source)],
    }
}

fn dualstack_config() -> FabricConfig {
    config(
        vec![openfabric(
            "f1",
            Some(v4net(10, 0, 0, 0, 24)),
            Some(v6net([0xfd00, 0, 0, 0, 0, 0, 0, 0], 64)),
        )],
        vec![openfabric_node(
            "f1",
            "pve",
            Some(v4(10, 0, 0, 1)),
            Some(v6([0xfd00, 0, 0, 0, 0, 0, 0, 1])),
            &["eth0"],
        )],
    )
}

#[test]
fn openfabric_dualstack() {
    let (frr, warnings) = compile(dualstack_config(), "pve");
    assert!(warnings.is_empty());

    assert_eq!(frr.router.len(), 1);
    assert_eq!(
        frr.router.key_at(0),
        &RouterName::Openfabric(OpenfabricRouterName::new(word("f1")))
    );
    let Router::Openfabric(router) = frr.router.value_at(0) else {
        panic!("not an OpenFabric router")
    };
    assert_eq!(router.net().to_text(), "49.0001.0100.0000.0001.00");
    assert_eq!(router.net(), &Net::from_ipv4(v4(10, 0, 0, 1)));

    assert_eq!(interface_names(&frr), vec![of_name("dummy_f1"), of_name("eth0")]);
    assert_eq!(
        frr.interfaces.value_at(0),
        &Interface::Openfabric(OpenfabricInterface {
            fabric_id: OpenfabricRouterName::new(word("f1")),
            passive: Some(true),
            hello_interval: None,
            csnp_interval: None,
            hello_multiplier: None,
            is_ipv4: true,
            is_ipv6: true,
        })
    );
    assert_eq!(
        frr.interfaces.value_at(1),
        &Interface::Openfabric(OpenfabricInterface {
            fabric_id: OpenfabricRouterName::new(word("f1")),
            passive: None,
            hello_interval: None,
            csnp_interval: None,
            hello_multiplier: None,
            is_ipv4: true,
            is_ipv6: true,
        })
    );

    assert_eq!(
        frr.access_lists,
        vec![
            list("pve_openfabric_f1_ips", Cidr::Ipv4(v4net(10, 0, 0, 0, 24))),
            list(
                "pve_openfabric_f1_ip6s",
                Cidr::Ipv6(v6net([0xfd00, 0, 0, 0, 0, 0, 0, 0], 64))
            ),
        ]
    );
    assert_eq!(
        frr.routemaps,
        vec![
            map(
                "pve_openfabric",
                100,
                false,
                "pve_openfabric_f1_ips",
                IpAddr::V4(v4(10, 0, 0, 1))
            ),
            map(
                "pve_openfabric6",
                110,
                true,
                "pve_openfabric_f1_ip6s",
                IpAddr::V6(v6([0xfd00, 0, 0, 0, 0, 0, 0, 1]))
            ),
        ]
    );
    assert_eq!(frr.protocol_routemaps.len(), 2);
    assert_eq!(
        frr.protocol_routemaps.key_at(0),
        &ProtocolRouteMap {
            is_ipv6: false,
            protocol: ProtocolType::Openfabric,
            routemap_name: RouteMapName::new("pve_openfabric".to_string()),
        }
    );
    assert_eq!(
        frr.protocol_routemaps.key_at(1),
        &ProtocolRouteMap {
            is_ipv6: true,
            protocol: ProtocolType::Openfabric,
            routemap_name: RouteMapName::new("pve_openfabric6".to_string()),
        }
    );
}

fn two_ospf_fabrics() -> FabricConfig {
    config(
        vec![
            ospf("f1", Some(v4net(10, 0, 0, 0, 24)), Area::Number(0)),
            ospf("f2", Some(v4net(10, 0, 1, 0, 24)), Area::Number(1)),
        ],
        vec![
            ospf_node("f1", "pve", Some(v4(10, 0, 0, 5)), &["eth0"]),
            ospf_node("f2", "pve", Some(v4(10, 0, 1, 5)), &["eth1"]),
        ],
    )
}

#[test]
fn ospf_multi_fabric() {
    let (frr, warnings) = compile(two_ospf_fabrics(), "pve");
    assert!(warnings.is_empty());

    assert_eq!(frr.router.len(), 1);
    assert_eq!(frr.router.key_at(0), &RouterName::Ospf(OspfRouterName));
    assert_eq!(
        frr.router.value_at(0),
        &Router::Ospf(OspfRouter::new(v4(10, 0, 0, 5)))
    );

    assert_eq!(
        interface_names(&frr),
        vec![of_name("dummy_f1"), of_name("dummy_f2"), ospf_name("eth0"), ospf_name("eth1")]
    );
    let area = |s: &str| FrrArea::new(word(s)).expect("area");
    assert_eq!(
        frr.interfaces.value_at(0),
        &Interface::Ospf(OspfInterface { area: area("0"), passive: Some(true), network_type: None })
    );
    assert_eq!(
        frr.interfaces.value_at(1),
        &Interface::Ospf(OspfInterface { area: area("1"), passive: Some(true), network_type: None })
    );
    assert_eq!(
        frr.interfaces.value_at(2),
        &Interface::Ospf(OspfInterface {
            area: area("0"),
            passive: None,
            network_type: Some(NetworkType::PointToPoint),
        })
    );

    assert_eq!(
        frr.access_lists,
        vec![
            list("pve_ospf_f1_ips", Cidr::Ipv4(v4net(10, 0, 0, 0, 24))),
            list("pve_ospf_f2_ips", Cidr::Ipv4(v4net(10, 0, 1, 0, 24))),
        ]
    );
    assert_eq!(
        frr.routemaps,
        vec![
            map("pve_ospf", 100, false, "pve_ospf_f1_ips", IpAddr::V4(v4(10, 0, 0, 5))),
            map("pve_ospf", 110, false, "pve_ospf_f2_ips", IpAddr::V4(v4(10, 0, 1, 5))),
        ]
    );
    assert_eq!(frr.protocol_routemaps.len(), 1);
}

#[test]
fn ospf_shared_router_id() {
    let config = config(
        vec![
            ospf("f1", Some(v4net(10, 0, 0, 0, 24)), Area::Number(0)),
            ospf("f2", Some(v4net(10, 0, 1, 0, 24)), Area::Number(1)),
        ],
        vec![
            ospf_node("f1", "pve", Some(v4(10, 0, 0, 5)), &[]),
            ospf_node("f2", "pve", Some(v4(10, 0, 1, 9)), &[]),
        ],
    );
    let (frr, _) = compile(config, "pve");
    assert_eq!(frr.router.len(), 1);
    assert_eq!(
        frr.router.value_at(0),
        &Router::Ospf(OspfRouter::new(v4(10, 0, 0, 5)))
    );
    assert_eq!(frr.access_lists.len(), 2);
    assert_eq!(frr.routemaps.len(), 2);
    assert_eq!(frr.routemaps[0].sets, vec![RouteMapSet::IpSrc(IpAddr::V4(v4(10, 0, 0, 5)))]);
    assert_eq!(frr.routemaps[1].sets, vec![RouteMapSet::IpSrc(IpAddr::V4(v4(10, 0, 1, 9)))]);
}

#[test]
fn node_absent_from_fabric() {
    let (frr, warnings) = compile(dualstack_config(), "other");
    assert!(warnings.is_empty());
    assert_eq!(frr.router.len(), 0);
    assert_eq!(frr.interfaces.len(), 0);
    assert!(frr.access_lists.is_empty());
    assert!(frr.routemaps.is_empty());
    assert_eq!(frr.protocol_routemaps.len(), 0);

    let (frr, _) = compile(two_ospf_fabrics(), "pve1");
    assert_eq!(frr.router.len(), 0);
    assert_eq!(frr.interfaces.len(), 0);
}

#[test]
fn compiler_is_deterministic() {
    let (first, first_warnings) = compile(two_ospf_fabrics(), "pve");
    let (second, second_warnings) = compile(two_ospf_fabrics(), "pve");
    assert_eq!(format!("{first:?}"), format!("{second:?}"));
    assert_eq!(first_warnings, second_warnings);
}

#[test]
fn openfabric_default() {
    let mut fabric = openfabric("uwu", Some(v4net(192, 168, 2, 0, 24)), None);
    if let Fabric::Openfabric(section) = &mut fabric {
        section.properties.hello_interval = Some(HelloInterval::new(4).unwrap());
        section.properties.csnp_interval = Some(CsnpInterval::new(100).unwrap());
    }
    let mut node = openfabric_node("uwu", "pve", Some(v4(192, 168, 2, 8)), None, &["ens19", "ens20"]);
    if let Node::Openfabric(section) = &mut node {
        section.properties.interfaces[1].hello_multiplier = Some(HelloMultiplier::new(50).unwrap());
    }
    let other = openfabric_node("uwu", "pve1", Some(v4(192, 168, 2, 9)), None, &["ens19"]);
    let build = || config(vec![fabric.clone()], vec![node.clone(), other.clone()]);

    let (frr, warnings) = compile(build(), "pve");
    assert!(warnings.is_empty());
    assert_eq!(
        interface_names(&frr),
        vec![of_name("dummy_uwu"), of_name("ens19"), of_name("ens20")]
    );
    let Router::Openfabric(router) = frr.router.value_at(0) else { panic!("no router") };
    assert_eq!(router.net().to_text(), "49.0001.1921.6800.2008.00");
    let Interface::Openfabric(ens20) = frr.interfaces.value_at(2) else { panic!("no interface") };
    assert_eq!(ens20.hello_interval, Some(HelloInterval::new(4).unwrap()));
    assert_eq!(ens20.csnp_interval, Some(CsnpInterval::new(100).unwrap()));
    assert_eq!(ens20.hello_multiplier, Some(HelloMultiplier::new(50).unwrap()));
    assert_eq!(ens20.passive, None);
    assert!(ens20.is_ipv4 && !ens20.is_ipv6);
    assert_eq!(frr.routemaps.len(), 1);
    assert_eq!(frr.routemaps[0].seq, 100);

    let (frr, _) = compile(build(), "pve1");
    assert_eq!(interface_names(&frr), vec![of_name("dummy_uwu"), of_name("ens19")]);
    let Router::Openfabric(router) = frr.router.value_at(0) else { panic!("no router") };
    assert_eq!(router.net().to_text(), "49.0001.1921.6800.2009.00");
}

#[test]
fn ospf_default() {
    let fabric = ospf("test", Some(v4net(10, 10, 10, 0, 24)), Area::Number(0));
    let mut node = ospf_node("test", "pve", Some(v4(10, 10, 10, 1)), &["ens18", "ens19"]);
    if let Node::Ospf(section) = &mut node {
        section.properties.interfaces[1].ip = Some(v4net(4, 4, 4, 4, 24));
    }
    let other = ospf_node("test", "pve1", Some(v4(10, 10, 10, 2)), &["ens19"]);
    let build = || config(vec![fabric.clone()], vec![node.clone(), other.clone()]);

    let (frr, warnings) = compile(build(), "pve");
    assert!(warnings.is_empty());
    assert_eq!(
        interface_names(&frr),
        vec![of_name("dummy_test"), ospf_name("ens18"), ospf_name("ens19")]
    );
    let Interface::Ospf(ens18) = frr.interfaces.value_at(1) else { panic!("no interface") };
    assert_eq!(ens18.network_type, Some(NetworkType::PointToPoint));
    let Interface::Ospf(ens19) = frr.interfaces.value_at(2) else { panic!("no interface") };
    assert_eq!(ens19.network_type, None);
    assert_eq!(ens19.passive, None);
    assert_eq!(
        frr.router.value_at(0),
        &Router::Ospf(OspfRouter::new(v4(10, 10, 10, 1)))
    );

    let (frr, _) = compile(build(), "pve1");
    assert_eq!(
        frr.router.value_at(0),
        &Router::Ospf(OspfRouter::new(v4(10, 10, 10, 2)))
    );
    assert_eq!(interface_names(&frr), vec![of_name("dummy_test"), ospf_name("ens19")]);
}

#[test]
fn openfabric_multi_fabric() {
    let config = config(
        vec![
            openfabric("test1", Some(v4net(192, 168, 2, 0, 24)), None),
            openfabric("test2", Some(v4net(192, 168, 1, 0, 24)), None),
        ],
        vec![
            openfabric_node("test1", "pve1", Some(v4(192, 168, 2, 9)), None, &["ens19"]),
            openfabric_node("test2", "pve1", Some(v4(192, 168, 1, 9)), None, &["ens20"]),
        ],
    );
    let (frr, warnings) = compile(config, "pve1");
    assert!(warnings.is_empty());
    assert_eq!(frr.router.len(), 2);
    let Router::Openfabric(first) = frr.router.value_at(0) else { panic!("no router") };
    let Router::Openfabric(second) = frr.router.value_at(1) else { panic!("no router") };
    assert_eq!(first.net().to_text(), "49.0001.1921.6800.2009.00");
    assert_eq!(second.net().to_text(), "49.0001.1921.6800.1009.00");
    assert_eq!(
        interface_names(&frr),
        vec![of_name("dummy_test1"), of_name("dummy_test2"), of_name("ens19"), of_name("ens20")]
    );
    assert_eq!(frr.routemaps.iter().map(|m| m.seq).collect::<Vec<_>>(), vec![100, 110]);
    assert_eq!(frr.protocol_routemaps.len(), 1);
}

#[test]
fn openfabric_ipv6_only() {
    let config = config(
        vec![openfabric("uwu", None, Some(v6net([0xa0b, 0, 0, 0, 0, 0, 0, 0], 75)))],
        vec![openfabric_node(
            "uwu",
            "pve",
            None,
            Some(v6([0xa0b, 0, 0, 0, 0, 0, 0, 0xb])),
            &["ens19"],
        )],
    );
    let (frr, _) = compile(config, "pve");
    let Router::Openfabric(router) = frr.router.value_at(0) else { panic!("no router") };
    assert_eq!(router.net().to_text(), "49.0001.0000.0000.000b.00");
    let Interface::Openfabric(dummy) = frr.interfaces.value_at(0) else { panic!("no interface") };
    assert!(!dummy.is_ipv4 && dummy.is_ipv6);
    assert_eq!(frr.access_lists.len(), 1);
    assert_eq!(frr.access_lists[0].name, AccessListName::new("pve_openfabric_uwu_ip6s".to_string()));
    assert_eq!(frr.routemaps.len(), 1);
    assert_eq!(frr.routemaps[0].name, RouteMapName::new("pve_openfabric6".to_string()));
    assert_eq!(frr.routemaps[0].seq, 100);
}

#[test]
fn openfabric_verification_fail() {
    let config = config(
        vec![openfabric("uwu", Some(v4net(192, 168, 2, 0, 24)), None)],
        vec![
            openfabric_node("uwu", "pve", Some(v4(192, 168, 2, 8)), None, &["ens19"]),
            openfabric_node("uwu", "pve1", Some(v4(192, 168, 2, 8)), None, &["ens19"]),
        ],
    );
    let result = Valid::into_valid(config);
    assert!(result.is_err());
    assert_eq!(result.unwrap_err(), FabricConfigError::DuplicateNodeIp("uwu".to_string()));
}

#[test]
fn ospf_verification_fail() {
    let config = config(
        vec![
            ospf("test", Some(v4net(10, 10, 10, 0, 24)), Area::Number(0)),
            ospf("test1", Some(v4net(10, 10, 11, 0, 24)), Area::IpAddress(v4(0, 0, 0, 0))),
        ],
        vec![],
    );
    let result = Valid::into_valid(config);
    assert!(result.is_err());
    assert_eq!(result.unwrap_err(), FabricConfigError::DuplicateOspfArea);
}

#[test]
fn openfabric_loopback_prefix_fail() {
    let config = config(
        vec![openfabric("uwu", Some(v4net(192, 168, 2, 0, 24)), None)],
        vec![openfabric_node("uwu", "pve", Some(v4(192, 168, 3, 8)), None, &["ens19"])],
    );
    let result = Valid::into_valid(config);
    assert!(result.is_err());
    assert_eq!(
        result.unwrap_err(),
        FabricConfigError::NodeIpOutsideFabricRange(
            "192.168.3.8".to_string(),
            "192.168.2.0/24".to_string()
        )
    );
}

#[test]
fn ospf_loopback_prefix_fail() {
    let config = config(
        vec![ospf("test", Some(v4net(10, 10, 10, 0, 24)), Area::Number(0))],
        vec![ospf_node("test", "pve", Some(v4(10, 10, 11, 1)), &["ens18"])],
    );
    let result = Valid::into_valid(config);
    assert!(result.is_err());
    assert_eq!(
        result.unwrap_err(),
        FabricConfigError::NodeIpOutsideFabricRange(
            "10.10.11.1".to_string(),
            "10.10.10.0/24".to_string()
        )
    );
}

#[test]
fn validation_rejects_fabric_without_prefix() {
    let c = config(vec![openfabric("f1", None, None)], vec![]);
    assert_eq!(c.validate(), Err(FabricConfigError::FabricNoIpPrefix("f1".to_string())));
    let c = config(vec![ospf("f1", None, Area::Number(0))], vec![]);
    assert_eq!(c.validate(), Err(FabricConfigError::FabricNoIpPrefix("f1".to_string())));
    let c = config(
        vec![Fabric::Ospf(FabricSection::new(
            fid("f1"),
            Some(v4net(10, 0, 0, 0, 24)),
            Some(v6net([0xfd00, 0, 0, 0, 0, 0, 0, 0], 64)),
            OspfProperties { area: Area::Number(0) },
        ))],
        vec![],
    );
    assert_eq!(c.validate(), Err(FabricConfigError::Ipv6Unsupported("ospf".to_string())));
}

#[test]
fn validation_rejects_overlapping_prefixes() {
    let c = config(
        vec![
            openfabric("f1", Some(v4net(10, 0, 0, 0, 16)), None),
            openfabric("f2", Some(v4net(10, 0, 5, 0, 24)), None),
        ],
        vec![],
    );
    assert_eq!(
        c.validate(),
        Err(FabricConfigError::OverlappingIp4Prefix(
            "10.0.5.0/24".to_string(),
            "f2".to_string(),
            "10.0.0.0/16".to_string(),
            "f1".to_string()
        ))
    );
    let c = config(
        vec![
            openfabric("f1", None, Some(v6net([0xfd00, 0, 0, 0, 0, 0, 0, 0], 64))),
            openfabric("f2", None, Some(v6net([0xfd00, 0, 0, 0, 0, 0, 0, 0], 64))),
        ],
        vec![],
    );
    assert_eq!(
        c.validate(),
        Err(FabricConfigError::OverlappingIp6Prefix(
            "fd00::/64".to_string(),
            "f2".to_string(),
            "fd00::/64".to_string(),
            "f1".to_string()
        ))
    );
}

#[test]
fn validation_rejects_shared_area() {
    let c = config(
        vec![
            ospf("f1", Some(v4net(10, 0, 0, 0, 24)), Area::Number(5)),
            ospf("f2", Some(v4net(10, 0, 1, 0, 24)), Area::IpAddress(v4(0, 0, 0, 5))),
        ],
        vec![],
    );
    assert_eq!(c.validate(), Err(FabricConfigError::DuplicateOspfArea));
}

#[test]
fn validation_rejects_shared_interface() {
    let c = config(
        vec![
            openfabric("f1", Some(v4net(10, 0, 0, 0, 24)), None),
            ospf("f2", Some(v4net(10, 0, 1, 0, 24)), Area::Number(0)),
        ],
        vec![
            openfabric_node("f1", "pve", Some(v4(10, 0, 0, 1)), None, &["eth0"]),
            ospf_node("f2", "pve", Some(v4(10, 0, 1, 1)), &["eth0"]),
        ],
    );
    assert_eq!(c.validate(), Err(FabricConfigError::DuplicateInterface));
    let c = config(
        vec![
            openfabric("f1", Some(v4net(10, 0, 0, 0, 24)), None),
            ospf("f2", Some(v4net(10, 0, 1, 0, 24)), Area::Number(0)),
        ],
        vec![
            openfabric_node("f1", "pve", Some(v4(10, 0, 0, 1)), None, &["eth0"]),
            ospf_node("f2", "pve2", Some(v4(10, 0, 1, 1)), &["eth0"]),
        ],
    );
    assert_eq!(c.validate(), Ok(()));
}

#[test]
fn validation_rejects_mismatched_families() {
    let c = config(
        vec![openfabric("f1", Some(v4net(10, 0, 0, 0, 24)), None)],
        vec![openfabric_node(
            "f1",
            "pve",
            Some(v4(10, 0, 0, 1)),
            Some(v6([0xfd00, 0, 0, 0, 0, 0, 0, 1])),
            &[],
        )],
    );
    assert_eq!(
        c.validate(),
        Err(FabricConfigError::FabricNoIpPrefixForNode("f1".to_string(), "fd00::1".to_string()))
    );
    let c = config(
        vec![openfabric("f1", Some(v4net(10, 0, 0, 0, 24)), None)],
        vec![openfabric_node("f1", "pve", None, None, &[])],
    );
    assert_eq!(
        c.validate(),
        Err(FabricConfigError::NodeNoIpForFabricPrefix(
            "f1_pve".to_string(),
            "10.0.0.0/24".to_string()
        ))
    );
}

#[test]
fn insertion_errors() {
    let mut c = FabricConfig::new();
    c.add_fabric(openfabric("f1", Some(v4net(10, 0, 0, 77, 24)), None)).unwrap();
    assert_eq!(
        c.add_fabric(ospf("f1", None, Area::Number(0))),
        Err(FabricConfigError::DuplicateFabric("f1".to_string()))
    );
    assert_eq!(
        c.get_fabric(&fid("f1")).unwrap().ip_prefix().unwrap().to_text(),
        "10.0.0.0/24"
    );
    assert_eq!(
        c.add_node(openfabric_node("f2", "pve", None, None, &[])),
        Err(FabricConfigError::FabricDoesNotExist("f2".to_string()))
    );
    assert_eq!(
        c.add_node(ospf_node("f1", "pve", None, &[])),
        Err(FabricConfigError::ProtocolMismatch)
    );
    c.add_node(openfabric_node("f1", "pve", Some(v4(10, 0, 0, 1)), None, &[])).unwrap();
    assert_eq!(
        c.add_node(openfabric_node("f1", "pve", Some(v4(10, 0, 0, 2)), None, &[])),
        Err(FabricConfigError::DuplicateNode("pve".to_string(), "f1".to_string()))
    );
    assert!(matches!(
        c.get_fabric(&fid("nope")),
        Err(FabricConfigError::FabricDoesNotExist(_))
    ));
    assert_eq!(c.len(), 1);
    let removed = c.delete_fabric(&fid("f1")).unwrap();
    assert_eq!(removed.node_count(), 1);
    assert_eq!(c.len(), 0);
    assert!(matches!(
        c.delete_fabric(&fid("f1")),
        Err(FabricConfigError::FabricDoesNotExist(_))
    ));
}

#[test]
fn fabrics_are_kept_in_order() {
    let c = config(
        vec![
            openfabric("zeta", Some(v4net(10, 0, 2, 0, 24)), None),
            openfabric("alpha", Some(v4net(10, 0, 0, 0, 24)), None),
            openfabric("mid", Some(v4net(10, 0, 1, 0, 24)), None),
        ],
        vec![],
    );
    let ids: Vec<String> = (0..c.len()).map(|i| c.id_at(i).to_text()).collect();
    assert_eq!(ids, ["alpha", "mid", "zeta"]);
}

#[test]
fn update_fabric_and_node() {
    let mut c = dualstack_config();
    let updater = FabricUpdater::Openfabric(FabricSectionUpdater {
        ip_prefix: Some(v4net(10, 1, 0, 0, 16)),
        ip6_prefix: None,
        properties: OpenfabricPropertiesUpdater {
            hello_interval: Some(HelloInterval::new(7).unwrap()),
            csnp_interval: Some(CsnpInterval::new(9).unwrap()),
        },
        delete: vec![
            FabricDeletableProperties::Ip6Prefix,
            FabricDeletableProperties::Protocol(OpenfabricDeletableProperties::CsnpInterval),
        ],
    });
    c.update_fabric(&fid("f1"), updater).unwrap();
    let entry = c.get_fabric(&fid("f1")).unwrap();
    assert_eq!(entry.ip_prefix(), Some(v4net(10, 1, 0, 0, 16)));
    assert_eq!(entry.ip6_prefix(), None);

    let wrong = FabricUpdater::Ospf(FabricSectionUpdater {
        ip_prefix: None,
        ip6_prefix: None,
        properties: OspfPropertiesUpdater { area: None },
        delete: vec![],
    });
    assert_eq!(c.update_fabric(&fid("f1"), wrong.clone()), Err(FabricConfigError::ProtocolMismatch));
    assert!(wrong.is_empty());
    assert!(matches!(
        c.update_fabric(&fid("f9"), wrong),
        Err(FabricConfigError::FabricDoesNotExist(_))
    ));

    let node_update = NodeUpdater::Openfabric(NodeDataUpdater {
        ip: Some(v4(10, 1, 0, 1)),
        ip6: None,
        properties: OpenfabricNodePropertiesUpdater { interfaces: None },
        delete: vec![
            NodeDeletableProperties::Ip6,
            NodeDeletableProperties::Protocol(OpenfabricNodeDeletableProperties::Interfaces),
        ],
    });
    c.update_node(&fid("f1"), &nid("pve"), node_update.clone()).unwrap();
    assert!(matches!(
        c.update_node(&fid("f1"), &nid("nope"), node_update),
        Err(FabricConfigError::NodeDoesNotExist(_, _))
    ));
    assert_eq!(c.validate(), Ok(()));
    let (frr, _) = compile(c, "pve");
    assert_eq!(interface_names(&frr), vec![of_name("dummy_f1")]);
    let Interface::Openfabric(dummy) = frr.interfaces.value_at(0) else { panic!("no interface") };
    assert!(dummy.is_ipv4 && !dummy.is_ipv6);
    assert_eq!(frr.access_lists.len(), 1);
}

#[test]
fn compile_reports_replaced_interfaces() {
    let c = config(
        vec![openfabric("eth0", Some(v4net(10, 0, 0, 0, 24)), None)],
        vec![openfabric_node("eth0", "pve", Some(v4(10, 0, 0, 1)), None, &["dummy_eth0"])],
    );
    let (frr, warnings) = compile(c, "pve");
    assert_eq!(warnings, vec![CompileWarning::InterfaceClaimedTwice("dummy_eth0".to_string())]);
    assert_eq!(frr.interfaces.len(), 1);
    let Interface::Openfabric(record) = frr.interfaces.value_at(0) else { panic!("no interface") };
    assert_eq!(record.passive, None);
}

#[test]
fn compile_appends_to_records() {
    let mut frr = FrrConfig::new();
    let valid = Valid::into_valid(dualstack_config()).unwrap();
    assert_eq!(build_fabric(nid("pve"), valid, &mut frr), Ok(vec![]));
    let valid = Valid::into_valid(two_ospf_fabrics()).unwrap();
    assert_eq!(
        build_fabric(nid("pve"), valid, &mut frr),
        Ok(vec![CompileWarning::DummyInterfaceExists("dummy_f1".to_string())])
    );
    assert_eq!(frr.router.len(), 2);
    assert_eq!(frr.access_lists.len(), 4);
    assert_eq!(frr.routemaps.iter().map(|m| m.seq).collect::<Vec<_>>(), vec![100, 110, 100, 110]);
    assert_eq!(frr.protocol_routemaps.len(), 3);
    let _ = CompileError::NoAddress;
}

#[test]
fn openfabric_dualstack_text() {
    let (frr, _) = compile(dualstack_config(), "pve");
    let expected = "\
router openfabric f1
 net 49.0001.0100.0000.0001.00
exit
!
interface dummy_f1
 ipv6 router openfabric f1
 ip router openfabric f1
 openfabric passive
exit
!
interface eth0
 ipv6 router openfabric f1
 ip router openfabric f1
exit
!
ip access-list pve_openfabric_f1_ips permit 10.0.0.0/24
!
ipv6 access-list pve_openfabric_f1_ip6s permit fd00::/64
!
route-map pve_openfabric permit 100
 match ip address pve_openfabric_f1_ips
 set src 10.0.0.1
exit
!
route-map pve_openfabric6 permit 110
 match ipv6 address pve_openfabric_f1_ip6s
 set src fd00::1
exit
!
ip protocol openfabric route-map pve_openfabric
!
ipv6 protocol openfabric route-map pve_openfabric6
!
";
    assert_eq!(dump(&frr), expected);
    let lines = to_raw_config(&frr);
    assert_eq!(lines, expected.lines().map(String::from).collect::<Vec<_>>());
    let (again, _) = compile(dualstack_config(), "pve");
    assert_eq!(dump(&again), dump(&frr));
}

#[test]
fn ospf_multi_fabric_text() {
    let (frr, _) = compile(two_ospf_fabrics(), "pve");
    let expected = "\
router ospf
 ospf router-id 10.0.0.5
exit
!
interface dummy_f1
 ip ospf area 0
 ip ospf passive
exit
!
interface dummy_f2
 ip ospf area 1
 ip ospf passive
exit
!
interface eth0
 ip ospf area 0
 ip ospf network point-to-point
exit
!
interface eth1
 ip ospf area 1
 ip ospf network point-to-point
exit
!
ip access-list pve_ospf_f1_ips permit 10.0.0.0/24
!
ip access-list pve_ospf_f2_ips permit 10.0.1.0/24
!
route-map pve_ospf permit 100
 match ip address pve_ospf_f1_ips
 set src 10.0.0.5
exit
!
route-map pve_ospf permit 110
 match ip address pve_ospf_f2_ips
 set src 10.0.1.5
exit
!
ip protocol ospf route-map pve_ospf
!
";
    assert_eq!(dump(&frr), expected);
}

#[test]
fn serialize_records() {
    let mut blob = FrrConfigBlob::new();
    OpenfabricInterface {
        fabric_id: OpenfabricRouterName::new(word("uwu")),
        passive: Some(false),
        hello_interval: Some(HelloInterval::new(4).unwrap()),
        csnp_interval: Some(CsnpInterval::new(100).unwrap()),
        hello_multiplier: Some(HelloMultiplier::new(50).unwrap()),
        is_ipv4: true,
        is_ipv6: false,
    }
    .serialize(&mut blob);
    assert_eq!(
        blob.into_string(),
        " ip router openfabric uwu\n openfabric hello-interval 4\n openfabric hello-multiplier 50\n openfabric csnp-interval 100\n"
    );

    let mut blob = FrrConfigBlob::new();
    AccessList {
        name: AccessListName::new("filter".to_string()),
        rules: vec![
            AccessListRule {
                action: AccessAction::Permit,
                network: Cidr::new_v4([10, 0, 0, 0], 8).unwrap(),
                seq: Some(5),
            },
            AccessListRule {
                action: AccessAction::Deny,
                network: Cidr::new_v6([0x2001, 0xdb8, 0, 0, 0, 0, 0, 0], 64).unwrap(),
                seq: None,
            },
        ],
    }
    .serialize(&mut blob);
    assert_eq!(
        blob.into_string(),
        "ip access-list filter seq 5 permit 10.0.0.0/8\nipv6 access-list filter deny 2001:db8::/64\n!\n"
    );

    let mut blob = FrrConfigBlob::new();
    RouteMap {
        name: RouteMapName::new("test".to_string()),
        seq: 7,
        action: AccessAction::Deny,
        matches: vec![
            RouteMapMatch::V4(RouteMapMatchInner::IpNextHop("hop".to_string())),
            RouteMapMatch::V6(RouteMapMatchInner::IpNextHop("hop6".to_string())),
        ],
        sets: vec![
            RouteMapSet::LocalPreference(10),
            RouteMapSet::Metric(20),
            RouteMapSet::Community("1:2".to_string()),
        ],
    }
    .serialize(&mut blob);
    assert_eq!(
        blob.into_string(),
        "route-map test deny 7\n match ip next-hop hop\n match ipv6 next-hop hop6\n set local-preference 10\n set metric 20\n set community 1:2\nexit\n!\n"
    );

    let mut blob = FrrConfigBlob::new();
    for network_type in [
        NetworkType::Broadcast,
        NetworkType::NonBroadcast,
        NetworkType::PointToPoint,
        NetworkType::PointToMultipoint,
    ] {
        OspfInterface {
            area: FrrArea::new(word("0.0.0.1")).unwrap(),
            passive: None,
            network_type: Some(network_type),
        }
        .serialize(&mut blob);
    }
    assert_eq!(
        blob.into_string(),
        " ip ospf area 0.0.0.1\n ip ospf network broadcast\n ip ospf area 0.0.0.1\n ip ospf network non-broadcast\n ip ospf area 0.0.0.1\n ip ospf network point-to-point\n ip ospf area 0.0.0.1\n ip ospf network point-to-multicast\n"
    );
    assert_eq!(dump(&FrrConfig::new()), "");
    assert!(to_raw_config(&FrrConfig::new()).is_empty());
}

#[test]
fn sections_round_trip() {
    let sections = || {
        vec![
            Section::from_node(openfabric_node("f1", "pve2", Some(v4(10, 0, 0, 2)), None, &["eth0"])),
            Section::from_fabric(openfabric("f1", Some(v4net(10, 0, 0, 0, 24)), None)),
            Section::from_fabric(ospf("f0", Some(v4net(10, 0, 1, 0, 24)), Area::Number(0))),
            Section::from_node(openfabric_node("f1", "pve1", Some(v4(10, 0, 0, 1)), None, &["eth0"])),
            Section::from_node(ospf_node("f0", "pve1", Some(v4(10, 0, 1, 1)), &["eth1"])),
        ]
    };
    let valid = FabricConfig::from_section_config(sections()).expect("valid sections");
    let written = valid.into_section_config();
    let names: Vec<&str> = written.iter().map(|(name, _)| name.as_str()).collect();
    assert_eq!(names, ["f0", "f0_pve1", "f1", "f1_pve1", "f1_pve2"]);
    assert!(matches!(written[0].1, Section::OspfFabric(_)));
    assert!(matches!(written[1].1, Section::OspfNode(_)));
    assert!(matches!(written[2].1, Section::OpenfabricFabric(_)));
    let again = FabricConfig::from_section_config(
        written.into_iter().map(|(_, section)| section).collect(),
    )
    .expect("valid sections");
    let first = FrrConfigBuilder::new().add_fabrics(again).build(nid("pve1")).unwrap();
    let second = FrrConfigBuilder::new()
        .add_fabrics(FabricConfig::from_section_config(sections()).unwrap())
        .build(nid("pve1"))
        .unwrap();
    assert_eq!(dump(&first.0), dump(&second.0));

    let mut orphan = sections();
    orphan.push(Section::from_node(ospf_node("f9", "pve1", Some(v4(10, 0, 1, 1)), &[])));
    assert_eq!(
        FabricConfig::from_section_config(orphan).unwrap_err(),
        FabricConfigError::FabricDoesNotExist("f9".to_string())
    );
    let mut twice = sections();
    twice.push(Section::from_node(ospf_node("f0", "pve1", Some(v4(10, 0, 1, 2)), &[])));
    assert_eq!(
        FabricConfig::from_section_config(twice).unwrap_err(),
        FabricConfigError::DuplicateNode("pve1".to_string(), "f0".to_string())
    );
    let mut invalid = sections();
    invalid.push(Section::from_fabric(openfabric("f2", None, None)));
    assert_eq!(
        FabricConfig::from_section_config(invalid).unwrap_err(),
        FabricConfigError::FabricNoIpPrefix("f2".to_string())
    );
}

#[test]
fn entries_hand_out_fabric_and_nodes() {
    let config = dualstack_config();
    let entry = config.get_fabric(&fid("f1")).expect("fabric");
    assert_eq!(entry.fabric().id(), &fid("f1"));
    assert_eq!(entry.fabric().ip_prefix(), Some(v4net(10, 0, 0, 0, 24)));
    assert_eq!(entry.node_count(), 1);
    let node = entry.get_node(&nid("pve")).expect("node");
    assert_eq!(node.ip(), Some(v4(10, 0, 0, 1)));
    assert_eq!(entry.node_at(0).id().node_id(), &nid("pve"));
    assert_eq!(
        entry.get_node(&nid("other")),
        Err(FabricConfigError::NodeDoesNotExist("other".to_string(), "f1".to_string()))
    );
}

#[test]
fn properties_changed_in_place() {
    let mut fabric = FabricSection::new(
        fid("f1"),
        Some(v4net(10, 0, 0, 0, 24)),
        None,
        OpenfabricProperties { hello_interval: None, csnp_interval: None },
    );
    fabric.properties_mut().hello_interval = Some(HelloInterval::new(7).unwrap());
    assert_eq!(fabric.properties().hello_interval, Some(HelloInterval::new(7).unwrap()));
    assert_eq!(fabric.id(), &fid("f1"));
    assert_eq!(fabric.ip_prefix(), Some(v4net(10, 0, 0, 0, 24)));

    let mut node = NodeSection::new(
        NodeSectionId::new(fid("f1"), nid("pve")),
        Some(v4(10, 0, 0, 1)),
        None,
        OspfNodeProperties { interfaces: vec![] },
    );
    node.properties_mut()
        .interfaces_mut()
        .push(OspfInterfaceProperties { name: ifname("eth0"), ip: None });
    assert_eq!(node.properties().interfaces().len(), 1);
    assert_eq!(node.properties().interfaces()[0].name, ifname("eth0"));
    assert_eq!(node.ip(), Some(v4(10, 0, 0, 1)));
}

#[test]
fn fabrics_and_nodes_changed_in_place() {
    let mut config = dualstack_config();
    assert!(config.validate().is_ok());
    {
        let entry = config.get_fabric_mut(&fid("f1")).expect("fabric");
        let FabricEntry::Openfabric(entry) = entry else { panic!("protocol changed") };
        entry.get_node_mut(&nid("pve")).expect("node").ip = Some(v4(10, 0, 1, 1));
        entry.fabric_section_mut().properties_mut().hello_interval =
            Some(HelloInterval::new(5).unwrap());
        assert_eq!(
            entry.get_node_mut(&nid("other")).map(|_| ()),
            Err(FabricConfigError::NodeDoesNotExist("other".to_string(), "f1".to_string()))
        );
    }
    assert_eq!(
        config.get_fabric_mut(&fid("f9")).map(|_| ()),
        Err(FabricConfigError::FabricDoesNotExist("f9".to_string()))
    );
    let entry = config.get_fabric(&fid("f1")).expect("fabric");
    assert_eq!(entry.get_node(&nid("pve")).unwrap().ip(), Some(v4(10, 0, 1, 1)));
    let Fabric::Openfabric(fabric) = entry.fabric() else { panic!("protocol changed") };
    assert_eq!(fabric.properties().hello_interval, Some(HelloInterval::new(5).unwrap()));
    assert_eq!(
        config.validate(),
        Err(FabricConfigError::NodeIpOutsideFabricRange(
            "10.0.1.1".to_string(),
            "10.0.0.0/24".to_string()
        ))
    );
}

#[test]
fn openfabric_title_of_each_fabric() {
    let config = config(
        vec![
            openfabric("f1", Some(v4net(10, 0, 0, 0, 24)), None),
            openfabric("f2", Some(v4net(10, 0, 1, 0, 24)), None),
            openfabric("f3", None, Some(v6net([0xfd00, 0, 0, 0, 0, 0, 0, 0], 64))),
        ],
        vec![
            openfabric_node("f1", "pve", Some(v4(10, 0, 0, 1)), None, &[]),
            openfabric_node("f2", "pve", Some(v4(10, 0, 1, 1)), None, &[]),
            openfabric_node("f3", "pve", None, Some(v6([0xfd00, 0, 0, 0, 0, 0, 0, 1])), &[]),
        ],
    );
    let (frr, warnings) = compile(config, "pve");
    assert!(warnings.is_empty());
    let titles: Vec<String> = (0..frr.router.len())
        .map(|i| match frr.router.value_at(i) {
            Router::Openfabric(r) => r.net().to_text(),
            Router::Ospf(_) => panic!("no such router"),
        })
        .collect();
    assert_eq!(
        titles,
        [
            "49.0001.0100.0000.0001.00",
            "49.0001.0100.0000.1001.00",
            Net::from_ipv6(v6([0xfd00, 0, 0, 0, 0, 0, 0, 1])).to_text().as_str(),
        ]
    );
}

#[test]
fn compile_reports_replaced_routers() {
    let mut frr = FrrConfig::new();
    let valid = Valid::into_valid(dualstack_config()).expect("valid");
    assert_eq!(build_fabric(nid("pve"), valid.clone(), &mut frr), Ok(vec![]));

    let warnings = build_fabric(nid("pve"), valid.clone(), &mut frr).expect("compiles");
    assert!(!warnings.iter().any(|w| matches!(w, CompileWarning::RouterReplaced(_))));
    assert!(warnings.contains(&CompileWarning::DummyInterfaceExists("dummy_f1".to_string())));

    let other = config(
        vec![openfabric("f1", Some(v4net(10, 0, 0, 0, 24)), None)],
        vec![openfabric_node("f1", "pve", Some(v4(10, 0, 0, 7)), None, &[])],
    );
    let other = Valid::into_valid(other).expect("valid");
    let warnings = build_fabric(nid("pve"), other, &mut frr).expect("compiles");
    assert!(warnings.contains(&CompileWarning::RouterReplaced("openfabric f1".to_string())));
    let Router::Openfabric(router) = frr.router.value_at(0) else { panic!("no router") };
    assert_eq!(router.net().to_text(), "49.0001.0100.0000.0007.00");

    let mut ospf_records = FrrConfig::new();
    let first = Valid::into_valid(two_ospf_fabrics()).expect("valid");
    assert_eq!(build_fabric(nid("pve"), first, &mut ospf_records), Ok(vec![]));
    let second = config(
        vec![ospf("f1", Some(v4net(10, 0, 0, 0, 24)), Area::Number(0))],
        vec![ospf_node("f1", "pve", Some(v4(10, 0, 0, 9)), &[])],
    );
    let second = Valid::into_valid(second).expect("valid");
    let warnings = build_fabric(nid("pve"), second, &mut ospf_records).expect("compiles");
    assert!(warnings.contains(&CompileWarning::RouterReplaced("ospf".to_string())));
}

#[test]
fn node_absent_everywhere_compiles_to_nothing() {
    let mut frr = FrrConfig::new();
    let valid = Valid::into_valid(two_ospf_fabrics()).expect("valid");
    assert_eq!(build_fabric(nid("pve"), valid.clone(), &mut frr), Ok(vec![]));
    let before = dump(&frr);
    assert_eq!(build_fabric(nid("elsewhere"), valid, &mut frr), Ok(vec![]));
    assert_eq!(dump(&frr), before);
}

#[test]
fn witness_by_method() {
    let valid = dualstack_config().into_valid().expect("valid");
    assert_eq!(valid.get().len(), 1);
    let broken = config(vec![openfabric("f1", None, None)], vec![]);
    assert!(broken.into_valid().is_err());
}
