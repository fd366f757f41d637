use proxmox_ve_config::common::Allowlist;
use proxmox_ve_config::firewall::types::alias::{
    Alias, AliasName, AliasNameError, AliasScope, LegacyAliasName, RuleAliasName,
};
use proxmox_ve_config::frr::{
    CommonInterfaceName, CommonInterfaceNameError, FrrWord, FrrWordError,
};
use proxmox_ve_config::guest::types::Vmid;
use proxmox_ve_config::guest::vm::{index_from_net_key, NetworkDeviceError, NetworkDeviceModel};
use proxmox_ve_config::host::types::{BridgeName, BridgeNameError};
use proxmox_ve_config::ip_address::cidr::Cidr;
use proxmox_ve_config::sdn::fabric::section_config::fabric::FabricId;
use proxmox_ve_config::sdn::fabric::section_config::interface::InterfaceName;
use proxmox_ve_config::sdn::fabric::section_config::node::{NodeId, NodeSectionId};
use proxmox_ve_config::sdn::fabric::section_config::SectionIdError;
use proxmox_ve_config::sdn::{validate_sdn_name, SdnNameError, SubnetName, VnetName, ZoneName};

#[test]
fn test_zone_name() {
    ZoneName::new("zone0".to_string()).unwrap();

    assert_eq!(ZoneName::new("".to_string()), Err(SdnNameError::Empty));

    assert_eq!(
        ZoneName::new("3qwe".to_string()),
        Err(SdnNameError::InvalidSymbols)
    );

    assert_eq!(
        ZoneName::new("qweqweqwe".to_string()),
        Err(SdnNameError::TooLong)
    );

    assert_eq!(
        ZoneName::new("qß".to_string()),
        Err(SdnNameError::InvalidSymbols)
    );
}

#[test]
fn test_vnet_name() {
    VnetName::new("vnet0".to_string()).unwrap();

    assert_eq!(VnetName::new("".to_string()), Err(SdnNameError::Empty));

    assert_eq!(
        VnetName::new("3qwe".to_string()),
        Err(SdnNameError::InvalidSymbols)
    );

    assert_eq!(
        VnetName::new("qweqweqwe".to_string()),
        Err(SdnNameError::TooLong)
    );

    assert_eq!(
        VnetName::new("qß".to_string()),
        Err(SdnNameError::InvalidSymbols)
    );
}

#[test]
fn test_parse_legacy_alias_name() {
    for name in ["proxmox_123", "proxmox-123"] {
        LegacyAliasName::parse_text(name).expect("valid alias name");
    }

    for name in ["1proxmox_123", "-proxmox-123"] {
        LegacyAliasName::parse_text(name).expect_err("invalid alias name");
    }
}

#[test]
fn test_parse_alias_name() {
    for name in ["dc/proxmox_123", "guest/proxmox-123"] {
        AliasName::parse_text(name).expect("valid alias name");
    }

    for name in ["proxmox/proxmox_123", "guests/proxmox-123", "dc/", "/name"] {
        AliasName::parse_text(name).expect_err("invalid alias name");
    }
}

#[test]
fn test_parse_alias_case() {
    for name in ["dc/PROxMoX", "guest/PROXMOX"] {
        let alias_name = AliasName::parse_text(name).expect("valid alias name");
        assert_eq!(alias_name.name(), "proxmox");
    }
}

#[test]
fn sdn_name_limits() {
    assert_eq!(validate_sdn_name("a"), Ok(()));
    assert_eq!(validate_sdn_name("abcdefgh"), Ok(()));
    assert_eq!(validate_sdn_name("abcdefghi"), Err(SdnNameError::TooLong));
    assert_eq!(validate_sdn_name("ääääß"), Err(SdnNameError::TooLong));
    assert_eq!(validate_sdn_name("a-b"), Err(SdnNameError::InvalidSymbols));
    assert_eq!(validate_sdn_name("_ab"), Err(SdnNameError::InvalidSymbols));
    assert_eq!(SdnNameError::TooLong.message(), "name too long");
    assert_eq!(SdnNameError::Empty.message(), "name is empty");
    assert_eq!(VnetName::new("vnet0".to_string()).unwrap().name(), "vnet0");
    assert_eq!(ZoneName::parse_text("zone0").unwrap().as_str(), "zone0");
}

#[test]
fn subnet_name_parts() {
    let zone = ZoneName::new("zone0".to_string()).unwrap();
    let cidr = Cidr::new_v4([10, 101, 0, 0], 16).unwrap();
    let name = SubnetName::new(zone.clone(), cidr);
    assert_eq!(name.zone(), &zone);
    assert_eq!(name.cidr(), &cidr);
}

#[test]
fn alias_names() {
    let name = AliasName::new(AliasScope::Guest, "Web-Server_1".to_string());
    assert_eq!(name.name(), "web-server_1");
    assert_eq!(name.scope(), &AliasScope::Guest);
    assert_eq!(name.to_text(), "guest/web-server_1");
    assert_eq!(AliasName::parse_text("dc/Name").unwrap().to_text(), "dc/name");
    assert_eq!(AliasName::parse_text("name"), Err(AliasNameError::InvalidName));
    assert_eq!(AliasName::parse_text("dc/"), Err(AliasNameError::InvalidName));
    assert_eq!(AliasName::parse_text("host/name"), Err(AliasNameError::InvalidScope));
    assert_eq!(AliasScope::parse_text("dc"), Ok(AliasScope::Datacenter));
    assert_eq!(AliasScope::parse_text("DC"), Err(AliasNameError::InvalidScope));
    assert_eq!(LegacyAliasName::parse_text("PrOx").unwrap().as_str(), "prox");
    assert_eq!(LegacyAliasName::parse_text(""), Err(AliasNameError::InvalidName));
    assert_eq!(LegacyAliasName::parse_text("a b"), Err(AliasNameError::InvalidName));
    assert!(matches!(RuleAliasName::parse_text("dc/a"), Ok(RuleAliasName::Scoped(_))));
    assert!(matches!(RuleAliasName::parse_text("a-b"), Ok(RuleAliasName::Legacy(_))));
    assert_eq!(RuleAliasName::parse_text("dc/Ab").unwrap().to_text(), "dc/ab");
    assert_eq!(RuleAliasName::parse_text("-a"), Err(AliasNameError::InvalidName));
    let alias = Alias::new(
        "pRoxMox".to_string(),
        Cidr::new_v4([10, 0, 0, 0], 32).unwrap(),
        Some("a comment".to_string()),
    );
    assert_eq!(alias.name(), "proxmox");
    assert_eq!(alias.address(), &Cidr::new_v4([10, 0, 0, 0], 32).expect("valid CIDR"));
    assert_eq!(alias.comment(), Some("a comment"));
}

#[test]
fn frr_words() {
    assert_eq!(FrrWord::new("".to_string()), Err(FrrWordError::IsEmpty));
    assert_eq!(FrrWord::new("a b".to_string()), Err(FrrWordError::InvalidCharacter));
    assert_eq!(FrrWord::new("a\tb".to_string()), Err(FrrWordError::InvalidCharacter));
    assert_eq!(FrrWord::new("aß".to_string()), Err(FrrWordError::InvalidCharacter));
    assert_eq!(FrrWord::new("fabric-1".to_string()).unwrap().as_str(), "fabric-1");
    assert_eq!(
        CommonInterfaceName::new("123456789012345".to_string()).unwrap().as_str(),
        "123456789012345"
    );
    assert_eq!(
        CommonInterfaceName::new("1234567890123456".to_string()),
        Err(CommonInterfaceNameError::TooLong)
    );
    assert_eq!(
        CommonInterfaceName::new("ßßßßßßßß".to_string()),
        Err(CommonInterfaceNameError::TooLong)
    );
    assert!(CommonInterfaceName::new("".to_string()).is_ok());
}

#[test]
fn section_identifiers() {
    assert!(FabricId::from_string("a".to_string()).is_ok());
    assert!(FabricId::from_string("ab-cd-ef".to_string()).is_ok());
    assert!(FabricId::from_string("abcdefg-".to_string()).is_err());
    assert!(FabricId::from_string("abcdef-".to_string()).is_ok());
    assert!(FabricId::from_string("abcdefghi".to_string()).is_err());
    assert!(FabricId::from_string("-abc".to_string()).is_err());
    assert_eq!(
        FabricId::from_string("a_b".to_string()),
        Err(SectionIdError::InvalidFabricId)
    );
    assert_eq!(FabricId::from_string("".to_string()), Err(SectionIdError::InvalidFabricId));
    assert!(NodeId::from_string("pve".to_string()).is_ok());
    assert!(NodeId::from_string("a".repeat(63)).is_ok());
    assert!(NodeId::from_string("a".repeat(64)).is_err());
    assert!(NodeId::from_string(format!("{}-", "a".repeat(62))).is_err());
    assert_eq!(NodeId::from_string("pve.lan".to_string()), Err(SectionIdError::InvalidNodeId));
    assert!(InterfaceName::from_string("eth0".to_string()).is_ok());
    assert!(InterfaceName::from_string("".to_string()).is_err());
    assert!(InterfaceName::from_string("1234567890123456".to_string()).is_err());
    assert_eq!(
        InterfaceName::from_string("ethß".to_string()),
        Err(SectionIdError::InvalidInterfaceName)
    );

    let id = NodeSectionId::parse_text("fab1_pve-1").unwrap();
    assert_eq!(id.fabric_id().as_str(), "fab1");
    assert_eq!(id.node_id().as_str(), "pve-1");
    assert_eq!(id.to_text(), "fab1_pve-1");
    let made = NodeSectionId::new(
        FabricId::from_string("fab1".to_string()).unwrap(),
        NodeId::from_string("pve-1".to_string()).unwrap(),
    );
    assert_eq!(made, id);
    assert_eq!(NodeSectionId::parse_text("fab1"), Err(SectionIdError::InvalidNodeSectionId));
    assert_eq!(NodeSectionId::parse_text("_pve"), Err(SectionIdError::InvalidFabricId));
    assert_eq!(NodeSectionId::parse_text("fab1_"), Err(SectionIdError::InvalidNodeId));
    assert_eq!(NodeSectionId::parse_text("fab1_a_b"), Err(SectionIdError::InvalidNodeId));
}

#[test]
fn guest_and_host_names() {
    assert_eq!(Vmid::new(100).raw_value(), 100);
    assert_eq!(Vmid::parse_text("100").unwrap(), Vmid::new(100));
    assert!(Vmid::parse_text("-1").is_err());
    assert!(Vmid::parse_text("4294967296").is_err());
    assert_eq!(Vmid::new(4_294_967_295).to_text(), "4294967295");
    assert_eq!(BridgeName::new("vmbr0".to_string()).unwrap().name(), "vmbr0");
    assert_eq!(
        BridgeName::new("1234567890123456".to_string()),
        Err(BridgeNameError::TooLong)
    );
    assert_eq!(NetworkDeviceModel::parse_text("virtio"), Ok(NetworkDeviceModel::VirtIO));
    assert_eq!(NetworkDeviceModel::parse_text("veth"), Ok(NetworkDeviceModel::Veth));
    assert_eq!(NetworkDeviceModel::parse_text("e1000"), Ok(NetworkDeviceModel::E1000));
    assert_eq!(NetworkDeviceModel::parse_text("vmxnet3"), Ok(NetworkDeviceModel::Vmxnet3));
    assert_eq!(NetworkDeviceModel::parse_text("rtl8139"), Ok(NetworkDeviceModel::RTL8139));
    assert_eq!(
        NetworkDeviceModel::parse_text("model"),
        Err(NetworkDeviceError::InvalidModel)
    );
    assert_eq!(index_from_net_key("net0"), Ok(0));
    assert_eq!(index_from_net_key("net30"), Ok(30));
    assert_eq!(index_from_net_key("net007"), Ok(7));
    for bad in ["net31", "net33", "netqwe", "net", "net0 ", "ned0", "net-1", "net99999999999999999999"] {
        assert_eq!(index_from_net_key(bad), Err(NetworkDeviceError::InvalidNetKey), "{bad}");
    }
}

#[test]
fn allowlist() {
    let name = |s: &str| VnetName::new(s.to_string()).unwrap();
    let list = Allowlist::new(vec![name("vnet0"), name("vnet1"), name("vnet0")]);
    assert!(list.is_allowed(&name("vnet0")));
    assert!(list.is_allowed(&name("vnet1")));
    assert!(!list.is_allowed(&name("vnet2")));
    assert!(!Allowlist::<VnetName>::default().is_allowed(&name("vnet0")));
    let numbers: Allowlist<i64> = Allowlist::new(vec![3, 5]);
    assert!(numbers.is_allowed(&5));
    assert!(!numbers.is_allowed(&4));
}

#[test]
fn words_and_bridge_names_from_text() {
    assert_eq!(FrrWord::parse_text(""), Err(FrrWordError::IsEmpty));
    assert_eq!(FrrWord::parse_text("a b"), Err(FrrWordError::InvalidCharacter));
    assert_eq!(FrrWord::parse_text("fabric-1").unwrap().as_str(), "fabric-1");
    assert_eq!(FrrWord::parse_text("0"), FrrWord::new("0".to_string()));

    assert_eq!(BridgeName::parse_text("vmbr0").unwrap().name(), "vmbr0");
    assert_eq!(BridgeName::parse_text("a234567890123456"), Err(BridgeNameError::TooLong));
    assert_eq!(BridgeName::parse_text("a23456789012345").unwrap().name(), "a23456789012345");
}
