use proxmox_ve_config::firewall::types::address::{IpEntry, IpList, IpListError};
use proxmox_ve_config::firewall::types::alias::{Alias, AliasError};
use proxmox_ve_config::host::network::{InterfaceMapping, IpLink};
use proxmox_ve_config::ip_address::cidr::{Cidr, Ipv4Cidr, Ipv6Cidr};
use proxmox_ve_config::ip_address::parse::parse_u8;
use proxmox_ve_config::ip_address::range::IpRange;
use proxmox_ve_config::ip_address::{Family, IpAddr, Ipv4Addr, Ipv6Addr};
use proxmox_ve_config::sdn::{SdnNameError, SubnetName, ZoneName};

#[test]
fn test_parse_ip_entry() {
    let mut entry: IpEntry = IpEntry::parse_text("10.0.0.1").expect("valid IP entry");

    assert_eq!(entry, IpEntry::Cidr(Cidr::new_v4([10, 0, 0, 1], 32).unwrap()));

    entry = IpEntry::parse_text("10.0.0.0/16").expect("valid IP entry");

    assert_eq!(entry, IpEntry::Cidr(Cidr::new_v4([10, 0, 0, 0], 16).unwrap()));

    entry = IpEntry::parse_text("192.168.0.1-192.168.99.255").expect("valid IP entry");

    assert_eq!(
        entry,
        IpEntry::Range(
            IpRange::new_v4([192, 168, 0, 1], [192, 168, 99, 255]).expect("valid IP range")
        )
    );

    entry = IpEntry::parse_text("fe80::1").expect("valid IP entry");

    assert_eq!(
        entry,
        IpEntry::Cidr(Cidr::new_v6([0xFE80, 0, 0, 0, 0, 0, 0, 1], 128).unwrap())
    );

    entry = IpEntry::parse_text("fe80::1/48").expect("valid IP entry");

    assert_eq!(
        entry,
        IpEntry::Cidr(Cidr::new_v6([0xFE80, 0, 0, 0, 0, 0, 0, 1], 48).unwrap())
    );

    entry = IpEntry::parse_text("fd80::1-fd80::ffff").expect("valid IP entry");

    assert_eq!(
        entry,
        IpEntry::Range(
            IpRange::new_v6(
                [0xFD80, 0, 0, 0, 0, 0, 0, 1],
                [0xFD80, 0, 0, 0, 0, 0, 0, 0xFFFF],
            )
            .expect("valid IP range")
        )
    );

    assert!(IpEntry::parse_text("192.168.100.0-192.168.99.255").is_none());
    assert!(IpEntry::parse_text("192.168.100.0-fe80::1").is_none());
    assert!(IpEntry::parse_text("192.168.100.0-192.168.200.0/16").is_none());
    assert!(IpEntry::parse_text("192.168.100.0-192.168.200.0-192.168.250.0").is_none());
    assert!(IpEntry::parse_text("qweasd").is_none());
}

#[test]
fn test_parse_ip_list() {
    let mut ip_list: IpList =
        IpList::parse_text("192.168.0.1,192.168.100.0/24,172.16.0.0-172.32.255.255")
            .expect("valid IP list");

    assert_eq!(
        ip_list.entries(),
        &vec![
            IpEntry::Cidr(Cidr::new_v4([192, 168, 0, 1], 32).unwrap()),
            IpEntry::Cidr(Cidr::new_v4([192, 168, 100, 0], 24).unwrap()),
            IpEntry::Range(IpRange::new_v4([172, 16, 0, 0], [172, 32, 255, 255]).unwrap()),
        ]
    );
    assert_eq!(ip_list.family(), Family::V4);

    ip_list = IpList::parse_text("fe80::1/64").expect("valid IP list");

    assert_eq!(
        ip_list.entries(),
        &vec![IpEntry::Cidr(
            Cidr::new_v6([0xFE80, 0, 0, 0, 0, 0, 0, 1], 64).unwrap()
        ),]
    );
    assert_eq!(ip_list.family(), Family::V6);

    IpList::parse_text("192.168.0.1,fe80::1").unwrap_err();

    IpList::parse_text("").unwrap_err();
    IpList::parse_text("proxmox").unwrap_err();
}

#[test]
fn test_construct_ip_list() {
    let mut ip_list = IpList::new(vec![IpEntry::Cidr(Cidr::new_v4([10, 0, 0, 0], 8).unwrap())])
        .expect("valid ip list");

    assert_eq!(ip_list.family(), Family::V4);

    ip_list = IpList::new(vec![IpEntry::Cidr(Cidr::new_v6([0x000; 8], 8).unwrap())])
        .expect("valid ip list");

    assert_eq!(ip_list.family(), Family::V6);

    IpList::new(vec![]).expect_err("empty ip list is invalid");

    IpList::new(vec![
        IpEntry::Cidr(Cidr::new_v4([10, 0, 0, 0], 8).unwrap()),
        IpEntry::Cidr(Cidr::new_v6([0x0000; 8], 8).unwrap()),
    ])
    .expect_err("cannot mix ip families in ip list");
}

#[test]
fn ip_list_errors() {
    assert_eq!(IpList::parse_text(""), Err(IpListError::Empty));
    assert_eq!(IpList::parse_text("10.0.0.1,"), Err(IpListError::InvalidEntry));
    assert_eq!(IpList::parse_text(",10.0.0.1"), Err(IpListError::InvalidEntry));
    assert_eq!(IpList::parse_text("10.0.0.1,fe80::1"), Err(IpListError::MixedFamilies));
    assert_eq!(IpList::parse_text("10.0.0.1,fe80::1,x"), Err(IpListError::MixedFamilies));
    assert_eq!(IpList::parse_text("10.0.0.1,x,fe80::1"), Err(IpListError::InvalidEntry));
    assert_eq!(IpList::new(vec![]), Err(IpListError::Empty));
    let entry = IpEntry::Range(IpRange::new_v4([10, 0, 0, 1], [10, 0, 0, 9]).unwrap());
    assert_eq!(entry.to_text(), "10.0.0.1-10.0.0.9");
    assert_eq!(entry.family(), Family::V4);
    let list = IpList::from_entry(entry);
    assert_eq!(list.clone(), list);
    assert_eq!(IpEntry::Cidr(Cidr::new_v4([10, 0, 0, 0], 8).unwrap()).to_text(), "10.0.0.0/8");
}

#[test]
fn test_subnet_name() {
    assert_eq!(
        SubnetName::parse_text("qweqweqwe-10.101.0.0-16"),
        Err(SdnNameError::TooLong),
    );

    assert_eq!(
        SubnetName::parse_text("zone0_10.101.0.0-16"),
        Err(SdnNameError::InvalidSubnetFormat),
    );

    assert_eq!(
        SubnetName::parse_text("zone0-10.101.0.0_16"),
        Err(SdnNameError::InvalidSubnetFormat),
    );

    assert_eq!(
        SubnetName::parse_text("zone0-10.101.0.0-33"),
        Err(SdnNameError::InvalidSubnetCidr),
    );

    assert_eq!(
        SubnetName::parse_text("zone0-10.101.0.0-16").unwrap(),
        SubnetName::new(
            ZoneName::new("zone0".to_string()).unwrap(),
            Cidr::new_v4([10, 101, 0, 0], 16).unwrap()
        )
    )
}

#[test]
fn subnet_name_version_6() {
    assert_eq!(
        SubnetName::parse_text("zone0-fd80::-64").unwrap(),
        SubnetName::new(
            ZoneName::new("zone0".to_string()).unwrap(),
            Cidr::new_v6([0xfd80, 0, 0, 0, 0, 0, 0, 0], 64).unwrap()
        )
    );
    assert_eq!(SubnetName::parse_text("zone0-fd80::-129"), Err(SdnNameError::InvalidSubnetCidr));
    assert_eq!(SubnetName::parse_text("-10.0.0.0-8"), Err(SdnNameError::Empty));
    assert_eq!(SubnetName::parse_text("zone0-10.0.0.0/8-8"), Err(SdnNameError::InvalidSubnetCidr));
}

#[test]
fn test_parse_alias() {
    for alias in [
        "local_network 10.0.0.0/32",
        "test-_123-___-a---- 10.0.0.1/32",
    ] {
        Alias::parse_text(alias).expect("valid alias");
    }

    for alias in ["-- 10.0.0.1/32", "0asd 10.0.0.1/32", "__test 10.0.0.0/32"] {
        Alias::parse_text(alias).expect_err("invalid alias");
    }

    let alias = Alias::parse_text("pRoxMox 10.0.0.0/32 # a comment").expect("valid alias");
    assert_eq!(alias.name(), "proxmox");
    assert_eq!(
        alias.address(),
        &Cidr::new_v4([10, 0, 0, 0], 32).expect("valid CIDR")
    );
    assert_eq!(alias.comment(), Some("a comment"));
}

#[test]
fn alias_errors() {
    assert_eq!(Alias::parse_text(""), Err(AliasError::ExpectedName));
    assert_eq!(Alias::parse_text("   "), Err(AliasError::ExpectedName));
    assert_eq!(Alias::parse_text("name"), Err(AliasError::ExpectedValue));
    assert_eq!(Alias::parse_text("name   "), Err(AliasError::ExpectedValue));
    assert_eq!(Alias::parse_text("name 10.0.0.0/33"), Err(AliasError::InvalidAddress));
    assert_eq!(Alias::parse_text("name 10.0.0.0/8 x"), Err(AliasError::TrailingCharacters));
    let alias = Alias::parse_text("  \tname\t fd00::/8   #").unwrap();
    assert_eq!(alias.name(), "name");
    assert_eq!(alias.address(), &Cidr::new_v6([0xfd00, 0, 0, 0, 0, 0, 0, 0], 8).unwrap());
    assert_eq!(alias.comment(), Some(""));
    assert_eq!(Alias::parse_text("name 10.0.0.1").unwrap().comment(), None);
    assert_eq!(Alias::parse_text("name 10.0.0.1  ").unwrap().comment(), None);
    assert_eq!(
        Alias::parse_text("name 10.0.0.1 #  two words \u{a0}").unwrap().comment(),
        Some("two words")
    );
}

#[test]
fn address_version_6_from_text() {
    let cases: [(&str, [u16; 8]); 12] = [
        ("::", [0; 8]),
        ("::1", [0, 0, 0, 0, 0, 0, 0, 1]),
        ("1::", [1, 0, 0, 0, 0, 0, 0, 0]),
        ("fe80::1", [0xfe80, 0, 0, 0, 0, 0, 0, 1]),
        ("2001:db8::1:0:0:1", [0x2001, 0xdb8, 0, 0, 1, 0, 0, 1]),
        ("1:2:3:4:5:6:7:8", [1, 2, 3, 4, 5, 6, 7, 8]),
        ("1:2:3:4:5:6:7::", [1, 2, 3, 4, 5, 6, 7, 0]),
        ("::2:3:4:5:6:7:8", [0, 2, 3, 4, 5, 6, 7, 8]),
        ("::ffff:192.168.1.1", [0, 0, 0, 0, 0, 0xffff, 0xc0a8, 0x0101]),
        ("1:2:3:4:5:6:1.2.3.4", [1, 2, 3, 4, 5, 6, 0x0102, 0x0304]),
        ("::1.2.3.4", [0, 0, 0, 0, 0, 0, 0x0102, 0x0304]),
        ("ABCD:ef01::0001", [0xabcd, 0xef01, 0, 0, 0, 0, 0, 1]),
    ];
    for (text, segments) in cases {
        assert_eq!(Ipv6Addr::parse_text(text), Some(Ipv6Addr::from_segments(segments)), "{text}");
    }
    for bad in [
        "", ":", ":::", "1", "1:2:3:4:5:6:7", "1:2:3:4:5:6:7:8:9", "1::2::3", "12345::",
        "1:2:3:4:5:6:7:8::", "::1:2:3:4:5:6:7:8", "1.2.3.4::", "1:2:3:4:5:6:7:1.2.3.4",
        "::1.2.3", "::1.2.3.256", "g::", "1:", ":1", "1::2:", "fe80::1%eth0", " ::1",
        "::01.2.3.4",
    ] {
        assert_eq!(Ipv6Addr::parse_text(bad), None, "{bad}");
    }
    for segments in [
        [0u16; 8],
        [0, 0, 0, 0, 0, 0, 0, 1],
        [0xfd00, 0, 0, 0, 0, 0, 0, 1],
        [1, 0, 2, 3, 4, 5, 6, 7],
        [0, 0, 0, 0, 0, 0xffff, 0xc0a8, 0x0101],
        [0x2001, 0xdb8, 0, 1, 0, 0, 0, 1],
        [0xffff; 8],
    ] {
        let addr = Ipv6Addr::from_segments(segments);
        assert_eq!(Ipv6Addr::parse_text(&addr.to_text()), Some(addr));
    }
    assert_eq!(IpAddr::parse_text("10.0.0.1"), Some(IpAddr::V4(Ipv4Addr::new(10, 0, 0, 1))));
    assert_eq!(IpAddr::parse_text("::1"), Some(IpAddr::V6(Ipv6Addr::from_bits(1))));
    assert_eq!(IpAddr::parse_text("one"), None);
}

#[test]
fn prefix_from_text() {
    assert_eq!(
        Ipv4Cidr::parse_text("10.0.0.0/8"),
        Some(Ipv4Cidr::new(Ipv4Addr::new(10, 0, 0, 0), 8).unwrap())
    );
    assert_eq!(
        Ipv4Cidr::parse_text("10.0.0.1"),
        Some(Ipv4Cidr::new(Ipv4Addr::new(10, 0, 0, 1), 32).unwrap())
    );
    assert_eq!(
        Ipv4Cidr::parse_text("10.0.0.1/+08"),
        Some(Ipv4Cidr::new(Ipv4Addr::new(10, 0, 0, 1), 8).unwrap())
    );
    for bad in ["10.0.0.0/33", "10.0.0.0/", "/8", "10.0.0.0/8/8", "10.0.0/8", "10.0.0.0/-1", "::/0"] {
        assert_eq!(Ipv4Cidr::parse_text(bad), None, "{bad}");
    }
    assert_eq!(
        Ipv6Cidr::parse_text("fd00::/64"),
        Some(Ipv6Cidr::new(Ipv6Addr::from_segments([0xfd00, 0, 0, 0, 0, 0, 0, 0]), 64).unwrap())
    );
    assert_eq!(Ipv6Cidr::parse_text("fd00::/129"), None);
    assert_eq!(Ipv6Cidr::parse_text("10.0.0.0/8"), None);
    assert_eq!(Cidr::parse_text("0.0.0.0/0"), Some(Cidr::new_v4([0, 0, 0, 0], 0).unwrap()));
    assert_eq!(Cidr::parse_text("::/0"), Some(Cidr::new_v6([0; 8], 0).unwrap()));
    assert_eq!(Cidr::parse_text("x"), None);
    for cidr in [
        Cidr::new_v4([10, 1, 2, 3], 24).unwrap(),
        Cidr::new_v4([255, 255, 255, 255], 32).unwrap(),
        Cidr::new_v6([0xfd80, 0, 0, 0, 0, 0, 0, 1], 64).unwrap(),
    ] {
        assert_eq!(Cidr::parse_text(&cidr.to_text()), Some(cidr));
    }
    assert_eq!(parse_u8("255"), Some(255));
    assert_eq!(parse_u8("256"), None);
    assert_eq!(parse_u8(""), None);
    assert_eq!(
        IpRange::parse_text("10.0.0.1-10.0.0.9"),
        Some(IpRange::new_v4([10, 0, 0, 1], [10, 0, 0, 9]).unwrap())
    );
    assert_eq!(IpRange::parse_text("10.0.0.9-10.0.0.1"), None);
    assert_eq!(IpRange::parse_text("10.0.0.1"), None);
}

#[test]
fn interface_mapping() {
    let links = vec![
        IpLink {
            ifname: "eth0".to_string(),
            altnames: vec!["enp1s0".to_string(), "eno1".to_string()],
        },
        IpLink { ifname: "eth1".to_string(), altnames: vec![] },
        IpLink { ifname: "eth2".to_string(), altnames: vec!["eno1".to_string()] },
    ];
    let mapping = InterfaceMapping::from_links(&links);
    assert_eq!(mapping.len(), 2);
    assert_eq!(mapping.get("enp1s0").map(String::as_str), Some("eth0"));
    assert_eq!(mapping.get("eno1").map(String::as_str), Some("eth2"));
    assert_eq!(mapping.get("eth0"), None);
}
