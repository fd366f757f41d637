use proxmox_ve_config::ip_address::{IpAddr, Ipv4Addr, Ipv6Addr};
use proxmox_ve_config::sdn_types::area::{Area, AreaError};
use proxmox_ve_config::sdn_types::net::{
    Net, NetAFI, NetArea, NetError, NetSelector, NetSystemId,
};
use proxmox_ve_config::sdn_types::openfabric::{CsnpInterval, HelloInterval, HelloMultiplier};

#[test]
fn test_net_from_str() {
    let input = "49.0001.1921.6800.1002.00";
    let net = Net::parse_text(input).expect("this net should parse");
    assert_eq!(net.afi(), &NetAFI::from_string("49".to_owned()).unwrap());
    assert_eq!(net.area(), &NetArea::from_string("0001".to_owned()).unwrap());
    assert_eq!(
        net.system(),
        &NetSystemId::from_string("1921.6800.1002".to_owned()).unwrap()
    );
    assert_eq!(net.selector(), &NetSelector::from_string("00".to_owned()).unwrap());

    let input = "45.0200.0100.1001.ba1f.01";
    let net = Net::parse_text(input).expect("this net should parse");
    assert_eq!(net.afi(), &NetAFI::from_string("45".to_owned()).unwrap());
    assert_eq!(net.area(), &NetArea::from_string("0200".to_owned()).unwrap());
    assert_eq!(
        net.system(),
        &NetSystemId::from_string("0100.1001.ba1f".to_owned()).unwrap()
    );
    assert_eq!(net.selector(), &NetSelector::from_string("01".to_owned()).unwrap());
}

#[test]
fn test_net_from_str_failed() {
    let input = "49.0001.1921.6800.1002.000";
    Net::parse_text(input).expect_err("invalid NET selector");

    let input = "49.0001.1921.6800.1002.00.00";
    Net::parse_text(input).expect_err("invalid amount of elements");

    let input = "49.0001.1921.6800.10002.00";
    Net::parse_text(input).expect_err("invalid system id");

    let input = "49.0001.1921.6800.1z02.00";
    Net::parse_text(input).expect_err("invalid system id");

    let input = "409.0001.1921.6800.1002.00";
    Net::parse_text(input).expect_err("invalid AFI");

    let input = "49.00001.1921.6800.1002.00";
    Net::parse_text(input).expect_err("invalid area");
}

#[test]
fn test_net_display() {
    let net = Net::new(
        NetAFI::from_string("49".to_owned()).unwrap(),
        NetArea::from_string("0001".to_owned()).unwrap(),
        NetSystemId::from_string("1921.6800.1002".to_owned()).unwrap(),
        NetSelector::from_string("00".to_owned()).unwrap(),
    );
    assert_eq!(format!("{}", net.to_text()), "49.0001.1921.6800.1002.00");
}

#[test]
fn test_net_from_ipv4() {
    let ip = Ipv4Addr::parse_text("192.168.1.100").unwrap();
    let net = Net::from_ipv4(ip);
    assert_eq!(net.to_text(), "49.0001.1921.6800.1100.00");

    let ip1 = Ipv4Addr::parse_text("10.10.2.245").unwrap();
    let net1 = Net::from_ipv4(ip1);
    assert_eq!(net1.to_text(), "49.0001.0100.1000.2245.00");

    let ip2 = Ipv4Addr::parse_text("1.1.1.1").unwrap();
    let net2 = Net::from_ip(IpAddr::V4(ip2));
    assert_eq!(net2.to_text(), "49.0001.0010.0100.1001.00");
}

#[test]
fn test_net_from_ipv6() {
    let ip = Ipv6Addr::from_segments([0x2001, 0x0db8, 0, 0, 0, 0, 0, 1]);
    let net = Net::from_ipv6(ip);
    assert_eq!(net.to_text(), "49.0001.0000.0000.0001.00");

    let ip1 = Ipv6Addr::from_segments([0xfe80, 0, 0, 0, 0, 0x1234, 0x5678, 0xabcd]);
    let net1 = Net::from_ipv6(ip1);
    assert_eq!(net1.to_text(), "49.0001.1234.5678.abcd.00");

    let ip2 = Ipv6Addr::from_segments([0x2001, 0x0db8, 0x85a3, 0, 0, 0x8a2e, 0x0370, 0x7334]);
    let net2 = Net::from_ipv6(ip2);
    assert_eq!(net2.to_text(), "49.0001.8a2e.0370.7334.00");

    let ip3 = Ipv6Addr::from_segments([0, 0, 0, 0, 0, 0, 0, 1]);
    let net3 = Net::from_ip(IpAddr::V6(ip3));
    assert_eq!(net3.to_text(), "49.0001.0000.0000.0001.00");

    let ip4 = Ipv6Addr::from_segments([0xa, 0xb, 0, 0, 0, 0, 0, 0]);
    let net4 = Net::from_ipv6(ip4);
    assert_eq!(net4.to_text(), "49.0001.0000.0000.0000.00");
}

#[test]
fn net_errors_name_the_part() {
    assert_eq!(Net::parse_text("49.0001.1921.6800.1002").unwrap_err(), NetError::InvalidFormat);
    assert_eq!(Net::parse_text("").unwrap_err(), NetError::InvalidFormat);
    assert_eq!(
        Net::parse_text("49.0001.1921.6800.1002.00.00").unwrap_err(),
        NetError::InvalidFormat
    );
    assert_eq!(Net::parse_text("4g.0001.1921.6800.1002.00").unwrap_err(), NetError::InvalidAfi);
    assert_eq!(Net::parse_text("49.001.1921.6800.1002.00").unwrap_err(), NetError::InvalidArea);
    assert_eq!(
        Net::parse_text("49.0001.1921.6800.102.00").unwrap_err(),
        NetError::InvalidSystemId
    );
    assert_eq!(
        Net::parse_text("49.0001.1921.6800.1002.0").unwrap_err(),
        NetError::InvalidSelector
    );
    assert_eq!(
        Net::parse_text("zz.zzzz.1921.6800.1002.zz").unwrap_err(),
        NetError::InvalidAfi
    );
}

#[test]
fn net_round_trip() {
    for text in ["49.0001.1921.6800.1002.00", "45.0200.0100.1001.BA1F.01"] {
        assert_eq!(Net::parse_text(text).unwrap().to_text(), text);
    }
}

#[test]
fn area_from_text() {
    assert_eq!(Area::from_text("0"), Ok(Area::Number(0)));
    assert_eq!(Area::from_text("4294967295"), Ok(Area::Number(u32::MAX)));
    assert_eq!(Area::from_text("4294967296"), Err(AreaError));
    assert_eq!(Area::from_text("+7"), Ok(Area::Number(7)));
    assert_eq!(Area::from_text("007"), Ok(Area::Number(7)));
    assert_eq!(Area::from_text("0.0.0.5"), Ok(Area::IpAddress(Ipv4Addr::new(0, 0, 0, 5))));
    assert_eq!(Area::from_text("0.0.0.05"), Err(AreaError));
    assert_eq!(Area::from_text("0.0.0.256"), Err(AreaError));
    assert_eq!(Area::from_text("0.0.5"), Err(AreaError));
    assert_eq!(Area::from_text("1.2.3.4.5"), Err(AreaError));
    assert_eq!(Area::from_text(""), Err(AreaError));
    assert_eq!(Area::from_text("+"), Err(AreaError));
    assert_eq!(Area::from_text("area"), Err(AreaError));
}

#[test]
fn area_representation() {
    assert_eq!(Area::Number(5).get_ipv4_representation(), Ipv4Addr::new(0, 0, 0, 5));
    assert_eq!(
        Area::Number(0x0102_0304).get_ipv4_representation(),
        Ipv4Addr::new(1, 2, 3, 4)
    );
    assert_eq!(
        Area::IpAddress(Ipv4Addr::new(9, 8, 7, 6)).get_ipv4_representation(),
        Ipv4Addr::new(9, 8, 7, 6)
    );
    assert_eq!(Area::Number(5).to_text(), "5");
    assert_eq!(Area::IpAddress(Ipv4Addr::new(0, 0, 0, 5)).to_text(), "0.0.0.5");
}

#[test]
fn address_parse_text() {
    assert_eq!(Ipv4Addr::parse_text("0.0.0.0"), Some(Ipv4Addr::new(0, 0, 0, 0)));
    assert_eq!(Ipv4Addr::parse_text("255.255.255.255"), Some(Ipv4Addr::from_bits(u32::MAX)));
    assert_eq!(Ipv4Addr::parse_text("10.0.0.1"), Some(Ipv4Addr::new(10, 0, 0, 1)));
    for bad in ["", "1", "1.2.3", "1.2.3.4.5", "1.2.3.", ".1.2.3", "1..2.3", "01.2.3.4",
        "1.2.3.256", "1.2.3.4 ", "a.b.c.d", "1.2.3.-4", "1.2.3.0004"] {
        assert_eq!(Ipv4Addr::parse_text(bad), None, "{bad}");
    }
    for bits in [0u32, 1, 0x0a00_0001, 0xc0a8_0164, u32::MAX] {
        let addr = Ipv4Addr::from_bits(bits);
        assert_eq!(Ipv4Addr::parse_text(&addr.to_text()), Some(addr));
    }
}

#[test]
fn interval_bounds() {
    assert!(HelloInterval::new(0).is_err());
    assert_eq!(HelloInterval::new(1).unwrap().value(), 1);
    assert_eq!(HelloInterval::new(600).unwrap().value(), 600);
    assert!(HelloInterval::new(601).is_err());
    assert!(CsnpInterval::new(0).is_err());
    assert_eq!(CsnpInterval::new(600).unwrap().to_text(), "600");
    assert!(CsnpInterval::new(601).is_err());
    assert!(HelloMultiplier::new(1).is_err());
    assert_eq!(HelloMultiplier::new(2).unwrap().value(), 2);
    assert_eq!(HelloMultiplier::new(100).unwrap().to_text(), "100");
    assert!(HelloMultiplier::new(101).is_err());
}
