use proxmox_ve_config::ip_address::cidr::{Cidr, CidrError, Ipv4Cidr, Ipv6Cidr};
use proxmox_ve_config::ip_address::range::{AddressRange, IpRangeError};
use proxmox_ve_config::ip_address::{Family, IpAddr, Ipv4Addr, Ipv6Addr};

fn v4(a: u8, b: u8, c: u8, d: u8) -> IpAddr {
    IpAddr::V4(Ipv4Addr::new(a, b, c, d))
}

fn texts(range: &AddressRange) -> Vec<String> {
    range.to_cidrs().iter().map(|c| c.to_text()).collect()
}

#[test]
fn address_from_octets() {
    assert_eq!(Ipv4Addr::new(10, 0, 0, 1).to_bits(), 0x0a00_0001);
    assert_eq!(Ipv4Addr::from_bits(0xc0a8_0164).octets(), [192, 168, 1, 100]);
    let a = Ipv6Addr::from_segments([0xfd80, 0, 0, 0, 0, 0, 0, 1]);
    assert_eq!(a.to_bits(), 0xfd80_0000_0000_0000_0000_0000_0000_0001);
    assert_eq!(a.segments(), [0xfd80, 0, 0, 0, 0, 0, 0, 1]);
}

#[test]
fn cidr_rejects_long_prefix() {
    assert_eq!(Cidr::new_v4([10, 0, 0, 0], 33), Err(CidrError::InvalidNetmask));
    assert_eq!(Cidr::new_v6([0; 8], 129), Err(CidrError::InvalidNetmask));
    assert!(Cidr::new_v4([10, 0, 0, 0], 32).is_ok());
    assert!(Cidr::new_v6([0; 8], 128).is_ok());
}

#[test]
fn cidr_contains_own_address() {
    for bits in [0u32, 1, 0x0a00_0001, 0x7fff_ffff, 0x8000_0000, u32::MAX] {
        let addr = Ipv4Addr::from_bits(bits);
        let cidr = Ipv4Cidr::new(addr, 32).unwrap();
        assert!(cidr.contains_address(&addr));
        assert!(!cidr.contains_address(&Ipv4Addr::from_bits(bits ^ 1)));
    }
}

#[test]
fn cidr_zero_prefix_contains_all() {
    let cidr = Ipv4Cidr::new(Ipv4Addr::new(10, 0, 0, 0), 0).unwrap();
    for bits in [0u32, 1, 0x0a00_0001, 0x8000_0000, u32::MAX] {
        assert!(cidr.contains_address(&Ipv4Addr::from_bits(bits)));
    }
    let cidr6 = Ipv6Cidr::new(Ipv6Addr::from_bits(1), 0).unwrap();
    for bits in [0u128, 1, 1 << 127, u128::MAX] {
        assert!(cidr6.contains_address(&Ipv6Addr::from_bits(bits)));
    }
}

#[test]
fn cidr_contains_by_prefix() {
    let cidr = Cidr::new_v4([10, 0, 0, 0], 24).unwrap();
    assert!(cidr.contains_address(&v4(10, 0, 0, 0)));
    assert!(cidr.contains_address(&v4(10, 0, 0, 255)));
    assert!(!cidr.contains_address(&v4(10, 0, 1, 0)));
    assert!(!cidr.contains_address(&v4(9, 255, 255, 255)));
    assert!(!cidr.contains_address(&IpAddr::V6(Ipv6Addr::from_bits(0x0a00_0000))));
    let cidr6 = Cidr::new_v6([0xfd00, 0, 0, 0, 0, 0, 0, 0], 64).unwrap();
    assert!(cidr6.contains_address(&IpAddr::V6(Ipv6Addr::from_segments([
        0xfd00, 0, 0, 0, 0xffff, 0xffff, 0xffff, 0xffff
    ]))));
    assert!(!cidr6.contains_address(&IpAddr::V6(Ipv6Addr::from_segments([
        0xfd00, 0, 0, 1, 0, 0, 0, 0
    ]))));
}

#[test]
fn cidr_overlap_is_symmetric() {
    let a = Cidr::new_v4([10, 0, 0, 0], 16).unwrap();
    let b = Cidr::new_v4([10, 0, 5, 0], 24).unwrap();
    let c = Cidr::new_v4([10, 1, 0, 0], 16).unwrap();
    let d = Cidr::new_v6([0xfd00, 0, 0, 0, 0, 0, 0, 0], 64).unwrap();
    for x in [a, b, c, d] {
        assert!(x.overlaps(&x));
        for y in [a, b, c, d] {
            assert_eq!(x.overlaps(&y), y.overlaps(&x));
        }
    }
    assert!(a.overlaps(&b));
    assert!(!a.overlaps(&c));
    assert!(!b.overlaps(&c));
    assert!(!a.overlaps(&d));
}

#[test]
fn cidr_canonical() {
    let c = Ipv4Cidr::new(Ipv4Addr::new(10, 0, 5, 77), 24).unwrap();
    assert_eq!(c.canonical().to_text(), "10.0.5.0/24");
    let z = Ipv4Cidr::new(Ipv4Addr::new(10, 0, 5, 77), 0).unwrap();
    assert_eq!(z.canonical().to_text(), "0.0.0.0/0");
    let f = Ipv4Cidr::new(Ipv4Addr::new(10, 0, 5, 77), 32).unwrap();
    assert_eq!(f.canonical().to_text(), "10.0.5.77/32");
    let s = Ipv6Cidr::new(Ipv6Addr::from_segments([0xfd00, 0, 0, 0, 1, 2, 3, 4]), 64).unwrap();
    assert_eq!(s.canonical().to_text(), "fd00::/64");
}

#[test]
fn range_rejects_bad_ends() {
    assert_eq!(
        AddressRange::new_v4([10, 0, 0, 2], [10, 0, 0, 1]),
        Err(IpRangeError::StartGreaterThanLast)
    );
    assert_eq!(
        AddressRange::new(v4(10, 0, 0, 1), IpAddr::V6(Ipv6Addr::from_bits(1))),
        Err(IpRangeError::MismatchedFamilies)
    );
    let r = AddressRange::new_v4([10, 0, 0, 1], [10, 0, 0, 1]).unwrap();
    assert_eq!(r.family(), Family::V4);
    assert_eq!(r.start(), v4(10, 0, 0, 1));
    assert_eq!(r.last(), v4(10, 0, 0, 1));
}

#[test]
fn range_single_address() {
    let r = AddressRange::new_v4([192, 168, 0, 1], [192, 168, 0, 1]).unwrap();
    assert_eq!(texts(&r), ["192.168.0.1/32"]);
    let r6 = AddressRange::new_v6([0xfd80, 0, 0, 0, 0, 0, 0, 1], [0xfd80, 0, 0, 0, 0, 0, 0, 1])
        .unwrap();
    assert_eq!(texts(&r6), ["fd80::1/128"]);
}

#[test]
fn range_whole_address_space() {
    let r = AddressRange::new_v4([0, 0, 0, 0], [255, 255, 255, 255]).unwrap();
    assert_eq!(texts(&r), ["0.0.0.0/0"]);
    let r6 = AddressRange::new_v6([0; 8], [0xffff; 8]).unwrap();
    assert_eq!(texts(&r6), ["::/0"]);
}

#[test]
fn range_ends_at_largest_address() {
    let r = AddressRange::new_v4([255, 255, 255, 254], [255, 255, 255, 255]).unwrap();
    assert_eq!(texts(&r), ["255.255.255.254/31"]);
    let r = AddressRange::new_v4([255, 255, 255, 253], [255, 255, 255, 255]).unwrap();
    assert_eq!(texts(&r), ["255.255.255.253/32", "255.255.255.254/31"]);
    let r6 = AddressRange::new_v6(
        [0xffff, 0xffff, 0xffff, 0xffff, 0xffff, 0xffff, 0xffff, 0xfffe],
        [0xffff; 8],
    )
    .unwrap();
    assert_eq!(texts(&r6), ["ffff:ffff:ffff:ffff:ffff:ffff:ffff:fffe/127"]);
}

#[test]
fn range_to_cidrs_exact() {
    let r = AddressRange::new_v4([192, 168, 0, 1], [192, 168, 0, 8]).unwrap();
    assert_eq!(
        texts(&r),
        ["192.168.0.1/32", "192.168.0.2/31", "192.168.0.4/30", "192.168.0.8/32"]
    );
    let r = AddressRange::new_v4([10, 0, 0, 0], [10, 0, 1, 255]).unwrap();
    assert_eq!(texts(&r), ["10.0.0.0/23"]);
    let r = AddressRange::new_v4([0, 0, 0, 1], [255, 255, 255, 255]).unwrap();
    assert_eq!(r.to_cidrs().len(), 32);
}

#[test]
fn range_round_trip() {
    let cases: [(u32, u32); 6] = [
        (0x0a00_0001, 0x0a00_0108),
        (0, 0),
        (0, u32::MAX),
        (1, u32::MAX - 1),
        (0xc0a8_6364, 0xc0a8_63c8),
        (u32::MAX, u32::MAX),
    ];
    for (start, last) in cases {
        let range = AddressRange::new(
            IpAddr::V4(Ipv4Addr::from_bits(start)),
            IpAddr::V4(Ipv4Addr::from_bits(last)),
        )
        .unwrap();
        let cidrs = range.to_cidrs();
        let mut next = start as u64;
        for cidr in &cidrs {
            assert_eq!(Cidr::parse_text(&cidr.to_text()), Some(*cidr));
            let Cidr::Ipv4(c) = cidr else { panic!("family changed") };
            let size = 1u64 << (32 - c.mask());
            assert_eq!(c.address().to_bits() as u64, next);
            assert_eq!(next % size, 0);
            next += size;
        }
        assert_eq!(next, last as u64 + 1);
        for probe in [start, last, start + (last - start) / 2] {
            let addr = IpAddr::V4(Ipv4Addr::from_bits(probe));
            assert_eq!(cidrs.iter().filter(|c| c.contains_address(&addr)).count(), 1);
        }
        if start > 0 {
            let addr = IpAddr::V4(Ipv4Addr::from_bits(start - 1));
            assert!(!cidrs.iter().any(|c| c.contains_address(&addr)));
        }
        if last < u32::MAX {
            let addr = IpAddr::V4(Ipv4Addr::from_bits(last + 1));
            assert!(!cidrs.iter().any(|c| c.contains_address(&addr)));
        }
    }
}

#[test]
fn address_text() {
    assert_eq!(Ipv4Addr::new(0, 0, 0, 0).to_text(), "0.0.0.0");
    assert_eq!(Ipv4Addr::new(192, 168, 1, 100).to_text(), "192.168.1.100");
    assert_eq!(Ipv4Addr::new(255, 255, 255, 255).to_text(), "255.255.255.255");
    let cases: [([u16; 8], &str); 9] = [
        ([0; 8], "::"),
        ([0, 0, 0, 0, 0, 0, 0, 1], "::1"),
        ([0xfd00, 0, 0, 0, 0, 0, 0, 1], "fd00::1"),
        ([0x2001, 0xdb8, 0, 0, 1, 0, 0, 1], "2001:db8::1:0:0:1"),
        ([0x2001, 0xdb8, 0, 1, 0, 0, 0, 1], "2001:db8:0:1::1"),
        ([1, 0, 2, 3, 4, 5, 6, 7], "1:0:2:3:4:5:6:7"),
        ([0, 0, 0, 0, 0, 0xffff, 0xc0a8, 0x0101], "::ffff:192.168.1.1"),
        ([0xfe80, 0, 0, 0, 0x1234, 0x5678, 0xabcd, 0], "fe80::1234:5678:abcd:0"),
        ([1, 2, 3, 4, 5, 6, 0, 0], "1:2:3:4:5:6::"),
    ];
    for (segments, text) in cases {
        let addr = Ipv6Addr::from_segments(segments);
        assert_eq!(addr.to_text(), text);
    }
}

#[test]
fn range_to_cidrs_is_shortest() {
    let r = AddressRange::new_v4([10, 0, 0, 1], [10, 0, 0, 6]).unwrap();
    assert_eq!(texts(&r), ["10.0.0.1/32", "10.0.0.2/31", "10.0.0.4/31", "10.0.0.6/32"]);
    let r = AddressRange::new_v4([10, 0, 0, 0], [10, 0, 0, 255]).unwrap();
    assert_eq!(texts(&r), ["10.0.0.0/24"]);
    let r = AddressRange::new_v6(
        [0xfd80, 0, 0, 0, 0, 0, 0, 0],
        [0xfd80, 0, 0, 0, 0xffff, 0xffff, 0xffff, 0xffff],
    )
    .unwrap();
    assert_eq!(texts(&r), ["fd80::/64"]);
    let r = AddressRange::new_v6([0; 8], [0xffff; 8]).unwrap();
    assert_eq!(texts(&r), ["::/0"]);
    let r = AddressRange::new_v6([0, 0, 0, 0, 0, 0, 0, 1], [0xffff; 8]).unwrap();
    assert_eq!(r.to_cidrs().len(), 128);
}

#[test]
fn range_of_version_6_is_read_again() {
    let ranges = [
        ([0xfd80, 0, 0, 0, 0, 0, 0, 1], [0xfd80, 0, 0, 0, 0, 0, 0, 0xffff]),
        ([0, 0, 0, 0, 0, 0xfffe, 0xffff, 0xfff0], [0, 0, 0, 0, 0, 0xffff, 0, 0x00ff]),
        ([0x2001, 0xdb8, 0, 0, 1, 0, 0, 1], [0x2001, 0xdb8, 0, 1, 0, 0, 0, 0]),
        ([0; 8], [0xffff; 8]),
    ];
    for (start, last) in ranges {
        let range = AddressRange::new_v6(start, last).unwrap();
        let cidrs = range.to_cidrs();
        let mut next = Ipv6Addr::from_segments(start).to_bits();
        for (i, cidr) in cidrs.iter().enumerate() {
            assert_eq!(Cidr::parse_text(&cidr.to_text()), Some(*cidr), "{}", cidr.to_text());
            let Cidr::Ipv6(c) = cidr else { panic!("family changed") };
            assert_eq!(c.address().to_bits(), next);
            if c.mask() == 0 {
                assert_eq!(cidrs.len(), 1);
            } else {
                let size = 1u128 << (128 - c.mask());
                assert_eq!(next % size, 0);
                let end = next + (size - 1);
                if i + 1 == cidrs.len() {
                    assert_eq!(end, Ipv6Addr::from_segments(last).to_bits());
                } else {
                    next = end + 1;
                }
            }
        }
    }
}
