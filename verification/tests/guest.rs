use proxmox_ve_config::guest::vm::{
    index_from_net_key, net_line, LxcIpv4Addr, LxcIpv6Addr, LxcNetworkDevice, NetLine,
    NetworkConfig, NetworkDevice, NetworkDeviceError, NetworkDeviceModel, QemuNetworkDevice,
};
use proxmox_ve_config::ip_address::cidr::{Ipv4Cidr, Ipv6Cidr};
use proxmox_ve_config::ip_address::{Ipv4Addr, Ipv6Addr};
use proxmox_ve_config::mac_address::MacAddress;

#[test]
fn test_parse_mac_address() {
    for input in [
        "aa:aa:aa:11:22:33",
        "AA:BB:FF:11:22:33",
        "bc:24:11:AA:bb:Ef",
    ] {
        let mac_address = MacAddress::parse_text(input).expect("valid mac address");

        assert_eq!(input.to_uppercase(), mac_address.to_text());
    }

    for input in [
        "aa:aa:aa:11:22:33:aa",
        "AA:BB:FF:11:22",
        "AA:BB:GG:11:22:33",
        "AABBGG112233",
        "",
    ] {
        assert!(MacAddress::parse_text(input).is_none(), "invalid mac address");
    }
}

#[test]
fn test_eui64_link_local_address() {
    let mac_address = MacAddress::parse_text("BC:24:11:49:8D:75").expect("valid MAC address");

    let link_local_address =
        Ipv6Addr::parse_text("fe80::be24:11ff:fe49:8d75").expect("valid IPv6 address");

    assert_eq!(link_local_address, mac_address.eui64_link_local_address());
}

#[test]
fn mac_address_octets() {
    assert_eq!(
        MacAddress::parse_text("0:1:a:B:fF:+7f"),
        Some(MacAddress::new([0, 1, 10, 11, 255, 127]))
    );
    assert_eq!(MacAddress::new([0, 1, 10, 11, 255, 127]).to_text(), "00:01:0A:0B:FF:7F");
    assert_eq!(MacAddress::new([1, 2, 3, 4, 5, 6]).octets(), [1, 2, 3, 4, 5, 6]);
    for bad in [
        "00:00:00:00:00:100",
        "00:00:00:00:00:",
        ":00:00:00:00:00",
        "00:00:00:00:00:+",
        "00:00:00:00:00:-1",
        "00:00:00:00:00:0 ",
        "00-00-00-00-00-00",
    ] {
        assert_eq!(MacAddress::parse_text(bad), None, "{bad}");
    }
    assert_eq!(
        MacAddress::new([0x02, 0, 0, 0, 0, 0]).eui64_link_local_address(),
        Ipv6Addr::from_segments([0xfe80, 0, 0, 0, 0x0000, 0x00ff, 0xfe00, 0x0000])
    );
}

#[test]
fn container_addresses() {
    assert_eq!(LxcIpv4Addr::parse_text("dhcp"), Some(LxcIpv4Addr::Dhcp));
    assert_eq!(LxcIpv4Addr::parse_text("manual"), Some(LxcIpv4Addr::Manual));
    let cidr = Ipv4Cidr::new(Ipv4Addr::new(123, 123, 123, 123), 24).unwrap();
    assert_eq!(LxcIpv4Addr::parse_text("123.123.123.123/24"), Some(LxcIpv4Addr::Ip(cidr)));
    assert_eq!(LxcIpv4Addr::parse_text("auto"), None);
    assert_eq!(LxcIpv4Addr::Ip(cidr).cidr(), Some(cidr));
    assert_eq!(LxcIpv4Addr::Dhcp.cidr(), None);

    assert_eq!(LxcIpv6Addr::parse_text("dhcp"), Some(LxcIpv6Addr::Dhcp));
    assert_eq!(LxcIpv6Addr::parse_text("manual"), Some(LxcIpv6Addr::Manual));
    assert_eq!(LxcIpv6Addr::parse_text("auto"), Some(LxcIpv6Addr::Auto));
    let cidr6 =
        Ipv6Cidr::new(Ipv6Addr::from_segments([0xfd80, 0, 0, 0, 0, 0, 0, 1]), 64).unwrap();
    assert_eq!(LxcIpv6Addr::parse_text("fd80::1/64"), Some(LxcIpv6Addr::Ip(cidr6)));
    assert_eq!(LxcIpv6Addr::parse_text("10.0.0.1/8"), None);
    assert_eq!(LxcIpv6Addr::Ip(cidr6).cidr(), Some(cidr6));
    assert_eq!(LxcIpv6Addr::Auto.cidr(), None);
}

#[test]
fn network_device_properties() {
    let mac = MacAddress::new([0xAA, 0xAA, 0xAA, 0x17, 0x19, 0x81]);
    let qemu = NetworkDevice::Qemu(QemuNetworkDevice {
        model: NetworkDeviceModel::VirtIO,
        mac_address: mac,
        firewall: None,
    });
    assert_eq!(qemu.model(), NetworkDeviceModel::VirtIO);
    assert_eq!(qemu.mac_address(), mac);
    assert!(!qemu.has_firewall());
    assert_eq!(qemu.ip(), None);
    assert_eq!(qemu.ip6(), None);

    let cidr = Ipv4Cidr::new(Ipv4Addr::new(10, 0, 0, 2), 24).unwrap();
    let lxc = NetworkDevice::Lxc(LxcNetworkDevice {
        ty: NetworkDeviceModel::Veth,
        mac_address: mac,
        firewall: Some(true),
        ip: Some(LxcIpv4Addr::Ip(cidr)),
        ip6: Some(LxcIpv6Addr::Auto),
    });
    assert_eq!(lxc.model(), NetworkDeviceModel::Veth);
    assert!(lxc.has_firewall());
    assert_eq!(lxc.ip(), Some(cidr));
    assert_eq!(lxc.ip6(), None);

    let off = NetworkDevice::Qemu(QemuNetworkDevice {
        model: NetworkDeviceModel::E1000,
        mac_address: mac,
        firewall: Some(false),
    });
    assert!(!off.has_firewall());
}

#[test]
fn network_device_models_and_keys() {
    assert_eq!(NetworkDeviceModel::parse_text("virtio"), Ok(NetworkDeviceModel::VirtIO));
    assert_eq!(NetworkDeviceModel::parse_text("e1000"), Ok(NetworkDeviceModel::E1000));
    assert_eq!(NetworkDeviceModel::parse_text("rtl8139"), Ok(NetworkDeviceModel::RTL8139));
    assert_eq!(NetworkDeviceModel::parse_text("vmxnet3"), Ok(NetworkDeviceModel::Vmxnet3));
    assert_eq!(NetworkDeviceModel::parse_text("veth"), Ok(NetworkDeviceModel::Veth));
    assert_eq!(NetworkDeviceModel::parse_text("Virtio"), Err(NetworkDeviceError::InvalidModel));

    assert_eq!(index_from_net_key("net0"), Ok(0));
    assert_eq!(index_from_net_key("net30"), Ok(30));
    assert_eq!(index_from_net_key("net007"), Ok(7));
    for bad in ["net31", "net", "net-1", "net1a", "nat1", "net 1", "", "net99999999999999999999"] {
        assert_eq!(index_from_net_key(bad), Err(NetworkDeviceError::InvalidNetKey), "{bad}");
    }
}

#[test]
fn lines_of_a_guest_configuration() {
    assert_eq!(net_line(""), NetLine::Skip);
    assert_eq!(net_line("   \t"), NetLine::Skip);
    assert_eq!(net_line("# net0: virtio=AA:BB:CC:F2:FE:75"), NetLine::Skip);
    assert_eq!(net_line("cores: 4"), NetLine::Skip);
    assert_eq!(net_line("name: net0"), NetLine::Skip);
    assert_eq!(net_line("[snapshot]"), NetLine::End);
    assert_eq!(net_line("  [snapshot]"), NetLine::End);
    assert_eq!(
        net_line("net0: virtio=AA:BB:CC:F2:FE:75,bridge=public"),
        NetLine::Device(0, "virtio=AA:BB:CC:F2:FE:75,bridge=public".to_string())
    );
    assert_eq!(
        net_line("net2:   name=eth0,bridge=data,type=veth  "),
        NetLine::Device(2, "name=eth0,bridge=data,type=veth".to_string())
    );
    assert_eq!(net_line(" net5 :x"), NetLine::Device(5, "x".to_string()));
    assert_eq!(net_line("net1: a:b"), NetLine::Device(1, "a:b".to_string()));
    assert_eq!(net_line("net0:"), NetLine::Skip);
    assert_eq!(net_line("net0"), NetLine::Skip);
    assert_eq!(net_line("net31: virtio=AA:BB:CC:F2:FE:75"), NetLine::InvalidKey);
    assert_eq!(net_line("network: on"), NetLine::InvalidKey);
    assert_eq!(net_line("netx: on"), NetLine::InvalidKey);
}

#[test]
fn network_config_by_index() {
    let device = |last: u8, firewall| {
        NetworkDevice::Qemu(QemuNetworkDevice {
            model: NetworkDeviceModel::VirtIO,
            mac_address: MacAddress::new([0xAA, 0xBB, 0xCC, 0xF2, 0xFE, last]),
            firewall,
        })
    };
    let mut config = NetworkConfig::new();
    assert_eq!(config.network_devices().len(), 0);
    assert_eq!(config.add_device(5, device(5, None)), Ok(()));
    assert_eq!(config.add_device(0, device(0, Some(true))), Ok(()));
    assert_eq!(config.add_device(2, device(2, None)), Ok(()));
    assert_eq!(config.add_device(2, device(9, None)), Err(NetworkDeviceError::DuplicateKey));
    let devices = config.network_devices();
    assert_eq!(devices.len(), 3);
    assert_eq!((*devices.key_at(0), *devices.key_at(1), *devices.key_at(2)), (0, 2, 5));
    assert_eq!(devices.value_at(1), &device(2, None));
    assert_eq!(config.get(0), Some(&device(0, Some(true))));
    assert_eq!(config.get(2), Some(&device(2, None)));
    assert_eq!(config.get(1), None);
}

fn parse_config(text: &str) -> Result<NetworkConfig, NetworkDeviceError> {
    let lines: Vec<String> = text.lines().map(String::from).collect();
    NetworkConfig::parse_lines(&lines)
}

fn device_at(config: &NetworkConfig, index: i64) -> NetworkDevice {
    *config.get(index).expect("device")
}

#[test]
fn test_parse_network_device() {
    let mut network_device: NetworkDevice =
        NetworkDevice::parse_text("virtio=AA:AA:AA:17:19:81,bridge=public,firewall=1,queues=4")
            .expect("valid network configuration");

    assert_eq!(
        network_device,
        NetworkDevice::Qemu(QemuNetworkDevice {
            model: NetworkDeviceModel::VirtIO,
            mac_address: MacAddress::new([0xAA, 0xAA, 0xAA, 0x17, 0x19, 0x81]),
            firewall: Some(true),
        })
    );

    network_device =
        NetworkDevice::parse_text("model=virtio,macaddr=AA:AA:AA:17:19:81,bridge=public")
            .expect("valid network configuration");

    assert_eq!(
        network_device,
        NetworkDevice::Qemu(QemuNetworkDevice {
            model: NetworkDeviceModel::VirtIO,
            mac_address: MacAddress::new([0xAA, 0xAA, 0xAA, 0x17, 0x19, 0x81]),
            firewall: None,
        })
    );

    assert!(!network_device.has_firewall());

    network_device = NetworkDevice::parse_text(
        "model=virtio,macaddr=AA:AA:AA:17:19:81,bridge=public,firewall=1,queues=4",
    )
    .expect("valid network configuration");

    assert_eq!(
        network_device,
        NetworkDevice::Qemu(QemuNetworkDevice {
            model: NetworkDeviceModel::VirtIO,
            mac_address: MacAddress::new([0xAA, 0xAA, 0xAA, 0x17, 0x19, 0x81]),
            firewall: Some(true),
        })
    );

    assert!(network_device.has_firewall());

    network_device = NetworkDevice::parse_text(
        "name=eth0,bridge=public,firewall=0,hwaddr=AA:AA:AA:E2:3E:24,ip=dhcp,type=veth",
    )
    .expect("valid network configuration");

    assert_eq!(
        network_device,
        NetworkDevice::Lxc(LxcNetworkDevice {
            ty: NetworkDeviceModel::Veth,
            mac_address: MacAddress::new([0xAA, 0xAA, 0xAA, 0xE2, 0x3E, 0x24]),
            firewall: Some(false),
            ip: Some(LxcIpv4Addr::Dhcp),
            ip6: None,
        })
    );

    NetworkDevice::parse_text("model=virtio").expect_err("invalid network configuration");

    NetworkDevice::parse_text("bridge=public,firewall=0")
        .expect_err("invalid network configuration");

    NetworkDevice::parse_text("").expect_err("invalid network configuration");

    NetworkDevice::parse_text(
        "name=eth0,bridge=public,firewall=0,hwaddr=AA:AA:AG:E2:3E:24,ip=dhcp,type=veth",
    )
    .expect_err("invalid network configuration");
}

#[test]
fn test_parse_network_config() {
    let mut guest_config = "\
boot: order=scsi0;net0
cores: 4
cpu: host
memory: 8192
meta: creation-qemu=8.0.2,ctime=1700141675
name: hoan-sdn
net0: virtio=AA:BB:CC:F2:FE:75,bridge=public
numa: 0
ostype: l26
parent: uwu
scsi0: local-lvm:vm-999-disk-0,discard=on,iothread=1,size=32G
scsihw: virtio-scsi-single
smbios1: uuid=addb0cc6-0393-4269-a504-1eb46604cb8a
sockets: 1
vmgenid: 13bcbb05-3608-4d74-bf4f-d5d20c3538e8

[snapshot]
boot: order=scsi0;ide2;net0
cores: 4
cpu: x86-64-v2-AES
ide2: NFS-iso:iso/proxmox-ve_8.0-2.iso,media=cdrom,size=1166488K
memory: 8192
meta: creation-qemu=8.0.2,ctime=1700141675
name: test
net2: virtio=AA:AA:AA:F2:FE:75,bridge=public,firewall=1
numa: 0
ostype: l26
parent: pre-SDN
scsi0: local-lvm:vm-999-disk-0,discard=on,iothread=1,size=32G
scsihw: virtio-scsi-single
smbios1: uuid=addb0cc6-0393-4269-a504-1eb46604cb8a
snaptime: 1700143513
sockets: 1
vmgenid: 706fbe99-d28b-4047-a9cd-3677c859ca8a

[snapshott]
boot: order=scsi0;ide2;net0
cores: 4
cpu: host
ide2: NFS-iso:iso/proxmox-ve_8.0-2.iso,media=cdrom,size=1166488K
memory: 8192
meta: creation-qemu=8.0.2,ctime=1700141675
name: hoan-sdn
net0: virtio=AA:AA:FF:F2:FE:75,bridge=public,firewall=0
numa: 0
ostype: l26
parent: SDN
scsi0: local-lvm:vm-999-disk-0,discard=on,iothread=1,size=32G
scsihw: virtio-scsi-single
smbios1: uuid=addb0cc6-0393-4269-a504-1eb46604cb8a
snaptime: 1700158473
sockets: 1
vmgenid: 706fbe99-d28b-4047-a9cd-3677c859ca8a";

    let mut network_config: NetworkConfig =
        parse_config(guest_config).expect("valid network configuration");

    assert_eq!(network_config.network_devices().len(), 1);

    assert_eq!(
        device_at(&network_config, 0),
        NetworkDevice::Qemu(QemuNetworkDevice {
            model: NetworkDeviceModel::VirtIO,
            mac_address: MacAddress::new([0xAA, 0xBB, 0xCC, 0xF2, 0xFE, 0x75]),
            firewall: None,
        })
    );

    guest_config = "\
arch: amd64
cores: 1
features: nesting=1
hostname: dnsct
memory: 512
net0: name=eth0,bridge=data,firewall=1,hwaddr=BC:24:11:47:83:11,ip=dhcp,ip6=auto,type=veth
net2:   name=eth0,bridge=data,firewall=0,hwaddr=BC:24:11:47:83:12,ip=123.123.123.123/24,type=veth  
net5: name=eth0,bridge=data,firewall=1,hwaddr=BC:24:11:47:83:13,ip6=fd80::1/64,type=veth
ostype: alpine
rootfs: local-lvm:vm-10001-disk-0,size=1G
swap: 512
unprivileged: 1";

    network_config = parse_config(guest_config).expect("valid network configuration");

    assert_eq!(network_config.network_devices().len(), 3);

    assert_eq!(
        device_at(&network_config, 0),
        NetworkDevice::Lxc(LxcNetworkDevice {
            ty: NetworkDeviceModel::Veth,
            mac_address: MacAddress::new([0xBC, 0x24, 0x11, 0x47, 0x83, 0x11]),
            firewall: Some(true),
            ip: Some(LxcIpv4Addr::Dhcp),
            ip6: Some(LxcIpv6Addr::Auto),
        })
    );

    assert_eq!(
        device_at(&network_config, 2),
        NetworkDevice::Lxc(LxcNetworkDevice {
            ty: NetworkDeviceModel::Veth,
            mac_address: MacAddress::new([0xBC, 0x24, 0x11, 0x47, 0x83, 0x12]),
            firewall: Some(false),
            ip: Some(LxcIpv4Addr::Ip(
                Ipv4Cidr::parse_text("123.123.123.123/24").expect("valid ipv4")
            )),
            ip6: None,
        })
    );

    assert_eq!(
        device_at(&network_config, 5),
        NetworkDevice::Lxc(LxcNetworkDevice {
            ty: NetworkDeviceModel::Veth,
            mac_address: MacAddress::new([0xBC, 0x24, 0x11, 0x47, 0x83, 0x13]),
            firewall: Some(true),
            ip: None,
            ip6: Some(LxcIpv6Addr::Ip(
                Ipv6Cidr::parse_text("fd80::1/64").expect("valid ipv6")
            )),
        })
    );

    parse_config(
        "netqwe: name=eth0,bridge=data,firewall=1,hwaddr=BC:24:11:47:83:11,ip=dhcp,type=veth",
    )
    .expect_err("invalid net key");

    parse_config(
        "net0 name=eth0,bridge=data,firewall=1,hwaddr=BC:24:11:47:83:11,ip=dhcp,type=veth",
    )
    .expect_err("invalid net key");

    parse_config(
        "net33: name=eth0,bridge=data,firewall=1,hwaddr=BC:24:11:47:83:11,ip=dhcp,type=veth",
    )
    .expect_err("invalid net key");
}

#[test]
fn device_settings_in_detail() {
    let mac = MacAddress::new([0xAA, 0xAA, 0xAA, 0x17, 0x19, 0x81]);
    let qemu = |model, firewall| {
        Ok(NetworkDevice::Qemu(QemuNetworkDevice { model, mac_address: mac, firewall }))
    };
    let bad = Err(NetworkDeviceError::InvalidDevice);
    let virtio = NetworkDeviceModel::VirtIO;
    let cases = [
        ("e1000=AA:AA:AA:17:19:81", qemu(NetworkDeviceModel::E1000, None)),
        ("macaddr=AA:AA:AA:17:19:81,model=rtl8139", qemu(NetworkDeviceModel::RTL8139, None)),
        ("virtio=AA:AA:AA:17:19:81,", qemu(virtio, None)),
        ("virtio=AA:AA:AA:17:19:81,firewall=YES", qemu(virtio, Some(true))),
        ("virtio=AA:AA:AA:17:19:81,firewall=off", qemu(virtio, Some(false))),
        ("virtio=\"AA:AA:AA:17:19:81\",tag=\"a,b=c\\\"d\"", qemu(virtio, None)),
        ("virtio=AA:AA:AA:17:19:81,firewall=2", bad),
        ("virtio=AA:AA:AA:17:19:81,firewall=1,firewall=1", bad),
        ("virtio=AA:AA:AA:17:19:81,model=virtio", bad),
        ("virtio=AA:AA:AA:17:19:81,macaddr=AA:AA:AA:17:19:81", bad),
        ("virtio=AA:AA:AA:17:19:81,,bridge=x", bad),
        ("virtio=AA:AA:AA:17:19:81,bridge", bad),
        ("virtio=AA:AA:AA:17:19:81,tag=\"open", bad),
        ("virtio=AA:AA:AA:17:19:81,tag=\"a\"b", bad),
        ("virtio=AA:AA:AA:17:19:81,tag=\"a\\x\"", bad),
        ("model=nothing,macaddr=AA:AA:AA:17:19:81", bad),
        ("type=veth,hwaddr=AA:AA:AA:17:19:81,ip=10.0.0.1/33", bad),
        ("type=veth,hwaddr=AA:AA:AA:17:19:81,ip=dhcp,ip=dhcp", bad),
    ];
    for (text, expected) in cases {
        assert_eq!(NetworkDevice::parse_text(text), expected, "{text}");
    }
    assert_eq!(
        NetworkDevice::parse_text("type=veth,hwaddr=AA:AA:AA:17:19:81,ip=manual,ip6=dhcp,virtio=x"),
        Ok(NetworkDevice::Lxc(LxcNetworkDevice {
            ty: NetworkDeviceModel::Veth,
            mac_address: mac,
            firewall: None,
            ip: Some(LxcIpv4Addr::Manual),
            ip6: Some(LxcIpv6Addr::Dhcp),
        }))
    );
}

#[test]
fn lines_with_wrong_or_repeated_devices() {
    assert_eq!(
        parse_config("net0: virtio=AA:BB:CC:F2:FE:75\nnet0: virtio=AA:BB:CC:F2:FE:76").err(),
        Some(NetworkDeviceError::DuplicateKey)
    );
    assert_eq!(
        parse_config("net0: virtio=AA:BB:CC:F2:FE\nnet0: x").err(),
        Some(NetworkDeviceError::InvalidDevice)
    );
    assert_eq!(parse_config("net31: x").err(), Some(NetworkDeviceError::InvalidNetKey));
    assert_eq!(parse_config("# net31: x\n\n[a]\nnet31: x").unwrap().network_devices().len(), 0);
    assert_eq!(parse_config("").unwrap(), NetworkConfig::new());
}
