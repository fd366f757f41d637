//! The network devices of a guest.

use vstd::prelude::*;
use crate::ip_address::cidr::{Ipv4Cidr, Ipv6Cidr};
use crate::ip_address::parse::{parse_ipv4_cidr_spec, parse_ipv6_cidr_spec};
use crate::guest::property::parse_device_spec;
use crate::mac_address::MacAddress;
use crate::ordered::{has_key, lookup, put, OrderedMap};
use crate::text::{
    all_digits, chars_of, dec_value, digits_only, find_from, index_of, is_digit,
    lemma_dec_value_monotonic, skip_space, skip_space_from, string_of, text_same, trim_end,
    trim_end_to, value_of_digit,
};
use crate::views::views;

verus! {

/// A text does not name what it should.
#[derive(Clone, Copy, Debug, PartialEq, Eq, Structural)]
pub enum NetworkDeviceError {
    /// The text names no model of a network device.
    InvalidModel,
    /// The text is no key of a network device: `net` and a number below 31.
    InvalidNetKey,
    /// The configuration holds a device under the key already.
    DuplicateKey,
    /// The text is no setting of a network device.
    InvalidDevice,
}

/// The models of network devices, of virtual machines and of containers.
#[derive(Debug, Clone, Copy, PartialEq, Eq, Structural)]
pub enum NetworkDeviceModel {
    VirtIO,
    Veth,
    E1000,
    Vmxnet3,
    RTL8139,
}

/// What a text means as a model.
pub open spec fn parse_model(s: Seq<char>) -> Option<NetworkDeviceModel> {
    if s == "virtio"@ {
        Some(NetworkDeviceModel::VirtIO)
    } else if s == "e1000"@ {
        Some(NetworkDeviceModel::E1000)
    } else if s == "rtl8139"@ {
        Some(NetworkDeviceModel::RTL8139)
    } else if s == "vmxnet3"@ {
        Some(NetworkDeviceModel::Vmxnet3)
    } else if s == "veth"@ {
        Some(NetworkDeviceModel::Veth)
    } else {
        None
    }
}

impl NetworkDeviceModel {
    /// Reads a model from its text.
    pub fn parse_text(s: &str) -> (r: Result<NetworkDeviceModel, NetworkDeviceError>)
        ensures
            match parse_model(s@) {
                Some(m) => r == Ok::<NetworkDeviceModel, NetworkDeviceError>(m),
                None => r == Err::<NetworkDeviceModel, NetworkDeviceError>(
                    NetworkDeviceError::InvalidModel,
                ),
            },
    {
        if text_same(s, "virtio") {
            Ok(NetworkDeviceModel::VirtIO)
        } else if text_same(s, "e1000") {
            Ok(NetworkDeviceModel::E1000)
        } else if text_same(s, "rtl8139") {
            Ok(NetworkDeviceModel::RTL8139)
        } else if text_same(s, "vmxnet3") {
            Ok(NetworkDeviceModel::Vmxnet3)
        } else if text_same(s, "veth") {
            Ok(NetworkDeviceModel::Veth)
        } else {
            Err(NetworkDeviceError::InvalidModel)
        }
    }
}

/// What a text means as the key of a network device: `net`, then a number
/// of at least one digit that is below 31.
pub open spec fn net_key_index(s: Seq<char>) -> Option<i64> {
    if s.len() > 3 && s.subrange(0, 3) == "net"@ && all_digits(s.subrange(3, s.len() as int))
        && dec_value(s.subrange(3, s.len() as int)) < 31 {
        Some(dec_value(s.subrange(3, s.len() as int)) as i64)
    } else {
        None
    }
}

/// The index in the key of a network device.
pub fn index_from_net_key(key: &str) -> (r: Result<i64, NetworkDeviceError>)
    ensures
        match net_key_index(key@) {
            Some(i) => r == Ok::<i64, NetworkDeviceError>(i),
            None => r == Err::<i64, NetworkDeviceError>(NetworkDeviceError::InvalidNetKey),
        },
{
    let v = chars_of(key);
    let n: usize = v.len();
    if n <= 3 {
        return Err(NetworkDeviceError::InvalidNetKey);
    }
    proof {
        reveal_strlit("net");
    }
    if !(v[0] == 'n' && v[1] == 'e' && v[2] == 't') {
        assert(key@.subrange(0, 3) != "net"@) by {
            if key@.subrange(0, 3) == "net"@ {
                assert(key@.subrange(0, 3)[0] == 'n');
                assert(key@.subrange(0, 3)[1] == 'e');
                assert(key@.subrange(0, 3)[2] == 't');
            }
        }
        return Err(NetworkDeviceError::InvalidNetKey);
    }
    assert(key@.subrange(0, 3) =~= "net"@);
    if !digits_only(&v, 3, n) {
        return Err(NetworkDeviceError::InvalidNetKey);
    }
    let ghost digits = key@.subrange(3, n as int);
    let mut acc: u32 = 0;
    let mut i: usize = 3;
    assert(digits.subrange(0, 0) =~= Seq::<char>::empty());
    while i < n
        invariant
            3 <= i <= n,
            n == v.len(),
            v@ == key@,
            digits == key@.subrange(3, n as int),
            all_digits(digits),
            acc == dec_value(digits.subrange(0, i - 3)),
            acc < 31,
        decreases n - i,
    {
        let c: char = v[i];
        proof {
            let prefix = digits.subrange(0, i - 3 + 1);
            assert(prefix.drop_last() =~= digits.subrange(0, i - 3));
            assert(prefix.last() == c);
            assert(is_digit(digits[i - 3]));
        }
        acc = acc * 10 + value_of_digit(c) as u32;
        if acc >= 31 {
            proof {
                lemma_dec_value_monotonic(digits, i - 3 + 1);
            }
            return Err(NetworkDeviceError::InvalidNetKey);
        }
        i = i + 1;
    }
    assert(digits.subrange(0, i - 3) =~= digits);
    Ok(acc as i64)
}

/// What the network device of a container says of its address of
/// version 4.
#[derive(Debug, Copy, Clone, PartialEq, Eq)]
pub enum LxcIpv4Addr {
    Ip(Ipv4Cidr),
    Dhcp,
    Manual,
}

/// What a text means as the setting of an address of version 4.
pub open spec fn parse_lxc_ipv4(s: Seq<char>) -> Option<LxcIpv4Addr> {
    if s == "dhcp"@ {
        Some(LxcIpv4Addr::Dhcp)
    } else if s == "manual"@ {
        Some(LxcIpv4Addr::Manual)
    } else {
        match parse_ipv4_cidr_spec(s) {
            Some(c) => Some(LxcIpv4Addr::Ip(c)),
            None => None,
        }
    }
}

impl LxcIpv4Addr {
    /// The address with its prefix length, where one is set.
    pub fn cidr(&self) -> (r: Option<Ipv4Cidr>)
        ensures
            r == match *self {
                LxcIpv4Addr::Ip(c) => Some(c),
                _ => None,
            },
    {
        match self {
            LxcIpv4Addr::Ip(c) => Some(*c),
            _ => None,
        }
    }

    /// Reads the setting from its text.
    pub fn parse_text(s: &str) -> (r: Option<LxcIpv4Addr>)
        ensures
            r == parse_lxc_ipv4(s@),
    {
        if text_same(s, "dhcp") {
            Some(LxcIpv4Addr::Dhcp)
        } else if text_same(s, "manual") {
            Some(LxcIpv4Addr::Manual)
        } else {
            match Ipv4Cidr::parse_text(s) {
                Some(c) => Some(LxcIpv4Addr::Ip(c)),
                None => None,
            }
        }
    }
}

/// What the network device of a container says of its address of
/// version 6.
#[derive(Debug, Copy, Clone, PartialEq, Eq)]
pub enum LxcIpv6Addr {
    Ip(Ipv6Cidr),
    Dhcp,
    Auto,
    Manual,
}

/// What a text means as the setting of an address of version 6.
pub open spec fn parse_lxc_ipv6(s: Seq<char>) -> Option<LxcIpv6Addr> {
    if s == "dhcp"@ {
        Some(LxcIpv6Addr::Dhcp)
    } else if s == "manual"@ {
        Some(LxcIpv6Addr::Manual)
    } else if s == "auto"@ {
        Some(LxcIpv6Addr::Auto)
    } else {
        match parse_ipv6_cidr_spec(s) {
            Some(c) => Some(LxcIpv6Addr::Ip(c)),
            None => None,
        }
    }
}

impl LxcIpv6Addr {
    /// The address with its prefix length, where one is set.
    pub fn cidr(&self) -> (r: Option<Ipv6Cidr>)
        ensures
            r == match *self {
                LxcIpv6Addr::Ip(c) => Some(c),
                _ => None,
            },
    {
        match self {
            LxcIpv6Addr::Ip(c) => Some(*c),
            _ => None,
        }
    }

    /// Reads the setting from its text.
    pub fn parse_text(s: &str) -> (r: Option<LxcIpv6Addr>)
        ensures
            r == parse_lxc_ipv6(s@),
    {
        if text_same(s, "dhcp") {
            Some(LxcIpv6Addr::Dhcp)
        } else if text_same(s, "manual") {
            Some(LxcIpv6Addr::Manual)
        } else if text_same(s, "auto") {
            Some(LxcIpv6Addr::Auto)
        } else {
            match Ipv6Cidr::parse_text(s) {
                Some(c) => Some(LxcIpv6Addr::Ip(c)),
                None => None,
            }
        }
    }
}

/// The network device of a virtual machine, as far as the firewall needs
/// it.
#[derive(Debug, Copy, Clone, PartialEq, Eq)]
pub struct QemuNetworkDevice {
    pub model: NetworkDeviceModel,
    pub mac_address: MacAddress,
    pub firewall: Option<bool>,
}

/// The network device of a container, as far as the firewall needs it.
#[derive(Debug, Copy, Clone, PartialEq, Eq)]
pub struct LxcNetworkDevice {
    pub ty: NetworkDeviceModel,
    pub mac_address: MacAddress,
    pub firewall: Option<bool>,
    pub ip: Option<LxcIpv4Addr>,
    pub ip6: Option<LxcIpv6Addr>,
}

/// The network device of a virtual machine or of a container.
#[derive(Debug, Copy, Clone, PartialEq, Eq)]
pub enum NetworkDevice {
    Qemu(QemuNetworkDevice),
    Lxc(LxcNetworkDevice),
}

/// The view of the device of a virtual machine.
pub struct QemuNetworkDeviceView {
    pub model: NetworkDeviceModel,
    pub mac: Seq<u8>,
    pub firewall: Option<bool>,
}

/// The view of the device of a container.
pub struct LxcNetworkDeviceView {
    pub ty: NetworkDeviceModel,
    pub mac: Seq<u8>,
    pub firewall: Option<bool>,
    pub ip: Option<LxcIpv4Addr>,
    pub ip6: Option<LxcIpv6Addr>,
}

/// The view of a device: the hardware address as its six octets.
pub enum NetworkDeviceView {
    Qemu(QemuNetworkDeviceView),
    Lxc(LxcNetworkDeviceView),
}

impl View for NetworkDevice {
    type V = NetworkDeviceView;

    open spec fn view(&self) -> NetworkDeviceView {
        match *self {
            NetworkDevice::Qemu(d) => NetworkDeviceView::Qemu(
                QemuNetworkDeviceView {
                    model: d.model,
                    mac: d.mac_address.0@,
                    firewall: d.firewall,
                },
            ),
            NetworkDevice::Lxc(d) => NetworkDeviceView::Lxc(
                LxcNetworkDeviceView {
                    ty: d.ty,
                    mac: d.mac_address.0@,
                    firewall: d.firewall,
                    ip: d.ip,
                    ip6: d.ip6,
                },
            ),
        }
    }
}

/// Whether the firewall is on for a device that does not say.
pub const NETWORK_DEVICE_FIREWALL_DEFAULT: bool = false;

impl NetworkDevice {
    /// The model of the device.
    pub fn model(&self) -> (r: NetworkDeviceModel)
        ensures
            r == match *self {
                NetworkDevice::Qemu(d) => d.model,
                NetworkDevice::Lxc(d) => d.ty,
            },
    {
        match self {
            NetworkDevice::Qemu(d) => d.model,
            NetworkDevice::Lxc(d) => d.ty,
        }
    }

    /// The hardware address of the device.
    pub fn mac_address(&self) -> (r: MacAddress)
        ensures
            r == match *self {
                NetworkDevice::Qemu(d) => d.mac_address,
                NetworkDevice::Lxc(d) => d.mac_address,
            },
    {
        match self {
            NetworkDevice::Qemu(d) => d.mac_address,
            NetworkDevice::Lxc(d) => d.mac_address,
        }
    }

    /// The address of version 4 that the device is set to; only a
    /// container has one.
    pub fn ip(&self) -> (r: Option<Ipv4Cidr>)
        ensures
            r == match *self {
                NetworkDevice::Lxc(d) => match d.ip {
                    Some(LxcIpv4Addr::Ip(c)) => Some(c),
                    _ => None,
                },
                NetworkDevice::Qemu(_) => None,
            },
    {
        match self {
            NetworkDevice::Lxc(d) => match d.ip {
                Some(ip) => ip.cidr(),
                None => None,
            },
            NetworkDevice::Qemu(_) => None,
        }
    }

    /// The address of version 6 that the device is set to; only a
    /// container has one.
    pub fn ip6(&self) -> (r: Option<Ipv6Cidr>)
        ensures
            r == match *self {
                NetworkDevice::Lxc(d) => match d.ip6 {
                    Some(LxcIpv6Addr::Ip(c)) => Some(c),
                    _ => None,
                },
                NetworkDevice::Qemu(_) => None,
            },
    {
        match self {
            NetworkDevice::Lxc(d) => match d.ip6 {
                Some(ip) => ip.cidr(),
                None => None,
            },
            NetworkDevice::Qemu(_) => None,
        }
    }

    /// Whether the firewall is on for the device; it is off where the
    /// device does not say.
    pub fn has_firewall(&self) -> (r: bool)
        ensures
            r == match *self {
                NetworkDevice::Qemu(d) => d.firewall == Some(true),
                NetworkDevice::Lxc(d) => d.firewall == Some(true),
            },
    {
        let firewall = match self {
            NetworkDevice::Qemu(d) => d.firewall,
            NetworkDevice::Lxc(d) => d.firewall,
        };
        match firewall {
            Some(on) => on,
            None => NETWORK_DEVICE_FIREWALL_DEFAULT,
        }
    }
}

/// What a line of the configuration of a guest means for its network
/// devices.
#[derive(Debug, Clone, PartialEq, Eq)]
pub enum NetLine {
    /// The line says nothing of a network device.
    Skip,
    /// The line starts a section: nothing behind it counts.
    End,
    /// The line gives the device under the index its settings.
    Device(i64, String),
    /// The line looks like one of a network device, but its key is none.
    InvalidKey,
}

/// The view of what a line means.
pub enum NetLineView {
    Skip,
    End,
    Device(i64, Seq<char>),
    InvalidKey,
}

impl View for NetLine {
    type V = NetLineView;

    open spec fn view(&self) -> NetLineView {
        match self {
            NetLine::Skip => NetLineView::Skip,
            NetLine::End => NetLineView::End,
            NetLine::Device(i, s) => NetLineView::Device(*i, s@),
            NetLine::InvalidKey => NetLineView::InvalidKey,
        }
    }
}

/// A line without the white space at its two ends.
pub open spec fn trimmed(line: Seq<char>) -> Seq<char> {
    line.subrange(
        skip_space(line, 0),
        trim_end(line, skip_space(line, 0), line.len() as int),
    )
}

/// What a line means. White space at its ends does not count. An empty
/// line and one that starts with `#` say nothing, and one that starts with
/// `[` starts a section. A line that starts with `net` and holds a colon
/// with something behind it gives a device: before the colon stands the
/// key, behind it the settings, both without white space at their ends.
/// Every other line says nothing.
pub open spec fn net_line_spec(line: Seq<char>) -> NetLineView {
    let t = trimmed(line);
    if t.len() == 0 || t[0] == '#' {
        NetLineView::Skip
    } else if t[0] == '[' {
        NetLineView::End
    } else if !(t.len() >= 3 && t.subrange(0, 3) == "net"@) {
        NetLineView::Skip
    } else {
        let colon = index_of(t, ':');
        if colon + 1 >= t.len() {
            NetLineView::Skip
        } else {
            let from = skip_space(t, colon + 1);
            match net_key_index(t.subrange(0, trim_end(t, 0, colon))) {
                Some(i) => NetLineView::Device(
                    i,
                    t.subrange(from, trim_end(t, from, t.len() as int)),
                ),
                None => NetLineView::InvalidKey,
            }
        }
    }
}

/// Reads what a line of the configuration of a guest means for its network
/// devices.
pub fn net_line(line: &str) -> (r: NetLine)
    ensures
        r@ == net_line_spec(line@),
{
    let whole = chars_of(line);
    let start = skip_space_from(&whole, 0);
    let stop = trim_end_to(&whole, start, whole.len());
    let text = string_of(&whole, start, stop);
    let t = chars_of(text.as_str());
    assert(t@ == trimmed(line@));
    let n: usize = t.len();
    if n == 0 || t[0] == '#' {
        return NetLine::Skip;
    }
    if t[0] == '[' {
        return NetLine::End;
    }
    proof {
        reveal_strlit("net");
    }
    if !(n >= 3 && t[0] == 'n' && t[1] == 'e' && t[2] == 't') {
        assert(!(t@.len() >= 3 && t@.subrange(0, 3) == "net"@)) by {
            if t@.len() >= 3 && t@.subrange(0, 3) == "net"@ {
                assert(t@.subrange(0, 3)[0] == 'n');
                assert(t@.subrange(0, 3)[1] == 'e');
                assert(t@.subrange(0, 3)[2] == 't');
            }
        }
        return NetLine::Skip;
    }
    assert(t@.subrange(0, 3) =~= "net"@);
    let colon = find_from(&t, ':', 0);
    if colon >= n || n - colon <= 1 {
        return NetLine::Skip;
    }
    let key_end = trim_end_to(&t, 0, colon);
    let from = skip_space_from(&t, colon + 1);
    let to = trim_end_to(&t, from, n);
    let key = string_of(&t, 0, key_end);
    match index_from_net_key(key.as_str()) {
        Ok(i) => NetLine::Device(i, string_of(&t, from, to)),
        Err(_) => NetLine::InvalidKey,
    }
}

/// The network devices of a guest, each under its index, in ascending
/// order of the indices.
#[derive(Debug, PartialEq, Eq)]
pub struct NetworkConfig {
    network_devices: OrderedMap<i64, NetworkDevice>,
}

impl View for NetworkConfig {
    type V = Seq<(i64, NetworkDeviceView)>;

    closed spec fn view(&self) -> Seq<(i64, NetworkDeviceView)> {
        self.network_devices@
    }
}

/// The devices that the lines from place `k` on give, on top of those that
/// have been read, or why the lines give none. The lines are taken one
/// after the other up to the first that starts a section. The settings of
/// a device have to be those of a device, and no index may stand twice.
pub open spec fn devices_from(
    lines: Seq<Seq<char>>,
    k: int,
    read: Seq<(i64, NetworkDeviceView)>,
) -> Result<Seq<(i64, NetworkDeviceView)>, NetworkDeviceError>
    decreases lines.len() - k,
{
    if k < 0 || k >= lines.len() {
        Ok(read)
    } else {
        match net_line_spec(lines[k]) {
            NetLineView::Skip => devices_from(lines, k + 1, read),
            NetLineView::End => Ok(read),
            NetLineView::InvalidKey => Err(NetworkDeviceError::InvalidNetKey),
            NetLineView::Device(index, settings) => match parse_device_spec(settings) {
                None => Err(NetworkDeviceError::InvalidDevice),
                Some(device) => if has_key(read, index) {
                    Err(NetworkDeviceError::DuplicateKey)
                } else {
                    devices_from(lines, k + 1, put::<i64, NetworkDeviceView>(read, index, device))
                },
            },
        }
    }
}

impl NetworkConfig {
    /// The configuration without devices.
    pub fn new() -> (r: NetworkConfig)
        ensures
            r@ == Seq::<(i64, NetworkDeviceView)>::empty(),
    {
        NetworkConfig { network_devices: OrderedMap::new() }
    }

    /// The devices by index.
    pub fn network_devices(&self) -> (r: &OrderedMap<i64, NetworkDevice>)
        ensures
            r@ == self@,
    {
        &self.network_devices
    }

    /// The device under the index, if there is one.
    pub fn get(&self, index: i64) -> (r: Option<&NetworkDevice>)
        ensures
            match r {
                Some(d) => lookup(self@, index) == Some(d@),
                None => lookup(self@, index) is None,
            },
    {
        self.network_devices.get(&index)
    }

    /// Puts a device under an index that holds none yet.
    pub fn add_device(&mut self, index: i64, device: NetworkDevice) -> (r: Result<
        (),
        NetworkDeviceError,
    >)
        ensures
            if has_key(old(self)@, index) {
                final(self)@ == old(self)@ && r == Err::<(), NetworkDeviceError>(
                    NetworkDeviceError::DuplicateKey,
                )
            } else {
                r is Ok && final(self)@ == put::<i64, NetworkDeviceView>(
                    old(self)@,
                    index,
                    device@,
                )
            },
    {
        if self.network_devices.find(&index).is_some() {
            return Err(NetworkDeviceError::DuplicateKey);
        }
        self.network_devices.insert(index, device);
        Ok(())
    }

    /// Reads the network devices from the lines of the configuration of a
    /// guest.
    pub fn parse_lines(lines: &Vec<String>) -> (r: Result<NetworkConfig, NetworkDeviceError>)
        ensures
            match devices_from(views(lines@), 0, Seq::empty()) {
                Ok(devices) => r is Ok && r->Ok_0@ == devices,
                Err(e) => r == Err::<NetworkConfig, NetworkDeviceError>(e),
            },
    {
        let mut config = NetworkConfig::new();
        let mut k: usize = 0;
        while k < lines.len()
            invariant
                k <= lines.len(),
                devices_from(views(lines@), k as int, config@) == devices_from(
                    views(lines@),
                    0,
                    Seq::empty(),
                ),
            decreases lines.len() - k,
        {
            assert(views(lines@)[k as int] == lines@[k as int]@);
            match net_line(lines[k].as_str()) {
                NetLine::Skip => {},
                NetLine::End => {
                    return Ok(config);
                },
                NetLine::InvalidKey => {
                    return Err(NetworkDeviceError::InvalidNetKey);
                },
                NetLine::Device(index, settings) => {
                    let device = match NetworkDevice::parse_text(settings.as_str()) {
                        Ok(device) => device,
                        Err(e) => {
                            return Err(e);
                        },
                    };
                    match config.add_device(index, device) {
                        Ok(()) => {},
                        Err(e) => {
                            return Err(e);
                        },
                    }
                },
            }
            k = k + 1;
        }
        Ok(config)
    }
}

} // verus!
