//! The settings of a network device, read from their text.
//!
//! The settings are properties with commas between them. A property is a
//! key, an equals sign and a value; the value runs up to the next comma, or,
//! where it starts with a double quote, up to the closing double quote, with
//! `\"`, `\\` and `\n` standing for a double quote, a backslash and a line
//! feed. A value without a key belongs to no setting, and so the text is no
//! device.
//!
//! The device of a virtual machine needs `model` and `macaddr`, and
//! may say `firewall`; a key that is one of the models `e1000`, `rtl8139`,
//! `virtio` and `vmxnet3` gives the model, and its value the hardware
//! address. The device of a container needs `type` and `hwaddr`, and may
//! say `firewall`, `ip` and `ip6`. No setting may stand twice; other keys
//! are passed over. A text is read as the device of a virtual machine
//! first, and as that of a container where it is none.

use vstd::prelude::*;
use crate::firewall::types::alias::{lowered, to_lower};
use crate::guest::vm::{
    parse_lxc_ipv4, parse_lxc_ipv6, parse_model, LxcIpv4Addr, LxcIpv6Addr, LxcNetworkDevice,
    LxcNetworkDeviceView, NetworkDevice, NetworkDeviceError, NetworkDeviceModel,
    NetworkDeviceView, QemuNetworkDevice, QemuNetworkDeviceView,
};
use crate::mac_address::{parse_mac_spec, MacAddress};
use crate::text::{chars_of, find_from, index_from, string_of, text_same};

verus! {

/// The first place at or behind `i` that holds a comma or an equals sign.
pub open spec fn separator_from(s: Seq<char>, i: int) -> int
    decreases s.len() - i,
{
    if 0 <= i < s.len() && s[i] != ',' && s[i] != '=' {
        separator_from(s, i + 1)
    } else {
        i
    }
}

/// What follows a backslash stands for.
pub open spec fn escaped(c: char) -> Option<char> {
    if c == '"' {
        Some('"')
    } else if c == '\\' {
        Some('\\')
    } else if c == 'n' {
        Some('\n')
    } else {
        None
    }
}

/// The rest of a quoted value from place `i` on, behind what has been read
/// of it, and the place behind its closing double quote; `after_backslash`
/// says that the character before was a backslash. None where the text
/// ends before the value does, or a backslash stands before a character
/// that it cannot stand before.
pub open spec fn unquote(s: Seq<char>, i: int, after_backslash: bool, read: Seq<char>) -> Option<
    (Seq<char>, int),
>
    decreases s.len() - i,
{
    if i < 0 || i >= s.len() {
        None
    } else if after_backslash {
        match escaped(s[i]) {
            Some(c) => unquote(s, i + 1, false, read.push(c)),
            None => None,
        }
    } else if s[i] == '"' {
        Some((read, i + 1))
    } else if s[i] == '\\' {
        unquote(s, i + 1, true, read)
    } else {
        unquote(s, i + 1, false, read.push(s[i]))
    }
}

/// A property: its key, if it has one, its value, and the place where the
/// next property starts.
pub struct Property {
    pub key: Option<Seq<char>>,
    pub value: Seq<char>,
    pub next: int,
}

/// The property with a quoted value that starts at place `at`: behind the
/// value the text ends or a comma stands.
pub open spec fn quoted_property(s: Seq<char>, key: Option<Seq<char>>, at: int) -> Option<Property> {
    match unquote(s, at + 1, false, Seq::empty()) {
        None => None,
        Some((value, end)) => if end >= s.len() {
            Some(Property { key, value, next: end })
        } else if s[end] == ',' {
            Some(Property { key, value, next: end + 1 })
        } else {
            None
        },
    }
}

/// The property that starts at place `i`, for `i` within the text.
pub open spec fn read_property(s: Seq<char>, i: int) -> Option<Property> {
    if s[i] == '"' {
        quoted_property(s, None, i)
    } else {
        let p = separator_from(s, i);
        let key = if p < s.len() && s[p] == '=' {
            Some(s.subrange(i, p))
        } else {
            None
        };
        let at = if key is Some {
            p + 1
        } else {
            i
        };
        if at < s.len() && s[at] == '"' {
            quoted_property(s, key, at)
        } else {
            let end = index_from(s, ',', at);
            let next = if end < s.len() {
                end + 1
            } else {
                end
            };
            Some(Property { key, value: s.subrange(at, end), next })
        }
    }
}

/// The settings that have been read, each as its text.
pub struct DeviceFields {
    pub model: Option<Seq<char>>,
    pub mac: Option<Seq<char>>,
    pub firewall: Option<Seq<char>>,
    pub ip: Option<Seq<char>>,
    pub ip6: Option<Seq<char>>,
}

/// No setting has been read.
pub open spec fn no_fields() -> DeviceFields {
    DeviceFields { model: None, mac: None, firewall: None, ip: None, ip6: None }
}

/// The key is one of the models that a virtual machine may name in place
/// of `model`.
pub open spec fn is_model_key(key: Seq<char>) -> bool {
    key == "e1000"@ || key == "rtl8139"@ || key == "virtio"@ || key == "vmxnet3"@
}

/// The key of the model: `type` for a container, `model` for a virtual
/// machine.
pub open spec fn model_key(lxc: bool) -> Seq<char> {
    if lxc {
        "type"@
    } else {
        "model"@
    }
}

/// The key of the hardware address: `hwaddr` for a container, `macaddr`
/// for a virtual machine.
pub open spec fn mac_key(lxc: bool) -> Seq<char> {
    if lxc {
        "hwaddr"@
    } else {
        "macaddr"@
    }
}

/// The settings with one more property taken in, or none where the
/// property has no key or gives a setting for the second time.
pub open spec fn with_property(
    f: DeviceFields,
    key: Option<Seq<char>>,
    value: Seq<char>,
    lxc: bool,
) -> Option<DeviceFields> {
    match key {
        None => None,
        Some(k) => if !lxc && is_model_key(k) {
            if f.model is Some || f.mac is Some {
                None
            } else {
                Some(DeviceFields { model: Some(k), mac: Some(value), ..f })
            }
        } else if k == model_key(lxc) {
            if f.model is Some {
                None
            } else {
                Some(DeviceFields { model: Some(value), ..f })
            }
        } else if k == mac_key(lxc) {
            if f.mac is Some {
                None
            } else {
                Some(DeviceFields { mac: Some(value), ..f })
            }
        } else if k == "firewall"@ {
            if f.firewall is Some {
                None
            } else {
                Some(DeviceFields { firewall: Some(value), ..f })
            }
        } else if lxc && k == "ip"@ {
            if f.ip is Some {
                None
            } else {
                Some(DeviceFields { ip: Some(value), ..f })
            }
        } else if lxc && k == "ip6"@ {
            if f.ip6 is Some {
                None
            } else {
                Some(DeviceFields { ip6: Some(value), ..f })
            }
        } else {
            Some(f)
        },
    }
}

/// The settings that the properties from place `i` on give, on top of
/// those that have been read.
pub open spec fn fields_from(s: Seq<char>, i: int, f: DeviceFields, lxc: bool) -> Option<
    DeviceFields,
>
    decreases s.len() - i,
{
    if i < 0 || i >= s.len() {
        Some(f)
    } else {
        match read_property(s, i) {
            None => None,
            Some(p) => if i < p.next <= s.len() {
                match with_property(f, p.key, p.value, lxc) {
                    None => None,
                    Some(g) => fields_from(s, p.next, g, lxc),
                }
            } else {
                None
            },
        }
    }
}

/// What a text means as a yes or a no: `1`, `on`, `yes` and `true`, or `0`,
/// `off`, `no` and `false`, in either case of the letters.
pub open spec fn parse_flag(s: Seq<char>) -> Option<bool> {
    let t = lowered(s);
    if t == "1"@ || t == "on"@ || t == "yes"@ || t == "true"@ {
        Some(true)
    } else if t == "0"@ || t == "off"@ || t == "no"@ || t == "false"@ {
        Some(false)
    } else {
        None
    }
}

/// What an optional text means, read by `read`: nothing where there is no
/// text, and no meaning at all where the text has none.
pub open spec fn optional<T>(text: Option<Seq<char>>, read: spec_fn(Seq<char>) -> Option<T>) -> Option<
    Option<T>,
> {
    match text {
        None => Some(None),
        Some(t) => match read(t) {
            Some(x) => Some(Some(x)),
            None => None,
        },
    }
}

/// The device that the settings make: the model and the hardware address
/// have to be there, and every setting has to mean something.
pub open spec fn device_of(f: DeviceFields, lxc: bool) -> Option<NetworkDeviceView> {
    match (f.model, f.mac) {
        (Some(model), Some(mac)) => match (
            parse_model(model),
            parse_mac_spec(mac),
            optional(f.firewall, |t: Seq<char>| parse_flag(t)),
            optional(f.ip, |t: Seq<char>| parse_lxc_ipv4(t)),
            optional(f.ip6, |t: Seq<char>| parse_lxc_ipv6(t)),
        ) {
            (Some(model), Some(mac), Some(firewall), Some(ip), Some(ip6)) => if lxc {
                Some(
                    NetworkDeviceView::Lxc(
                        LxcNetworkDeviceView { ty: model, mac, firewall, ip, ip6 },
                    ),
                )
            } else {
                Some(NetworkDeviceView::Qemu(QemuNetworkDeviceView { model, mac, firewall }))
            },
            _ => None,
        },
        _ => None,
    }
}

/// The device of one kind that a text means.
pub open spec fn device_of_kind(s: Seq<char>, lxc: bool) -> Option<NetworkDeviceView> {
    match fields_from(s, 0, no_fields(), lxc) {
        Some(f) => device_of(f, lxc),
        None => None,
    }
}

/// The device that a text means: that of a virtual machine, else that of a
/// container.
pub open spec fn parse_device_spec(s: Seq<char>) -> Option<NetworkDeviceView> {
    match device_of_kind(s, false) {
        Some(d) => Some(d),
        None => device_of_kind(s, true),
    }
}

/// The first place at or behind `i` that holds a comma or an equals sign.
fn separator_at(v: &Vec<char>, i: usize) -> (r: usize)
    requires
        i <= v.len(),
    ensures
        r == separator_from(v@, i as int),
        i <= r <= v.len(),
{
    let mut k: usize = i;
    while k < v.len() && v[k] != ',' && v[k] != '='
        invariant
            i <= k <= v.len(),
            separator_from(v@, k as int) == separator_from(v@, i as int),
        decreases v.len() - k,
    {
        k = k + 1;
    }
    k
}

/// Reads a quoted value from behind its opening double quote.
fn unquote_at(v: &Vec<char>, from: usize) -> (r: Option<(String, usize)>)
    requires
        from <= v.len(),
    ensures
        match unquote(v@, from as int, false, Seq::empty()) {
            Some((value, end)) => r is Some && r->Some_0.0@ == value && r->Some_0.1 == end && from
                < end <= v.len(),
            None => r is None,
        },
{
    let mut out = String::new();
    let mut after_backslash = false;
    let mut i: usize = from;
    while i < v.len()
        invariant
            from <= i <= v.len(),
            unquote(v@, i as int, after_backslash, out@) == unquote(
                v@,
                from as int,
                false,
                Seq::empty(),
            ),
        decreases v.len() - i,
    {
        let c: char = v[i];
        if after_backslash {
            if c == '"' {
                out.push('"');
            } else if c == '\\' {
                out.push('\\');
            } else if c == 'n' {
                out.push('\n');
            } else {
                return None;
            }
            after_backslash = false;
        } else if c == '"' {
            return Some((out, i + 1));
        } else if c == '\\' {
            after_backslash = true;
        } else {
            out.push(c);
        }
        i = i + 1;
    }
    None
}

/// A property that has been read.
struct ReadProperty {
    key: Option<String>,
    value: String,
    next: usize,
}

/// The property that a property that has been read stands for.
spec fn property_of(p: ReadProperty) -> Property {
    Property { key: text_of(p.key), value: p.value@, next: p.next as int }
}

/// Reads the quoted value that starts at place `at`.
fn quoted_at(v: &Vec<char>, key: Option<String>, at: usize) -> (r: Option<ReadProperty>)
    requires
        at < v.len(),
    ensures
        match quoted_property(v@, text_of(key), at as int) {
            Some(p) => r is Some && property_of(r->Some_0) == p && at < p.next <= v.len(),
            None => r is None,
        },
{
    match unquote_at(v, at + 1) {
        None => None,
        Some((value, end)) => {
            if end >= v.len() {
                Some(ReadProperty { key, value, next: end })
            } else if v[end] == ',' {
                Some(ReadProperty { key, value, next: end + 1 })
            } else {
                None
            }
        },
    }
}

/// Reads the property that starts at place `i`.
fn property_at(v: &Vec<char>, i: usize) -> (r: Option<ReadProperty>)
    requires
        i < v.len(),
    ensures
        match read_property(v@, i as int) {
            Some(p) => r is Some && property_of(r->Some_0) == p && i < p.next <= v.len(),
            None => r is None,
        },
{
    if v[i] == '"' {
        return quoted_at(v, None, i);
    }
    let p = separator_at(v, i);
    let has_key: bool = p < v.len() && v[p] == '=';
    let at: usize = if has_key {
        p + 1
    } else {
        i
    };
    let key: Option<String> = if has_key {
        Some(string_of(v, i, p))
    } else {
        None
    };
    if at < v.len() && v[at] == '"' {
        return quoted_at(v, key, at);
    }
    let end = find_from(v, ',', at);
    let value = string_of(v, at, end);
    let next: usize = if end < v.len() {
        end + 1
    } else {
        end
    };
    Some(ReadProperty { key, value, next })
}

/// The settings that have been read, each as its text.
struct Fields {
    model: Option<String>,
    mac: Option<String>,
    firewall: Option<String>,
    ip: Option<String>,
    ip6: Option<String>,
}

/// The text of a setting, where it has been read.
spec fn text_of(t: Option<String>) -> Option<Seq<char>> {
    match t {
        Some(s) => Some(s@),
        None => None,
    }
}

/// The settings that the texts stand for.
spec fn fields_of(f: Fields) -> DeviceFields {
    DeviceFields {
        model: text_of(f.model),
        mac: text_of(f.mac),
        firewall: text_of(f.firewall),
        ip: text_of(f.ip),
        ip6: text_of(f.ip6),
    }
}

/// Whether the key is one of the models that a virtual machine may name in
/// place of `model`.
fn model_key_named(key: &str) -> (r: bool)
    ensures
        r == is_model_key(key@),
{
    text_same(key, "e1000") || text_same(key, "rtl8139") || text_same(key, "virtio") || text_same(
        key,
        "vmxnet3",
    )
}

/// Whether the key is that of the model.
fn is_model_key_of(key: &str, lxc: bool) -> (r: bool)
    ensures
        r == (key@ == model_key(lxc)),
{
    if lxc {
        text_same(key, "type")
    } else {
        text_same(key, "model")
    }
}

/// Whether the key is that of the hardware address.
fn is_mac_key_of(key: &str, lxc: bool) -> (r: bool)
    ensures
        r == (key@ == mac_key(lxc)),
{
    if lxc {
        text_same(key, "hwaddr")
    } else {
        text_same(key, "macaddr")
    }
}

/// Takes one more property in.
fn take_property(f: Fields, key: Option<String>, value: String, lxc: bool) -> (r: Option<Fields>)
    ensures
        match with_property(fields_of(f), text_of(key), value@, lxc) {
            Some(g) => r is Some && fields_of(r->Some_0) == g,
            None => r is None,
        },
{
    let key = match key {
        Some(k) => k,
        None => {
            return None;
        },
    };
    let k = key.as_str();
    let Fields { model, mac, firewall, ip, ip6 } = f;
    if !lxc && model_key_named(k) {
        if model.is_some() || mac.is_some() {
            None
        } else {
            Some(Fields { model: Some(key), mac: Some(value), firewall, ip, ip6 })
        }
    } else if is_model_key_of(k, lxc) {
        if model.is_some() {
            None
        } else {
            Some(Fields { model: Some(value), mac, firewall, ip, ip6 })
        }
    } else if is_mac_key_of(k, lxc) {
        if mac.is_some() {
            None
        } else {
            Some(Fields { model, mac: Some(value), firewall, ip, ip6 })
        }
    } else if text_same(k, "firewall") {
        if firewall.is_some() {
            None
        } else {
            Some(Fields { model, mac, firewall: Some(value), ip, ip6 })
        }
    } else if lxc && text_same(k, "ip") {
        if ip.is_some() {
            None
        } else {
            Some(Fields { model, mac, firewall, ip: Some(value), ip6 })
        }
    } else if lxc && text_same(k, "ip6") {
        if ip6.is_some() {
            None
        } else {
            Some(Fields { model, mac, firewall, ip, ip6: Some(value) })
        }
    } else {
        Some(Fields { model, mac, firewall, ip, ip6 })
    }
}

/// Reads the settings of a device of one kind.
fn read_fields(v: &Vec<char>, lxc: bool) -> (r: Option<Fields>)
    ensures
        match fields_from(v@, 0, no_fields(), lxc) {
            Some(g) => r is Some && fields_of(r->Some_0) == g,
            None => r is None,
        },
{
    let mut f = Fields { model: None, mac: None, firewall: None, ip: None, ip6: None };
    let mut i: usize = 0;
    while i < v.len()
        invariant
            i <= v.len(),
            fields_from(v@, i as int, fields_of(f), lxc) == fields_from(v@, 0, no_fields(), lxc),
        decreases v.len() - i,
    {
        let p = match property_at(v, i) {
            Some(p) => p,
            None => {
                return None;
            },
        };
        let ReadProperty { key, value, next } = p;
        f = match take_property(f, key, value, lxc) {
            Some(g) => g,
            None => {
                return None;
            },
        };
        i = next;
    }
    Some(f)
}

/// Reads a yes or a no.
pub fn parse_flag_text(s: &str) -> (r: Option<bool>)
    ensures
        r == parse_flag(s@),
{
    let t = to_lower(s);
    let t = t.as_str();
    if text_same(t, "1") || text_same(t, "on") || text_same(t, "yes") || text_same(t, "true") {
        Some(true)
    } else if text_same(t, "0") || text_same(t, "off") || text_same(t, "no") || text_same(
        t,
        "false",
    ) {
        Some(false)
    } else {
        None
    }
}

/// Makes the device of one kind from its settings.
fn make_device(f: &Fields, lxc: bool) -> (r: Option<NetworkDevice>)
    ensures
        match device_of(fields_of(*f), lxc) {
            Some(d) => r is Some && r->Some_0@ == d,
            None => r is None,
        },
{
    let (model_text, mac_text) = match (&f.model, &f.mac) {
        (Some(model), Some(mac)) => (model, mac),
        _ => {
            return None;
        },
    };
    let model = match NetworkDeviceModel::parse_text(model_text.as_str()) {
        Ok(m) => m,
        Err(_) => {
            return None;
        },
    };
    let mac_address = match MacAddress::parse_text(mac_text.as_str()) {
        Some(m) => m,
        None => {
            return None;
        },
    };
    let firewall: Option<bool> = match &f.firewall {
        None => None,
        Some(t) => match parse_flag_text(t.as_str()) {
            Some(b) => Some(b),
            None => {
                return None;
            },
        },
    };
    let ip: Option<LxcIpv4Addr> = match &f.ip {
        None => None,
        Some(t) => match LxcIpv4Addr::parse_text(t.as_str()) {
            Some(a) => Some(a),
            None => {
                return None;
            },
        },
    };
    let ip6: Option<LxcIpv6Addr> = match &f.ip6 {
        None => None,
        Some(t) => match LxcIpv6Addr::parse_text(t.as_str()) {
            Some(a) => Some(a),
            None => {
                return None;
            },
        },
    };
    if lxc {
        Some(NetworkDevice::Lxc(LxcNetworkDevice { ty: model, mac_address, firewall, ip, ip6 }))
    } else {
        Some(NetworkDevice::Qemu(QemuNetworkDevice { model, mac_address, firewall }))
    }
}

/// Reads a device of one kind.
fn read_device(v: &Vec<char>, lxc: bool) -> (r: Option<NetworkDevice>)
    ensures
        match device_of_kind(v@, lxc) {
            Some(d) => r is Some && r->Some_0@ == d,
            None => r is None,
        },
{
    match read_fields(v, lxc) {
        Some(f) => make_device(&f, lxc),
        None => None,
    }
}

impl NetworkDevice {
    /// Reads a device from the text of its settings.
    pub fn parse_text(s: &str) -> (r: Result<NetworkDevice, NetworkDeviceError>)
        ensures
            match parse_device_spec(s@) {
                Some(d) => r is Ok && r->Ok_0@ == d,
                None => r == Err::<NetworkDevice, NetworkDeviceError>(
                    NetworkDeviceError::InvalidDevice,
                ),
            },
    {
        let v = chars_of(s);
        match read_device(&v, false) {
            Some(d) => Ok(d),
            None => match read_device(&v, true) {
                Some(d) => Ok(d),
                None => Err(NetworkDeviceError::InvalidDevice),
            },
        }
    }
}

} // verus!
