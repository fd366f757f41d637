//! The names of the interfaces of the host.

use vstd::prelude::*;
use crate::ordered::{lookup, put, OrderedMap, TextKey};

verus! {

/// An interface as the host lists it: its name and the other names that it
/// goes by.
#[derive(Debug, Clone)]
pub struct IpLink {
    pub ifname: String,
    pub altnames: Vec<String>,
}

/// The other names of the first `k` of the given names, each bound to the
/// name of the interface.
pub open spec fn with_altnames(
    m: Seq<(Seq<char>, Seq<char>)>,
    ifname: Seq<char>,
    altnames: Seq<String>,
    k: int,
) -> Seq<(Seq<char>, Seq<char>)>
    decreases k,
{
    if k <= 0 {
        m
    } else {
        put::<TextKey, _>(with_altnames(m, ifname, altnames, k - 1), altnames[k - 1]@, ifname)
    }
}

/// The other names of the first `i` interfaces, each bound to the name of
/// its interface. A name that two interfaces go by stays with the later
/// one.
pub open spec fn mapping_of(links: Seq<IpLink>, i: int) -> Seq<(Seq<char>, Seq<char>)>
    decreases i,
{
    if i <= 0 {
        Seq::empty()
    } else {
        with_altnames(
            mapping_of(links, i - 1),
            links[i - 1].ifname@,
            links[i - 1].altnames@,
            links[i - 1].altnames@.len() as int,
        )
    }
}

/// For each other name of an interface, the name of the interface.
#[derive(Debug)]
pub struct InterfaceMapping {
    mapping: OrderedMap<TextKey, String>,
}

impl View for InterfaceMapping {
    type V = Seq<(Seq<char>, Seq<char>)>;

    closed spec fn view(&self) -> Seq<(Seq<char>, Seq<char>)> {
        self.mapping@
    }
}

impl InterfaceMapping {
    /// The mapping that the listed interfaces give.
    pub fn from_links(links: &Vec<IpLink>) -> (r: InterfaceMapping)
        ensures
            r@ == mapping_of(links@, links@.len() as int),
    {
        let mut mapping: OrderedMap<TextKey, String> = OrderedMap::new();
        let mut i: usize = 0;
        while i < links.len()
            invariant
                i <= links.len(),
                mapping@ == mapping_of(links@, i as int),
            decreases links.len() - i,
        {
            let iface = &links[i];
            let ghost base = mapping@;
            let mut k: usize = 0;
            while k < iface.altnames.len()
                invariant
                    k <= iface.altnames.len(),
                    mapping@ == with_altnames(base, iface.ifname@, iface.altnames@, k as int),
                decreases iface.altnames.len() - k,
            {
                mapping.insert(TextKey(iface.altnames[k].clone()), iface.ifname.clone());
                k = k + 1;
            }
            i = i + 1;
        }
        InterfaceMapping { mapping }
    }

    /// The name of the interface that goes by the given name.
    pub fn get(&self, altname: &str) -> (r: Option<&String>)
        ensures
            match r {
                Some(name) => lookup(self@, altname@) == Some(name@),
                None => lookup(self@, altname@) is None,
            },
    {
        let key = TextKey(String::from_str(altname));
        self.mapping.get(&key)
    }

    /// The number of names that are mapped.
    pub fn len(&self) -> (n: usize)
        ensures
            n == self@.len(),
    {
        self.mapping.len()
    }
}

} // verus!
