//! Sets of addresses that firewall rules refer to by name.

use vstd::prelude::*;
use crate::ip_address::cidr::Cidr;
use crate::ip_address::range::IpRange;
use crate::views::views;

verus! {

/// Where a set is defined.
#[derive(Clone, Copy, Debug, PartialEq, Eq, Structural)]
pub enum IpsetScope {
    Datacenter,
    Guest,
    Sdn,
}

/// The name of a set together with where it is defined.
#[derive(Clone, Debug, PartialEq, Eq)]
pub struct IpsetName {
    pub scope: IpsetScope,
    pub name: String,
}

impl IpsetName {
    pub fn new(scope: IpsetScope, name: String) -> (r: IpsetName)
        ensures
            r.scope == scope,
            r.name@ == name@,
    {
        IpsetName { scope, name }
    }
}

/// What an entry of a set holds: a prefix or a range.
#[derive(Clone, Copy, Debug, PartialEq, Eq, Structural)]
pub enum IpsetAddress {
    Cidr(Cidr),
    Range(IpRange),
}

/// An entry of a set: addresses, and whether they are taken out of the set
/// rather than put into it.
#[derive(Clone, Debug, PartialEq, Eq)]
pub struct IpsetEntry {
    pub address: IpsetAddress,
    pub nomatch: bool,
    pub comment: Option<String>,
}

/// The view of an entry.
pub struct IpsetEntryView {
    pub address: IpsetAddress,
    pub nomatch: bool,
    pub comment: Option<Seq<char>>,
}

impl View for IpsetEntry {
    type V = IpsetEntryView;

    open spec fn view(&self) -> IpsetEntryView {
        IpsetEntryView {
            address: self.address,
            nomatch: self.nomatch,
            comment: match self.comment {
                Some(c) => Some(c@),
                None => None,
            },
        }
    }
}

impl IpsetEntryView {
    /// The entry that puts a prefix into a set.
    pub open spec fn of_cidr(c: Cidr) -> IpsetEntryView {
        IpsetEntryView { address: IpsetAddress::Cidr(c), nomatch: false, comment: None }
    }

    /// The entry that takes a prefix out of a set.
    pub open spec fn without_cidr(c: Cidr) -> IpsetEntryView {
        IpsetEntryView { address: IpsetAddress::Cidr(c), nomatch: true, comment: None }
    }

    /// The entry that puts a range into a set.
    pub open spec fn of_range(r: IpRange) -> IpsetEntryView {
        IpsetEntryView { address: IpsetAddress::Range(r), nomatch: false, comment: None }
    }
}

impl IpsetEntry {
    pub fn new(address: Cidr, nomatch: bool, comment: Option<String>) -> (r: IpsetEntry)
        ensures
            r.address == IpsetAddress::Cidr(address),
            r.nomatch == nomatch,
            r.comment == comment,
    {
        IpsetEntry { address: IpsetAddress::Cidr(address), nomatch, comment }
    }

    /// The entry that puts a prefix into a set.
    pub fn from_cidr(address: Cidr) -> (r: IpsetEntry)
        ensures
            r@ == IpsetEntryView::of_cidr(address),
    {
        IpsetEntry { address: IpsetAddress::Cidr(address), nomatch: false, comment: None }
    }

    /// The entry that puts a range into a set.
    pub fn from_range(range: IpRange) -> (r: IpsetEntry)
        ensures
            r@ == IpsetEntryView::of_range(range),
    {
        IpsetEntry { address: IpsetAddress::Range(range), nomatch: false, comment: None }
    }
}

/// A set of addresses: its name, its entries in the order in which they
/// were added, and a comment.
#[derive(Clone, Debug, PartialEq, Eq)]
pub struct Ipset {
    name: IpsetName,
    set: Vec<IpsetEntry>,
    pub comment: Option<String>,
}

/// The view of a set.
pub struct IpsetView {
    pub scope: IpsetScope,
    pub name: Seq<char>,
    pub entries: Seq<IpsetEntryView>,
    pub comment: Option<Seq<char>>,
}

impl View for Ipset {
    type V = IpsetView;

    closed spec fn view(&self) -> IpsetView {
        IpsetView {
            scope: self.name.scope,
            name: self.name.name@,
            entries: views(self.set@),
            comment: match self.comment {
                Some(c) => Some(c@),
                None => None,
            },
        }
    }
}

impl Ipset {
    /// The set of the given name, without entries and without a comment.
    pub fn new(name: IpsetName) -> (r: Ipset)
        ensures
            r@ == (IpsetView {
                scope: name.scope,
                name: name.name@,
                entries: Seq::empty(),
                comment: None,
            }),
    {
        let r = Ipset { name, set: Vec::new(), comment: None };
        assert(views(r.set@) =~= Seq::<IpsetEntryView>::empty());
        r
    }

    /// The set of the given name and comment, without entries.
    pub fn with_comment(name: IpsetName, comment: String) -> (r: Ipset)
        ensures
            r@ == (IpsetView {
                scope: name.scope,
                name: name.name@,
                entries: Seq::empty(),
                comment: Some(comment@),
            }),
    {
        let r = Ipset { name, set: Vec::new(), comment: Some(comment) };
        assert(views(r.set@) =~= Seq::<IpsetEntryView>::empty());
        r
    }

    pub fn name(&self) -> (r: &IpsetName)
        ensures
            r.scope == self@.scope,
            r.name@ == self@.name,
    {
        &self.name
    }

    /// Adds an entry behind the entries that are there.
    pub fn push(&mut self, entry: IpsetEntry)
        ensures
            final(self)@ == (IpsetView { entries: old(self)@.entries.push(entry@), ..old(self)@ }),
    {
        proof {
            crate::views::lemma_views_push(self.set@, entry);
        }
        self.set.push(entry);
    }

    /// The entries of the set.
    pub fn entries(&self) -> (r: &Vec<IpsetEntry>)
        ensures
            views(r@) == self@.entries,
    {
        &self.set
    }
}

} // verus!
