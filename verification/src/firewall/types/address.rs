//! Lists of prefixes and ranges of one family.

use vstd::prelude::*;
use crate::ip_address::cidr::Cidr;
use crate::ip_address::parse::{parse_cidr_spec, parse_range_spec};
use crate::ip_address::range::{AddressRange, IpRange};
use crate::ip_address::text::{cidr_text, ip_text, push_ip};
use crate::ip_address::Family;
use crate::text::{chars_of, find_from, index_from, lemma_index_from, string_of};

verus! {

/// Why entries make no list.
#[derive(Clone, Copy, Debug, PartialEq, Eq, Structural)]
pub enum IpListError {
    /// There are no entries.
    Empty,
    /// The entries are not all of one family.
    MixedFamilies,
    /// A text between two commas is neither a prefix nor a range.
    InvalidEntry,
}

/// An entry of a list: a prefix or a range.
#[derive(Clone, Copy, Debug, PartialEq, Eq, Structural)]
pub enum IpEntry {
    Cidr(Cidr),
    Range(IpRange),
}

impl IpEntry {
    /// The family of the entry.
    pub open spec fn family_of(self) -> Family {
        match self {
            IpEntry::Cidr(c) => c.family_of(),
            IpEntry::Range(r) => r.family_of(),
        }
    }

    /// The entry as text: a prefix as it is written, a range as its two
    /// ends with a hyphen between them.
    pub open spec fn text(self) -> Seq<char> {
        match self {
            IpEntry::Cidr(c) => cidr_text(c),
            IpEntry::Range(r) => range_text(r),
        }
    }

    /// The family of the entry.
    pub fn family(&self) -> (f: Family)
        ensures
            f == self.family_of(),
    {
        match self {
            IpEntry::Cidr(c) => c.family(),
            IpEntry::Range(r) => r.family(),
        }
    }

    /// The entry as text.
    pub fn to_text(&self) -> (r: String)
        ensures
            r@ == self.text(),
    {
        match self {
            IpEntry::Cidr(c) => c.to_text(),
            IpEntry::Range(range) => {
                let first = range.start();
                let last = range.last();
                let mut out = first.to_text();
                out.push('-');
                push_ip(&mut out, last);
                proof {
                    assert(first == range.start_address());
                    assert(last == range.last_address());
                }
                out
            },
        }
    }
}

/// The text of a range: its two ends with a hyphen between them.
pub open spec fn range_text(r: IpRange) -> Seq<char> {
    ip_text(r.start_address()) + seq!['-'] + ip_text(r.last_address())
}

/// The entries are all of the family `f`.
pub open spec fn all_of_family(entries: Seq<IpEntry>, f: Family) -> bool {
    forall|i: int| 0 <= i < entries.len() ==> (#[trigger] entries[i]).family_of() == f
}

/// A list of prefixes and ranges, not empty and all of one family.
#[derive(Debug, PartialEq, Eq)]
pub struct IpList {
    entries: Vec<IpEntry>,
    family: Family,
}

impl Clone for IpList {
    fn clone(&self) -> (r: Self)
        ensures
            r.items() == self.items(),
            r.family_of() == self.family_of(),
    {
        proof {
            use_type_invariant(self);
        }
        let mut entries: Vec<IpEntry> = Vec::new();
        let mut i: usize = 0;
        while i < self.entries.len()
            invariant
                i <= self.entries.len(),
                entries@ == self.entries@.subrange(0, i as int),
            decreases self.entries.len() - i,
        {
            entries.push(self.entries[i]);
            i = i + 1;
            assert(entries@ =~= self.entries@.subrange(0, i as int));
        }
        assert(entries@ =~= self.entries@);
        IpList { entries, family: self.family }
    }
}

impl IpList {
    #[verifier::type_invariant]
    spec fn well_formed(self) -> bool {
        self.entries@.len() > 0 && all_of_family(self.entries@, self.family)
    }

    /// The entries of the list.
    pub closed spec fn items(self) -> Seq<IpEntry> {
        self.entries@
    }

    /// The family of the entries.
    pub closed spec fn family_of(self) -> Family {
        self.family
    }

    /// The list of the given entries.
    pub fn new(entries: Vec<IpEntry>) -> (r: Result<IpList, IpListError>)
        ensures
            entries@.len() == 0 ==> r == Err::<IpList, IpListError>(IpListError::Empty),
            entries@.len() > 0 && !all_of_family(entries@, entries@[0].family_of()) ==> r == Err::<
                IpList,
                IpListError,
            >(IpListError::MixedFamilies),
            entries@.len() > 0 && all_of_family(entries@, entries@[0].family_of()) ==> r is Ok
                && r->Ok_0.items() == entries@ && r->Ok_0.family_of() == entries@[0].family_of(),
    {
        if entries.len() == 0 {
            return Err(IpListError::Empty);
        }
        let family = entries[0].family();
        let mut i: usize = 1;
        while i < entries.len()
            invariant
                1 <= i <= entries.len(),
                family == entries@[0].family_of(),
                forall|j: int| 0 <= j < i ==> (#[trigger] entries@[j]).family_of() == family,
            decreases entries.len() - i,
        {
            if !(entries[i].family() == family) {
                return Err(IpListError::MixedFamilies);
            }
            i = i + 1;
        }
        Ok(IpList { entries, family })
    }

    /// The list that holds the one entry.
    pub fn from_entry(entry: IpEntry) -> (r: IpList)
        ensures
            r.items() == seq![entry],
            r.family_of() == entry.family_of(),
    {
        let family = entry.family();
        let mut entries: Vec<IpEntry> = Vec::new();
        entries.push(entry);
        assert(entries@ =~= seq![entry]);
        IpList { entries, family }
    }

    /// The family of the entries.
    pub fn family(&self) -> (f: Family)
        ensures
            f == self.family_of(),
            self.items().len() > 0,
            all_of_family(self.items(), f),
    {
        proof {
            use_type_invariant(self);
        }
        self.family
    }

    /// The entries of the list.
    pub fn entries(&self) -> (r: &Vec<IpEntry>)
        ensures
            r@ == self.items(),
    {
        &self.entries
    }
}


/// What a text means as an entry: a prefix where it reads as one, else a
/// range.
pub open spec fn parse_entry_spec(s: Seq<char>) -> Option<IpEntry> {
    match parse_cidr_spec(s) {
        Some(c) => Some(IpEntry::Cidr(c)),
        None => match parse_range_spec(s) {
            Some(r) => Some(IpEntry::Range(r)),
            None => None,
        },
    }
}

impl IpEntry {
    /// Reads an entry from its text.
    pub fn parse_text(s: &str) -> (r: Option<IpEntry>)
        ensures
            r == parse_entry_spec(s@),
    {
        match Cidr::parse_text(s) {
            Some(c) => Some(IpEntry::Cidr(c)),
            None => match AddressRange::parse_text(s) {
                Some(r) => Some(IpEntry::Range(r)),
                None => None,
            },
        }
    }
}

/// The entries that a text holds from place `i` on, with commas between
/// them, behind the entries `acc`: each has to be an entry, of the family
/// of the first. What is wrong with the first entry that is not in order is
/// the error.
pub open spec fn parse_entries_from(s: Seq<char>, i: int, acc: Seq<IpEntry>) -> Result<
    Seq<IpEntry>,
    IpListError,
>
    decreases s.len() - i,
{
    let e = index_from(s, ',', i);
    match parse_entry_spec(s.subrange(i, e)) {
        None => Err(IpListError::InvalidEntry),
        Some(x) => if acc.len() > 0 && acc[0].family_of() != x.family_of() {
            Err(IpListError::MixedFamilies)
        } else if i < 0 || e >= s.len() {
            Ok(acc.push(x))
        } else {
            proof {
                lemma_index_from(s, ',', i);
            }
            parse_entries_from(s, e + 1, acc.push(x))
        },
    }
}

/// What a text means as a list of entries.
pub open spec fn parse_list_spec(s: Seq<char>) -> Result<Seq<IpEntry>, IpListError> {
    if s.len() == 0 {
        Err(IpListError::Empty)
    } else {
        parse_entries_from(s, 0, Seq::empty())
    }
}

impl IpList {
    /// Reads a list from its text: entries with commas between them.
    pub fn parse_text(s: &str) -> (r: Result<IpList, IpListError>)
        ensures
            match parse_list_spec(s@) {
                Ok(items) => r is Ok && r->Ok_0.items() == items,
                Err(e) => r == Err::<IpList, IpListError>(e),
            },
    {
        let v = chars_of(s);
        if v.len() == 0 {
            return Err(IpListError::Empty);
        }
        let mut entries: Vec<IpEntry> = Vec::new();
        let mut i: usize = 0;
        loop
            invariant
                i <= v.len(),
                v@ == s@,
                s@.len() > 0,
                forall|j: int|
                    0 <= j < entries@.len() ==> (#[trigger] entries@[j]).family_of()
                        == entries@[0].family_of(),
                parse_entries_from(s@, i as int, entries@) == parse_entries_from(
                    s@,
                    0,
                    Seq::empty(),
                ),
            decreases v.len() - i,
        {
            let e: usize = find_from(&v, ',', i);
            let element = string_of(&v, i, e);
            let entry = match IpEntry::parse_text(element.as_str()) {
                Some(x) => x,
                None => {
                    return Err(IpListError::InvalidEntry);
                },
            };
            if entries.len() > 0 && !(entries[0].family() == entry.family()) {
                return Err(IpListError::MixedFamilies);
            }
            entries.push(entry);
            if e >= v.len() {
                let family = entries[0].family();
                return Ok(IpList { entries, family });
            }
            i = e + 1;
        }
    }
}

} // verus!
