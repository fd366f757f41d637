//! The software-defined network: fabrics and their compilation.

pub mod config;
pub mod fabric;
pub mod frr;
pub mod running;

use vstd::prelude::*;
use vstd::string::StringSliceAdditionalSpecFns;
use crate::ip_address::cidr::Cidr;
use crate::ip_address::parse::parse_cidr_spec;
use crate::text::{find_from, index_from, index_of, string_of};
use crate::ordered::SortKey;
use crate::text::{
    char_is_alphabetic, char_is_alphanumeric, chars_of, code_points, is_alphabetic,
    is_alphanumeric, lemma_code_points_injective, text_precedes, text_same,
};
use crate::views::byte_len;

verus! {

/// Why a text is no name of a zone, a virtual network or a subnet.
#[derive(Copy, Clone, Debug, PartialEq, Eq, Structural, Hash, PartialOrd, Ord)]
pub enum SdnNameError {
    Empty,
    TooLong,
    InvalidSymbols,
    InvalidSubnetCidr,
    InvalidSubnetFormat,
}

impl SdnNameError {
    /// What the error says.
    pub open spec fn text(self) -> Seq<char> {
        match self {
            SdnNameError::TooLong => "name too long"@,
            SdnNameError::InvalidSymbols => "invalid symbols in name"@,
            SdnNameError::InvalidSubnetCidr => "invalid cidr in name"@,
            SdnNameError::InvalidSubnetFormat => "invalid format for subnet name"@,
            SdnNameError::Empty => "name is empty"@,
        }
    }

    /// What the error says.
    pub fn message(&self) -> (r: &'static str)
        ensures
            r@ == self.text(),
    {
        match self {
            SdnNameError::TooLong => "name too long",
            SdnNameError::InvalidSymbols => "invalid symbols in name",
            SdnNameError::InvalidSubnetCidr => "invalid cidr in name",
            SdnNameError::InvalidSubnetFormat => "invalid format for subnet name",
            SdnNameError::Empty => "name is empty",
        }
    }
}

/// Every character of `s` is an ASCII letter or digit.
pub open spec fn all_alphanumeric(s: Seq<char>) -> bool {
    forall|i: int| 0 <= i < s.len() ==> is_alphanumeric(#[trigger] s[i])
}

/// What is wrong with a text as a name, if anything: it is empty, or takes
/// more than eight bytes, or does not start with a letter, or holds
/// something else than letters and digits. The first of these that holds is
/// the one that is found.
pub open spec fn sdn_name_error(s: Seq<char>) -> Option<SdnNameError> {
    if s.len() == 0 {
        Some(SdnNameError::Empty)
    } else if byte_len(s) > 8 {
        Some(SdnNameError::TooLong)
    } else if !is_alphabetic(s[0]) {
        Some(SdnNameError::InvalidSymbols)
    } else if !all_alphanumeric(s) {
        Some(SdnNameError::InvalidSymbols)
    } else {
        None
    }
}

/// Checks a text as the name of a zone or of a virtual network.
pub fn validate_sdn_name(name: &str) -> (r: Result<(), SdnNameError>)
    ensures
        match sdn_name_error(name@) {
            None => r is Ok,
            Some(e) => r == Err::<(), SdnNameError>(e),
        },
{
    let v = chars_of(name);
    if v.len() == 0 {
        return Err(SdnNameError::Empty);
    }
    let bytes: usize = name.as_bytes().len();
    assert(bytes == byte_len(name@)) by {
        assert(name.spec_bytes() == vstd::utf8::encode_utf8(name@));
    }
    if bytes > 8 {
        return Err(SdnNameError::TooLong);
    }
    if !char_is_alphabetic(v[0]) {
        return Err(SdnNameError::InvalidSymbols);
    }
    let mut i: usize = 0;
    while i < v.len()
        invariant
            i <= v.len(),
            v@ == name@,
            name@.len() > 0,
            byte_len(name@) <= 8,
            is_alphabetic(name@[0]),
            forall|j: int| 0 <= j < i ==> is_alphanumeric(#[trigger] v@[j]),
        decreases v.len() - i,
    {
        if !char_is_alphanumeric(v[i]) {
            assert(!is_alphanumeric(name@[i as int]));
            return Err(SdnNameError::InvalidSymbols);
        }
        i = i + 1;
    }
    Ok(())
}

/// The name of a zone.
#[derive(Debug, PartialEq, Eq, Hash, PartialOrd, Ord)]
pub struct ZoneName(String);

impl View for ZoneName {
    type V = Seq<char>;

    closed spec fn view(&self) -> Seq<char> {
        self.0@
    }
}

impl Clone for ZoneName {
    fn clone(&self) -> (r: Self)
        ensures
            r == *self,
    {
        proof {
            use_type_invariant(self);
        }
        ZoneName(self.0.clone())
    }
}

impl ZoneName {
    #[verifier::type_invariant]
    spec fn well_formed(self) -> bool {
        sdn_name_error(self.0@) is None
    }

    /// The zone name with the given text.
    pub fn new(name: String) -> (r: Result<ZoneName, SdnNameError>)
        ensures
            match sdn_name_error(name@) {
                None => r is Ok && r->Ok_0@ == name@,
                Some(e) => r == Err::<ZoneName, SdnNameError>(e),
            },
    {
        match validate_sdn_name(name.as_str()) {
            Ok(()) => Ok(ZoneName(name)),
            Err(e) => Err(e),
        }
    }

    /// Reads a zone name from its text.
    pub fn parse_text(s: &str) -> (r: Result<ZoneName, SdnNameError>)
        ensures
            match sdn_name_error(s@) {
                None => r is Ok && r->Ok_0@ == s@,
                Some(e) => r == Err::<ZoneName, SdnNameError>(e),
            },
    {
        ZoneName::new(String::from_str(s))
    }

    pub fn as_str(&self) -> (r: &str)
        ensures
            r@ == self@,
            sdn_name_error(r@) is None,
    {
        proof {
            use_type_invariant(self);
        }
        self.0.as_str()
    }
}

impl SortKey for ZoneName {
    open spec fn rank(v: Seq<char>) -> Seq<int> {
        code_points(v)
    }

    proof fn lemma_rank_injective(a: Seq<char>, b: Seq<char>) {
        lemma_code_points_injective(a, b);
    }

    fn precedes(&self, other: &Self) -> (r: bool) {
        text_precedes(self.as_str(), other.as_str())
    }

    fn same(&self, other: &Self) -> (r: bool) {
        text_same(self.as_str(), other.as_str())
    }
}

/// The name of a virtual network.
#[derive(Debug, PartialEq, Eq, Hash, PartialOrd, Ord)]
pub struct VnetName(String);

impl SortKey for VnetName {
    open spec fn rank(v: Seq<char>) -> Seq<int> {
        code_points(v)
    }

    proof fn lemma_rank_injective(a: Seq<char>, b: Seq<char>) {
        lemma_code_points_injective(a, b);
    }

    fn precedes(&self, other: &Self) -> (r: bool) {
        text_precedes(self.name(), other.name())
    }

    fn same(&self, other: &Self) -> (r: bool) {
        text_same(self.name(), other.name())
    }
}

impl View for VnetName {
    type V = Seq<char>;

    closed spec fn view(&self) -> Seq<char> {
        self.0@
    }
}

impl Clone for VnetName {
    fn clone(&self) -> (r: Self)
        ensures
            r == *self,
    {
        proof {
            use_type_invariant(self);
        }
        VnetName(self.0.clone())
    }
}

impl VnetName {
    #[verifier::type_invariant]
    spec fn well_formed(self) -> bool {
        sdn_name_error(self.0@) is None
    }

    /// The name of a virtual network with the given text.
    pub fn new(name: String) -> (r: Result<VnetName, SdnNameError>)
        ensures
            match sdn_name_error(name@) {
                None => r is Ok && r->Ok_0@ == name@,
                Some(e) => r == Err::<VnetName, SdnNameError>(e),
            },
    {
        match validate_sdn_name(name.as_str()) {
            Ok(()) => Ok(VnetName(name)),
            Err(e) => Err(e),
        }
    }

    /// Reads the name of a virtual network from its text.
    pub fn parse_text(s: &str) -> (r: Result<VnetName, SdnNameError>)
        ensures
            match sdn_name_error(s@) {
                None => r is Ok && r->Ok_0@ == s@,
                Some(e) => r == Err::<VnetName, SdnNameError>(e),
            },
    {
        VnetName::new(String::from_str(s))
    }

    pub fn name(&self) -> (r: &str)
        ensures
            r@ == self@,
            sdn_name_error(r@) is None,
    {
        proof {
            use_type_invariant(self);
        }
        self.0.as_str()
    }
}

/// The name of a subnet: the zone that it lies in and its prefix.
#[derive(Clone, Debug, PartialEq, Eq, Hash, PartialOrd, Ord)]
pub struct SubnetName(ZoneName, Cidr);

impl SubnetName {
    /// The zone of the subnet, as text.
    pub closed spec fn zone_text(&self) -> Seq<char> {
        self.0@
    }

    /// The prefix of the subnet.
    pub closed spec fn prefix(&self) -> Cidr {
        self.1
    }

    pub fn new(zone: ZoneName, cidr: Cidr) -> (r: SubnetName)
        ensures
            r.zone_text() == zone@,
            r.prefix() == cidr,
    {
        SubnetName(zone, cidr)
    }

    pub fn zone(&self) -> (r: &ZoneName)
        ensures
            r@ == self.zone_text(),
    {
        &self.0
    }

    pub fn cidr(&self) -> (r: &Cidr)
        ensures
            *r == self.prefix(),
    {
        &self.1
    }
}

/// What a text means as the name of a subnet, or why it is none: the name
/// of the zone, a hyphen, the address of the prefix, a hyphen and its prefix
/// length. The name of the zone is looked at first.
pub open spec fn parse_subnet_name(s: Seq<char>) -> Result<(Seq<char>, Cidr), SdnNameError> {
    let a = index_of(s, '-');
    let b = index_from(s, '-', a + 1);
    if a >= s.len() || b >= s.len() {
        Err(SdnNameError::InvalidSubnetFormat)
    } else {
        match sdn_name_error(s.subrange(0, a)) {
            Some(e) => Err(e),
            None => match parse_cidr_spec(
                s.subrange(a + 1, b) + seq!['/'] + s.subrange(b + 1, s.len() as int),
            ) {
                Some(c) => Ok((s.subrange(0, a), c)),
                None => Err(SdnNameError::InvalidSubnetCidr),
            },
        }
    }
}

impl SubnetName {
    /// Reads the name of a subnet from its text.
    pub fn parse_text(s: &str) -> (r: Result<SubnetName, SdnNameError>)
        ensures
            match parse_subnet_name(s@) {
                Ok((zone, cidr)) => r is Ok && r->Ok_0.zone_text() == zone && r->Ok_0.prefix()
                    == cidr,
                Err(e) => r == Err::<SubnetName, SdnNameError>(e),
            },
    {
        let v = chars_of(s);
        let a: usize = find_from(&v, '-', 0);
        if a >= v.len() {
            return Err(SdnNameError::InvalidSubnetFormat);
        }
        let b: usize = find_from(&v, '-', a + 1);
        if b >= v.len() {
            return Err(SdnNameError::InvalidSubnetFormat);
        }
        let zone = match ZoneName::new(string_of(&v, 0, a)) {
            Ok(z) => z,
            Err(e) => {
                return Err(e);
            },
        };
        let mut text = string_of(&v, a + 1, b);
        text.push('/');
        let mask = string_of(&v, b + 1, v.len());
        text.append(mask.as_str());
        assert(text@ =~= s@.subrange(a + 1, b as int) + seq!['/'] + s@.subrange(
            b + 1,
            s@.len() as int,
        ));
        match Cidr::parse_text(text.as_str()) {
            Some(cidr) => Ok(SubnetName(zone, cidr)),
            None => Err(SdnNameError::InvalidSubnetCidr),
        }
    }
}

} // verus!
