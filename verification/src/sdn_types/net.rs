//! The network entity title (NET) that identifies an OpenFabric node.
//!
//! A title has four parts with dots between them: the address family
//! identifier of two hexadecimal digits, the area of four, the system
//! identifier of three groups of four, and the selector of two, as in
//! `49.0001.1921.6800.1002.00`.

use vstd::prelude::*;
use crate::ip_address::{IpAddr, Ipv4Addr, Ipv6Addr};
use crate::text::{
    all_hex, chars_of, dec_fixed, find_from, hex_fixed, hex_only, index_from, lemma_dec_fixed,
    lemma_hex_fixed, push_dec_fixed, push_hex_fixed, string_of, text_same,
};

verus! {

/// Why a text is no network entity title.
#[derive(Clone, Copy, Debug, PartialEq, Eq, Structural)]
pub enum NetError {
    /// The text does not have six parts with dots between them.
    InvalidFormat,
    InvalidAfi,
    InvalidArea,
    InvalidSystemId,
    InvalidSelector,
}

/// `s` is a word of exactly `n` hexadecimal digits.
pub open spec fn is_hex_word(s: Seq<char>, n: nat) -> bool {
    s.len() == n && all_hex(s)
}

/// `s` is a system identifier: three words of four hexadecimal digits with
/// dots between them.
pub open spec fn is_system_id(s: Seq<char>) -> bool {
    &&& s.len() == 14
    &&& is_hex_word(s.subrange(0, 4), 4)
    &&& s[4] == '.'
    &&& is_hex_word(s.subrange(5, 9), 4)
    &&& s[9] == '.'
    &&& is_hex_word(s.subrange(10, 14), 4)
}

/// Whether `s` is a word of exactly `n` hexadecimal digits.
pub fn check_hex_word(s: &str, n: usize) -> (r: bool)
    ensures
        r == is_hex_word(s@, n as nat),
{
    let v = chars_of(s);
    if v.len() != n {
        return false;
    }
    assert(v@.subrange(0, n as int) =~= s@);
    hex_only(&v, 0, n)
}

/// Whether `s` is a system identifier.
pub fn check_system_id(s: &str) -> (r: bool)
    ensures
        r == is_system_id(s@),
{
    let v = chars_of(s);
    if v.len() != 14 {
        return false;
    }
    hex_only(&v, 0, 4) && v[4] == '.' && hex_only(&v, 5, 9) && v[9] == '.' && hex_only(&v, 10, 14)
}

/// The address family identifier: 49 stands for private addressing.
#[derive(Debug, Hash, PartialEq, Eq, PartialOrd, Ord)]
pub struct NetAFI(String);

/// The area of a title.
#[derive(Debug, Hash, PartialEq, Eq, PartialOrd, Ord)]
pub struct NetArea(String);

/// The system identifier of a title, which tells the nodes of a fabric apart.
#[derive(Debug, Hash, PartialEq, Eq, PartialOrd, Ord)]
pub struct NetSystemId(String);

/// The selector of a title: 00 stands for the system itself.
#[derive(Debug, Hash, PartialEq, Eq, PartialOrd, Ord)]
pub struct NetSelector(String);

impl View for NetAFI {
    type V = Seq<char>;

    closed spec fn view(&self) -> Seq<char> {
        self.0@
    }
}

impl View for NetArea {
    type V = Seq<char>;

    closed spec fn view(&self) -> Seq<char> {
        self.0@
    }
}

impl View for NetSystemId {
    type V = Seq<char>;

    closed spec fn view(&self) -> Seq<char> {
        self.0@
    }
}

impl View for NetSelector {
    type V = Seq<char>;

    closed spec fn view(&self) -> Seq<char> {
        self.0@
    }
}

impl NetAFI {
    #[verifier::type_invariant]
    spec fn well_formed(self) -> bool {
        is_hex_word(self.0@, 2)
    }

    pub fn from_string(s: String) -> (r: Result<NetAFI, NetError>)
        ensures
            is_hex_word(s@, 2) ==> r is Ok && r->Ok_0@ == s@,
            !is_hex_word(s@, 2) ==> r == Err::<NetAFI, NetError>(NetError::InvalidAfi),
    {
        if check_hex_word(s.as_str(), 2) {
            Ok(NetAFI(s))
        } else {
            Err(NetError::InvalidAfi)
        }
    }

    /// The identifier 49.
    pub fn default() -> (r: NetAFI)
        ensures
            r@ == seq!['4', '9'],
    {
        let mut s = String::new();
        s.push('4');
        s.push('9');
        assert(s@ =~= seq!['4', '9']);
        assert(is_hex_word(s@, 2));
        NetAFI(s)
    }

    pub fn as_str(&self) -> (r: &str)
        ensures
            r@ == self@,
            is_hex_word(r@, 2),
    {
        proof {
            use_type_invariant(self);
        }
        self.0.as_str()
    }
}

impl NetArea {
    #[verifier::type_invariant]
    spec fn well_formed(self) -> bool {
        is_hex_word(self.0@, 4)
    }

    pub fn from_string(s: String) -> (r: Result<NetArea, NetError>)
        ensures
            is_hex_word(s@, 4) ==> r is Ok && r->Ok_0@ == s@,
            !is_hex_word(s@, 4) ==> r == Err::<NetArea, NetError>(NetError::InvalidArea),
    {
        if check_hex_word(s.as_str(), 4) {
            Ok(NetArea(s))
        } else {
            Err(NetError::InvalidArea)
        }
    }

    /// The area 0001.
    pub fn default() -> (r: NetArea)
        ensures
            r@ == seq!['0', '0', '0', '1'],
    {
        let mut s = String::new();
        s.push('0');
        s.push('0');
        s.push('0');
        s.push('1');
        assert(s@ =~= seq!['0', '0', '0', '1']);
        assert(is_hex_word(s@, 4));
        NetArea(s)
    }

    pub fn as_str(&self) -> (r: &str)
        ensures
            r@ == self@,
            is_hex_word(r@, 4),
    {
        proof {
            use_type_invariant(self);
        }
        self.0.as_str()
    }
}

impl NetSelector {
    #[verifier::type_invariant]
    spec fn well_formed(self) -> bool {
        is_hex_word(self.0@, 2)
    }

    pub fn from_string(s: String) -> (r: Result<NetSelector, NetError>)
        ensures
            is_hex_word(s@, 2) ==> r is Ok && r->Ok_0@ == s@,
            !is_hex_word(s@, 2) ==> r == Err::<NetSelector, NetError>(NetError::InvalidSelector),
    {
        if check_hex_word(s.as_str(), 2) {
            Ok(NetSelector(s))
        } else {
            Err(NetError::InvalidSelector)
        }
    }

    /// The selector 00.
    pub fn default() -> (r: NetSelector)
        ensures
            r@ == seq!['0', '0'],
    {
        let mut s = String::new();
        s.push('0');
        s.push('0');
        assert(s@ =~= seq!['0', '0']);
        assert(is_hex_word(s@, 2));
        NetSelector(s)
    }

    pub fn as_str(&self) -> (r: &str)
        ensures
            r@ == self@,
            is_hex_word(r@, 2),
    {
        proof {
            use_type_invariant(self);
        }
        self.0.as_str()
    }
}

/// The system identifier of an address of version 4: its four octets in
/// three decimal digits each, regrouped in fours.
pub open spec fn system_id_of_ipv4(v: u32) -> Seq<char> {
    let a = (v / 0x100_0000) as nat;
    let b = ((v / 0x1_0000) % 256) as nat;
    let c = ((v / 0x100) % 256) as nat;
    let d = (v % 256) as nat;
    dec_fixed(a, 3) + dec_fixed(b / 100, 1) + seq!['.'] + dec_fixed(b % 100, 2) + dec_fixed(
        c / 10,
        2,
    ) + seq!['.'] + dec_fixed(c % 10, 1) + dec_fixed(d, 3)
}

/// The system identifier of an address of version 6: its last three
/// segments in four hexadecimal digits each.
pub open spec fn system_id_of_ipv6(v: u128) -> Seq<char> {
    hex_fixed(Ipv6Addr(v).segment_at(5) as nat, 4) + seq!['.'] + hex_fixed(
        Ipv6Addr(v).segment_at(6) as nat,
        4,
    ) + seq!['.'] + hex_fixed(Ipv6Addr(v).segment_at(7) as nat, 4)
}

impl NetSystemId {
    #[verifier::type_invariant]
    spec fn well_formed(self) -> bool {
        is_system_id(self.0@)
    }

    pub fn from_string(s: String) -> (r: Result<NetSystemId, NetError>)
        ensures
            is_system_id(s@) ==> r is Ok && r->Ok_0@ == s@,
            !is_system_id(s@) ==> r == Err::<NetSystemId, NetError>(NetError::InvalidSystemId),
    {
        if check_system_id(s.as_str()) {
            Ok(NetSystemId(s))
        } else {
            Err(NetError::InvalidSystemId)
        }
    }

    /// The system identifier of an address of version 4.
    pub fn from_ipv4(addr: Ipv4Addr) -> (r: NetSystemId)
        ensures
            r@ == system_id_of_ipv4(addr.0),
    {
        let o = addr.octets();
        let mut s = String::new();
        push_dec_fixed(&mut s, o[0] as u32, 3);
        push_dec_fixed(&mut s, (o[1] / 100) as u32, 1);
        s.push('.');
        push_dec_fixed(&mut s, (o[1] % 100) as u32, 2);
        push_dec_fixed(&mut s, (o[2] / 10) as u32, 2);
        s.push('.');
        push_dec_fixed(&mut s, (o[2] % 10) as u32, 1);
        push_dec_fixed(&mut s, o[3] as u32, 3);
        proof {
            let t = system_id_of_ipv4(addr.0);
            assert(s@ =~= t);
            let a = o[0] as nat;
            let b = o[1] as nat;
            let c = o[2] as nat;
            let d = o[3] as nat;
            lemma_dec_fixed(a, 3);
            lemma_dec_fixed(b / 100, 1);
            lemma_dec_fixed(b % 100, 2);
            lemma_dec_fixed(c / 10, 2);
            lemma_dec_fixed(c % 10, 1);
            lemma_dec_fixed(d, 3);
            assert(t.subrange(0, 4) =~= dec_fixed(a, 3) + dec_fixed(b / 100, 1));
            assert(t.subrange(5, 9) =~= dec_fixed(b % 100, 2) + dec_fixed(c / 10, 2));
            assert(t.subrange(10, 14) =~= dec_fixed(c % 10, 1) + dec_fixed(d, 3));
            assert(is_system_id(t));
        }
        NetSystemId(s)
    }

    /// The system identifier of an address of version 6.
    pub fn from_ipv6(addr: Ipv6Addr) -> (r: NetSystemId)
        ensures
            r@ == system_id_of_ipv6(addr.0),
    {
        let g = addr.segments();
        let mut s = String::new();
        push_hex_fixed(&mut s, g[5] as u32, 4);
        s.push('.');
        push_hex_fixed(&mut s, g[6] as u32, 4);
        s.push('.');
        push_hex_fixed(&mut s, g[7] as u32, 4);
        proof {
            let t = system_id_of_ipv6(addr.0);
            assert(g[5] as int == addr.segment_at(5));
            assert(g[6] as int == addr.segment_at(6));
            assert(g[7] as int == addr.segment_at(7));
            assert(s@ =~= t);
            lemma_hex_fixed(g[5] as nat, 4);
            lemma_hex_fixed(g[6] as nat, 4);
            lemma_hex_fixed(g[7] as nat, 4);
            assert(t.subrange(0, 4) =~= hex_fixed(g[5] as nat, 4));
            assert(t.subrange(5, 9) =~= hex_fixed(g[6] as nat, 4));
            assert(t.subrange(10, 14) =~= hex_fixed(g[7] as nat, 4));
            assert(is_system_id(t));
        }
        NetSystemId(s)
    }

    pub fn as_str(&self) -> (r: &str)
        ensures
            r@ == self@,
            is_system_id(r@),
    {
        proof {
            use_type_invariant(self);
        }
        self.0.as_str()
    }
}

/// A network entity title.
#[derive(Debug, Hash, PartialEq, Eq, PartialOrd, Ord)]
pub struct Net {
    afi: NetAFI,
    area: NetArea,
    system: NetSystemId,
    selector: NetSelector,
}

/// A title as the texts of its four parts.
pub struct NetView {
    pub afi: Seq<char>,
    pub area: Seq<char>,
    pub system: Seq<char>,
    pub selector: Seq<char>,
}

impl NetView {
    /// The title as one text, its parts with dots between them.
    pub open spec fn text(self) -> Seq<char> {
        self.afi + seq!['.'] + self.area + seq!['.'] + self.system + seq!['.'] + self.selector
    }

    /// Each part has the form of its kind.
    pub open spec fn well_formed(self) -> bool {
        &&& is_hex_word(self.afi, 2)
        &&& is_hex_word(self.area, 4)
        &&& is_system_id(self.system)
        &&& is_hex_word(self.selector, 2)
    }
}

impl View for Net {
    type V = NetView;

    closed spec fn view(&self) -> NetView {
        NetView { afi: self.afi@, area: self.area@, system: self.system@, selector: self.selector@ }
    }
}

/// The places of the first five dots of a text.
pub open spec fn dots(s: Seq<char>) -> (int, int, int, int, int) {
    let a = index_from(s, '.', 0);
    let b = index_from(s, '.', a + 1);
    let c = index_from(s, '.', b + 1);
    let d = index_from(s, '.', c + 1);
    let e = index_from(s, '.', d + 1);
    (a, b, c, d, e)
}

/// The text has exactly six parts with dots between them.
pub open spec fn has_six_parts(s: Seq<char>) -> bool {
    let (a, b, c, d, e) = dots(s);
    e < s.len() && index_from(s, '.', e + 1) == s.len()
}

/// What a text means as a title, or why it is none: the number of parts is
/// looked at first, then the parts from the first to the last.
pub open spec fn parse_net_spec(s: Seq<char>) -> Result<NetView, NetError> {
    let (a, b, c, d, e) = dots(s);
    if !has_six_parts(s) {
        Err(NetError::InvalidFormat)
    } else if !is_hex_word(s.subrange(0, a), 2) {
        Err(NetError::InvalidAfi)
    } else if !is_hex_word(s.subrange(a + 1, b), 4) {
        Err(NetError::InvalidArea)
    } else if !is_system_id(s.subrange(b + 1, e)) {
        Err(NetError::InvalidSystemId)
    } else if !is_hex_word(s.subrange(e + 1, s.len() as int), 2) {
        Err(NetError::InvalidSelector)
    } else {
        Ok(
            NetView {
                afi: s.subrange(0, a),
                area: s.subrange(a + 1, b),
                system: s.subrange(b + 1, e),
                selector: s.subrange(e + 1, s.len() as int),
            },
        )
    }
}

impl Net {
    /// The title of the four parts.
    pub fn new(afi: NetAFI, area: NetArea, system: NetSystemId, selector: NetSelector) -> (r: Net)
        ensures
            r@ == (NetView { afi: afi@, area: area@, system: system@, selector: selector@ }),
    {
        Net { afi, area, system, selector }
    }

    /// Whether the two titles are the same in every part.
    pub fn same(&self, other: &Net) -> (r: bool)
        ensures
            r == (self@ == other@),
    {
        text_same(self.afi.as_str(), other.afi.as_str()) && text_same(
            self.area.as_str(),
            other.area.as_str(),
        ) && text_same(self.system.as_str(), other.system.as_str()) && text_same(
            self.selector.as_str(),
            other.selector.as_str(),
        )
    }

    pub fn afi(&self) -> (r: &NetAFI)
        ensures
            r@ == self@.afi,
    {
        &self.afi
    }

    pub fn area(&self) -> (r: &NetArea)
        ensures
            r@ == self@.area,
    {
        &self.area
    }

    pub fn system(&self) -> (r: &NetSystemId)
        ensures
            r@ == self@.system,
    {
        &self.system
    }

    pub fn selector(&self) -> (r: &NetSelector)
        ensures
            r@ == self@.selector,
    {
        &self.selector
    }

    /// Reads a title from its text.
    pub fn parse_text(s: &str) -> (r: Result<Net, NetError>)
        ensures
            match parse_net_spec(s@) {
                Ok(view) => r is Ok && r->Ok_0@ == view,
                Err(e) => r == Err::<Net, NetError>(e),
            },
    {
        let v = chars_of(s);
        let n: usize = v.len();
        let a: usize = find_from(&v, '.', 0);
        if a >= n {
            return Err(NetError::InvalidFormat);
        }
        let b: usize = find_from(&v, '.', a + 1);
        if b >= n {
            return Err(NetError::InvalidFormat);
        }
        let c: usize = find_from(&v, '.', b + 1);
        if c >= n {
            return Err(NetError::InvalidFormat);
        }
        let d: usize = find_from(&v, '.', c + 1);
        if d >= n {
            return Err(NetError::InvalidFormat);
        }
        let e: usize = find_from(&v, '.', d + 1);
        if e >= n {
            return Err(NetError::InvalidFormat);
        }
        let f: usize = find_from(&v, '.', e + 1);
        if f < n {
            return Err(NetError::InvalidFormat);
        }
        let afi = match NetAFI::from_string(string_of(&v, 0, a)) {
            Ok(x) => x,
            Err(err) => {
                return Err(err);
            },
        };
        let area = match NetArea::from_string(string_of(&v, a + 1, b)) {
            Ok(x) => x,
            Err(err) => {
                return Err(err);
            },
        };
        let system = match NetSystemId::from_string(string_of(&v, b + 1, e)) {
            Ok(x) => x,
            Err(err) => {
                return Err(err);
            },
        };
        let selector = match NetSelector::from_string(string_of(&v, e + 1, n)) {
            Ok(x) => x,
            Err(err) => {
                return Err(err);
            },
        };
        Ok(Net { afi, area, system, selector })
    }

    /// The title of an address of version 4, with the identifier 49, the
    /// area 0001 and the selector 00.
    pub fn from_ipv4(addr: Ipv4Addr) -> (r: Net)
        ensures
            r@ == net_of_ipv4(addr.0),
    {
        Net {
            afi: NetAFI::default(),
            area: NetArea::default(),
            system: NetSystemId::from_ipv4(addr),
            selector: NetSelector::default(),
        }
    }

    /// The title of an address of version 6, with the identifier 49, the
    /// area 0001 and the selector 00.
    pub fn from_ipv6(addr: Ipv6Addr) -> (r: Net)
        ensures
            r@ == net_of_ipv6(addr.0),
    {
        Net {
            afi: NetAFI::default(),
            area: NetArea::default(),
            system: NetSystemId::from_ipv6(addr),
            selector: NetSelector::default(),
        }
    }

    /// The title of an address of either family.
    pub fn from_ip(addr: IpAddr) -> (r: Net)
        ensures
            r@ == net_of_ip(addr),
    {
        match addr {
            IpAddr::V4(a) => Net::from_ipv4(a),
            IpAddr::V6(a) => Net::from_ipv6(a),
        }
    }

    /// The title as one text.
    pub fn to_text(&self) -> (r: String)
        ensures
            r@ == self@.text(),
            self@.well_formed(),
    {
        let mut out = String::new();
        out.append(self.afi.as_str());
        out.push('.');
        out.append(self.area.as_str());
        out.push('.');
        out.append(self.system.as_str());
        out.push('.');
        out.append(self.selector.as_str());
        assert(out@ =~= self@.text());
        out
    }
}

impl Clone for NetAFI {
    fn clone(&self) -> (r: Self)
        ensures
            r == *self,
    {
        proof {
            use_type_invariant(self);
        }
        NetAFI(self.0.clone())
    }
}

impl Clone for NetArea {
    fn clone(&self) -> (r: Self)
        ensures
            r == *self,
    {
        proof {
            use_type_invariant(self);
        }
        NetArea(self.0.clone())
    }
}

impl Clone for NetSystemId {
    fn clone(&self) -> (r: Self)
        ensures
            r == *self,
    {
        proof {
            use_type_invariant(self);
        }
        NetSystemId(self.0.clone())
    }
}

impl Clone for NetSelector {
    fn clone(&self) -> (r: Self)
        ensures
            r == *self,
    {
        proof {
            use_type_invariant(self);
        }
        NetSelector(self.0.clone())
    }
}

impl Clone for Net {
    fn clone(&self) -> (r: Self)
        ensures
            r == *self,
    {
        Net {
            afi: self.afi.clone(),
            area: self.area.clone(),
            system: self.system.clone(),
            selector: self.selector.clone(),
        }
    }
}

/// The title of an address of version 4.
pub open spec fn net_of_ipv4(v: u32) -> NetView {
    NetView {
        afi: seq!['4', '9'],
        area: seq!['0', '0', '0', '1'],
        system: system_id_of_ipv4(v),
        selector: seq!['0', '0'],
    }
}

/// The title of an address of version 6.
pub open spec fn net_of_ipv6(v: u128) -> NetView {
    NetView {
        afi: seq!['4', '9'],
        area: seq!['0', '0', '0', '1'],
        system: system_id_of_ipv6(v),
        selector: seq!['0', '0'],
    }
}

/// The title of an address of either family.
pub open spec fn net_of_ip(a: IpAddr) -> NetView {
    match a {
        IpAddr::V4(a) => net_of_ipv4(a.0),
        IpAddr::V6(a) => net_of_ipv6(a.0),
    }
}

} // verus!
