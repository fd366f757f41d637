//! The OSPF area: a number of 32 bits, written as a number or like an
//! address of version 4. The form that was entered is kept.

use vstd::prelude::*;
use crate::ip_address::text::{ipv4_text, lemma_ipv4_round_trip, parse_ipv4_spec};
use crate::ip_address::Ipv4Addr;
use crate::text::{
    dec_text, is_ascii_char, is_digit, is_whitespace, lemma_dec_text, lemma_parse_dec_text,
    parse_u32, parse_u32_spec, push_dec,
};

verus! {

/// A text is neither a number nor an address.
#[derive(Clone, Copy, Debug, PartialEq, Eq, Structural)]
pub struct AreaError;

/// An OSPF area.
#[derive(Debug, Clone, Copy, Hash, PartialEq, Eq, Structural, PartialOrd, Ord)]
pub enum Area {
    Number(u32),
    IpAddress(Ipv4Addr),
}

/// What a text means as an area: an address where it reads as one, else a
/// number where it reads as one.
pub open spec fn parse_area_spec(s: Seq<char>) -> Option<Area> {
    match parse_ipv4_spec(s) {
        Some(ip) => Some(Area::IpAddress(ip)),
        None => match parse_u32_spec(s) {
            Some(n) => Some(Area::Number(n)),
            None => None,
        },
    }
}

impl Area {
    /// The area as a number of 32 bits.
    pub open spec fn number(self) -> u32 {
        match self {
            Area::Number(n) => n,
            Area::IpAddress(ip) => ip.0,
        }
    }

    /// The area as text, in the form that was entered.
    pub open spec fn text(self) -> Seq<char> {
        match self {
            Area::Number(n) => dec_text(n as nat),
            Area::IpAddress(ip) => ipv4_text(ip.0),
        }
    }

    /// Reads an area from its text.
    pub fn from_text(s: &str) -> (r: Result<Area, AreaError>)
        ensures
            match parse_area_spec(s@) {
                Some(a) => r == Ok::<Area, AreaError>(a),
                None => r is Err,
            },
    {
        match Ipv4Addr::parse_text(s) {
            Some(ip) => Ok(Area::IpAddress(ip)),
            None => match parse_u32(s) {
                Some(n) => Ok(Area::Number(n)),
                None => Err(AreaError),
            },
        }
    }

    /// The area written like an address: the address itself, or the address
    /// with the bits of the number.
    pub fn get_ipv4_representation(&self) -> (ip: Ipv4Addr)
        ensures
            ip.0 == self.number(),
    {
        match self {
            Area::Number(n) => Ipv4Addr::from_bits(*n),
            Area::IpAddress(ip) => *ip,
        }
    }

    /// The area as text, in the form that was entered.
    pub fn to_text(&self) -> (r: String)
        ensures
            r@ == self.text(),
    {
        match self {
            Area::Number(n) => {
                let mut out = String::new();
                push_dec(&mut out, *n);
                assert(out@ =~= dec_text(*n as nat));
                out
            },
            Area::IpAddress(ip) => ip.to_text(),
        }
    }
}


/// The text of an area is made of digits and dots, and reads as a number
/// or as an address.
pub proof fn lemma_area_text(a: Area)
    ensures
        a.text().len() > 0,
        forall|i: int|
            0 <= i < a.text().len() ==> is_ascii_char(#[trigger] a.text()[i]) && !is_whitespace(
                a.text()[i],
            ),
        parse_u32_spec(a.text()) is Some || parse_ipv4_spec(a.text()) is Some,
{
    match a {
        Area::Number(n) => {
            lemma_dec_text(n as nat);
            lemma_parse_dec_text(n);
            let s = dec_text(n as nat);
            assert forall|i: int| 0 <= i < s.len() implies is_ascii_char(#[trigger] s[i])
                && !is_whitespace(s[i]) by {
                assert(is_digit(s[i]));
            }
        },
        Area::IpAddress(ip) => {
            lemma_ipv4_round_trip(ip.0);
            let v = ip.0;
            let ta = dec_text((v / 0x100_0000) as nat);
            let tb = dec_text(((v / 0x1_0000) % 256) as nat);
            let tc = dec_text(((v / 0x100) % 256) as nat);
            let td = dec_text((v % 256) as nat);
            lemma_dec_text((v / 0x100_0000) as nat);
            lemma_dec_text(((v / 0x1_0000) % 256) as nat);
            lemma_dec_text(((v / 0x100) % 256) as nat);
            lemma_dec_text((v % 256) as nat);
            let s = ipv4_text(v);
            let a1 = ta.len() as int;
            let b1 = a1 + 1 + tb.len();
            let c1 = b1 + 1 + tc.len();
            assert forall|i: int| 0 <= i < s.len() implies is_ascii_char(#[trigger] s[i])
                && !is_whitespace(s[i]) by {
                if i < a1 {
                    assert(s[i] == ta[i]);
                    assert(is_digit(ta[i]));
                } else if i == a1 {
                    assert(s[i] == '.');
                } else if i < b1 {
                    assert(s[i] == tb[i - a1 - 1]);
                    assert(is_digit(tb[i - a1 - 1]));
                } else if i == b1 {
                    assert(s[i] == '.');
                } else if i < c1 {
                    assert(s[i] == tc[i - b1 - 1]);
                    assert(is_digit(tc[i - b1 - 1]));
                } else if i == c1 {
                    assert(s[i] == '.');
                } else {
                    assert(s[i] == td[i - c1 - 1]);
                    assert(is_digit(td[i - c1 - 1]));
                }
            }
        },
    }
}

/// The text of an area reads as that area, but for an area that was
/// entered as a number whose text reads as an address, which there is none.
pub proof fn lemma_area_round_trip(a: Area)
    ensures
        parse_area_spec(a.text()) == Some(a),
{
    match a {
        Area::Number(n) => {
            lemma_dec_text(n as nat);
            lemma_parse_dec_text(n);
            let s = dec_text(n as nat);
            let p = crate::text::index_from(s, '.', 0);
            crate::text::lemma_index_from(s, '.', 0);
            if p < s.len() {
                assert(is_digit(s[p]));
            }
        },
        Area::IpAddress(ip) => {
            lemma_ipv4_round_trip(ip.0);
        },
    }
}

} // verus!
