//! The number of a guest.

use vstd::prelude::*;
use crate::text::{dec_text, parse_u32, parse_u32_spec, push_dec};

verus! {

/// A text is no guest number.
#[derive(Clone, Copy, Debug, PartialEq, Eq, Structural)]
pub struct VmidError;

/// The number that identifies a guest.
#[derive(Clone, Copy, Debug, Eq, PartialEq, Structural, PartialOrd, Ord, Hash)]
pub struct Vmid(u32);

impl Vmid {
    /// The number.
    pub closed spec fn value(self) -> u32 {
        self.0
    }

    pub fn new(id: u32) -> (r: Vmid)
        ensures
            r.value() == id,
    {
        Vmid(id)
    }

    pub fn raw_value(&self) -> (r: u32)
        ensures
            r == self.value(),
    {
        self.0
    }

    /// Reads a guest number from its text.
    pub fn parse_text(s: &str) -> (r: Result<Vmid, VmidError>)
        ensures
            match parse_u32_spec(s@) {
                Some(n) => r is Ok && r->Ok_0.value() == n,
                None => r is Err,
            },
    {
        match parse_u32(s) {
            Some(n) => Ok(Vmid(n)),
            None => Err(VmidError),
        }
    }

    /// The number in decimal.
    pub fn to_text(&self) -> (r: String)
        ensures
            r@ == dec_text(self.value() as nat),
    {
        let mut out = String::new();
        push_dec(&mut out, self.0);
        assert(out@ =~= dec_text(self.value() as nat));
        out
    }
}

} // verus!
