//! The bounded numbers of an OpenFabric fabric and of its interfaces.

use vstd::prelude::*;
use crate::text::{dec_text, push_dec};

verus! {

/// A number lies outside the bounds of its kind.
#[derive(Clone, Copy, Debug, PartialEq, Eq, Structural)]
pub struct OutOfRange;

/// The interval, in seconds, between two complete sequence number packets:
/// from 1 to 600.
#[derive(Hash, Debug, Clone, Copy, PartialEq, Eq, Structural, PartialOrd, Ord)]
pub struct CsnpInterval(u16);

/// The interval, in seconds, between two hello packets: from 1 to 600.
#[derive(Hash, Debug, Clone, Copy, PartialEq, Eq, Structural, PartialOrd, Ord)]
pub struct HelloInterval(u16);

/// The multiplier for the hello holding time: from 2 to 100.
#[derive(Hash, Debug, Clone, Copy, PartialEq, Eq, Structural, PartialOrd, Ord)]
pub struct HelloMultiplier(u16);

impl CsnpInterval {
    #[verifier::type_invariant]
    spec fn in_bounds(self) -> bool {
        1 <= self.0 <= 600
    }

    /// The number of seconds.
    pub closed spec fn seconds(self) -> nat {
        self.0 as nat
    }

    pub fn new(value: u16) -> (r: Result<CsnpInterval, OutOfRange>)
        ensures
            1 <= value <= 600 ==> r is Ok && r->Ok_0.seconds() == value,
            !(1 <= value <= 600) ==> r is Err,
    {
        if 1 <= value && value <= 600 {
            Ok(CsnpInterval(value))
        } else {
            Err(OutOfRange)
        }
    }

    pub fn value(&self) -> (v: u16)
        ensures
            v == self.seconds(),
            1 <= v <= 600,
    {
        proof {
            use_type_invariant(self);
        }
        self.0
    }

    /// The number in decimal.
    pub fn to_text(&self) -> (r: String)
        ensures
            r@ == dec_text(self.seconds()),
    {
        let mut out = String::new();
        push_dec(&mut out, self.0 as u32);
        assert(out@ =~= dec_text(self.seconds()));
        out
    }
}

impl HelloInterval {
    #[verifier::type_invariant]
    spec fn in_bounds(self) -> bool {
        1 <= self.0 <= 600
    }

    /// The number of seconds.
    pub closed spec fn seconds(self) -> nat {
        self.0 as nat
    }

    pub fn new(value: u16) -> (r: Result<HelloInterval, OutOfRange>)
        ensures
            1 <= value <= 600 ==> r is Ok && r->Ok_0.seconds() == value,
            !(1 <= value <= 600) ==> r is Err,
    {
        if 1 <= value && value <= 600 {
            Ok(HelloInterval(value))
        } else {
            Err(OutOfRange)
        }
    }

    pub fn value(&self) -> (v: u16)
        ensures
            v == self.seconds(),
            1 <= v <= 600,
    {
        proof {
            use_type_invariant(self);
        }
        self.0
    }

    /// The number in decimal.
    pub fn to_text(&self) -> (r: String)
        ensures
            r@ == dec_text(self.seconds()),
    {
        let mut out = String::new();
        push_dec(&mut out, self.0 as u32);
        assert(out@ =~= dec_text(self.seconds()));
        out
    }
}

impl HelloMultiplier {
    #[verifier::type_invariant]
    spec fn in_bounds(self) -> bool {
        2 <= self.0 <= 100
    }

    /// The factor.
    pub closed spec fn factor(self) -> nat {
        self.0 as nat
    }

    pub fn new(value: u16) -> (r: Result<HelloMultiplier, OutOfRange>)
        ensures
            2 <= value <= 100 ==> r is Ok && r->Ok_0.factor() == value,
            !(2 <= value <= 100) ==> r is Err,
    {
        if 2 <= value && value <= 100 {
            Ok(HelloMultiplier(value))
        } else {
            Err(OutOfRange)
        }
    }

    pub fn value(&self) -> (v: u16)
        ensures
            v == self.factor(),
            2 <= v <= 100,
    {
        proof {
            use_type_invariant(self);
        }
        self.0
    }

    /// The number in decimal.
    pub fn to_text(&self) -> (r: String)
        ensures
            r@ == dec_text(self.factor()),
    {
        let mut out = String::new();
        push_dec(&mut out, self.0 as u32);
        assert(out@ =~= dec_text(self.factor()));
        out
    }
}

} // verus!
