//! The name of a bridge.

use vstd::prelude::*;
use vstd::string::StringSliceAdditionalSpecFns;
use crate::views::byte_len;

verus! {

/// Why a text is no bridge name.
#[derive(Debug, PartialEq, Eq, Structural, PartialOrd, Ord, Clone, Copy)]
pub enum BridgeNameError {
    TooLong,
}

/// The name of a bridge: at most 15 bytes, which is what the kernel takes.
#[derive(Debug, PartialEq, Eq, PartialOrd, Ord)]
pub struct BridgeName(String);

impl View for BridgeName {
    type V = Seq<char>;

    closed spec fn view(&self) -> Seq<char> {
        self.0@
    }
}

impl Clone for BridgeName {
    fn clone(&self) -> (r: Self)
        ensures
            r == *self,
    {
        proof {
            use_type_invariant(self);
        }
        BridgeName(self.0.clone())
    }
}

impl BridgeName {
    #[verifier::type_invariant]
    spec fn well_formed(self) -> bool {
        byte_len(self.0@) <= 15
    }

    /// The bridge name with the given text.
    pub fn new(name: String) -> (r: Result<BridgeName, BridgeNameError>)
        ensures
            byte_len(name@) <= 15 ==> r is Ok && r->Ok_0@ == name@,
            byte_len(name@) > 15 ==> r == Err::<BridgeName, BridgeNameError>(
                BridgeNameError::TooLong,
            ),
    {
        let t: &str = name.as_str();
        let n: usize = t.as_bytes().len();
        assert(n == byte_len(name@)) by {
            assert(t.spec_bytes() == vstd::utf8::encode_utf8(t@));
        }
        if n > 15 {
            return Err(BridgeNameError::TooLong);
        }
        Ok(BridgeName(name))
    }

    /// Reads a bridge name from its text.
    pub fn parse_text(s: &str) -> (r: Result<BridgeName, BridgeNameError>)
        ensures
            byte_len(s@) <= 15 ==> r is Ok && r->Ok_0@ == s@,
            byte_len(s@) > 15 ==> r == Err::<BridgeName, BridgeNameError>(BridgeNameError::TooLong),
    {
        BridgeName::new(String::from_str(s))
    }

    pub fn name(&self) -> (r: &str)
        ensures
            r@ == self@,
            byte_len(r@) <= 15,
    {
        proof {
            use_type_invariant(self);
        }
        self.0.as_str()
    }
}

} // verus!
