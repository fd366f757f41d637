//! The name of a network interface.

use vstd::prelude::*;
use crate::sdn::fabric::section_config::SectionIdError;
use crate::text::{char_is_ascii, chars_of, is_ascii_char};

verus! {

/// `s` is the name of an interface: from 1 to 15 ASCII characters, which is
/// what the kernel takes.
pub open spec fn is_interface_name(s: Seq<char>) -> bool {
    1 <= s.len() <= 15 && forall|i: int| 0 <= i < s.len() ==> is_ascii_char(#[trigger] s[i])
}

/// The name of a network interface.
#[derive(Debug, Hash, PartialEq, Eq, PartialOrd, Ord)]
pub struct InterfaceName(String);

impl View for InterfaceName {
    type V = Seq<char>;

    closed spec fn view(&self) -> Seq<char> {
        self.0@
    }
}

impl Clone for InterfaceName {
    fn clone(&self) -> (r: Self)
        ensures
            r == *self,
    {
        proof {
            use_type_invariant(self);
        }
        InterfaceName(self.0.clone())
    }
}

impl InterfaceName {
    #[verifier::type_invariant]
    spec fn well_formed(self) -> bool {
        is_interface_name(self.0@)
    }

    /// The interface name with the given text.
    pub fn from_string(s: String) -> (r: Result<InterfaceName, SectionIdError>)
        ensures
            is_interface_name(s@) ==> r is Ok && r->Ok_0@ == s@,
            !is_interface_name(s@) ==> r == Err::<InterfaceName, SectionIdError>(
                SectionIdError::InvalidInterfaceName,
            ),
    {
        let v = chars_of(s.as_str());
        if v.len() < 1 || v.len() > 15 {
            return Err(SectionIdError::InvalidInterfaceName);
        }
        let mut i: usize = 0;
        while i < v.len()
            invariant
                i <= v.len(),
                v@ == s@,
                forall|j: int| 0 <= j < i ==> is_ascii_char(#[trigger] v@[j]),
            decreases v.len() - i,
        {
            if !char_is_ascii(v[i]) {
                assert(!is_ascii_char(s@[i as int]));
                return Err(SectionIdError::InvalidInterfaceName);
            }
            i = i + 1;
        }
        Ok(InterfaceName(s))
    }

    pub fn as_str(&self) -> (r: &str)
        ensures
            r@ == self@,
            is_interface_name(r@),
    {
        proof {
            use_type_invariant(self);
        }
        self.0.as_str()
    }
}

} // verus!
