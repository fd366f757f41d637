//! What a rule of the firewall decides, and for which traffic.

use vstd::prelude::*;

verus! {

/// What happens to a packet.
#[derive(Clone, Copy, Debug, PartialEq, Eq, Structural, Hash, PartialOrd, Ord)]
pub enum Verdict {
    Accept,
    Reject,
    Drop,
}

/// The direction of the traffic that a rule looks at.
#[derive(Clone, Copy, Debug, PartialEq, Eq, Structural, Hash, PartialOrd, Ord)]
pub enum Direction {
    In,
    Out,
    Forward,
}

} // verus!
