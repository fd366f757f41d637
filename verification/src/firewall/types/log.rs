//! Log levels of the firewall.

use vstd::prelude::*;

verus! {

/// How much of what a rule matches is logged.
#[derive(Clone, Copy, Debug, PartialEq, Eq, Structural, Hash, PartialOrd, Ord)]
pub enum LogLevel {
    Nolog,
    Emergency,
    Alert,
    Critical,
    Error,
    Warning,
    Notice,
    Info,
    Debug,
}

impl Default for LogLevel {
    /// Nothing is logged where no level is set.
    fn default() -> (r: LogLevel)
        ensures
            r == LogLevel::Nolog,
    {
        LogLevel::Nolog
    }
}

} // verus!
