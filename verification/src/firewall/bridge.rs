//! The firewall of a bridge.

use vstd::prelude::*;
use crate::firewall::types::log::LogLevel;
use crate::firewall::types::rule::Verdict;

verus! {

/// Whether the firewall of a bridge is on where its options do not say.
pub const BRIDGE_ENABLED_DEFAULT: bool = false;

/// What happens to forwarded traffic where the options of a bridge do not
/// say.
pub open spec fn bridge_policy_forward() -> Verdict {
    Verdict::Accept
}

/// The options of the firewall of a bridge, each set or left open.
#[derive(Clone, Copy, Debug, PartialEq, Eq, Structural)]
pub struct Options {
    pub enable: Option<bool>,
    pub policy_forward: Option<Verdict>,
    pub log_level_forward: Option<LogLevel>,
}

impl Default for Options {
    /// The options with every one left open.
    fn default() -> (r: Options)
        ensures
            r == (Options { enable: None, policy_forward: None, log_level_forward: None }),
    {
        Options { enable: None, policy_forward: None, log_level_forward: None }
    }
}

/// The configuration of the firewall of a bridge.
#[derive(Clone, Copy, Debug, PartialEq, Eq, Structural)]
pub struct Config {
    pub options: Options,
}

impl Config {
    /// The configuration with the given options.
    pub fn new(options: Options) -> (r: Config)
        ensures
            r.options == options,
    {
        Config { options }
    }

    /// Whether the firewall is on; it is off where the options do not say.
    pub fn enabled(&self) -> (r: bool)
        ensures
            r == (self.options.enable == Some(true)),
    {
        match self.options.enable {
            Some(on) => on,
            None => BRIDGE_ENABLED_DEFAULT,
        }
    }

    /// How much of the forwarded traffic is logged; nothing where the
    /// options do not say.
    pub fn log_level_forward(&self) -> (r: LogLevel)
        ensures
            r == match self.options.log_level_forward {
                Some(level) => level,
                None => LogLevel::Nolog,
            },
    {
        match self.options.log_level_forward {
            Some(level) => level,
            None => LogLevel::Nolog,
        }
    }

    /// What happens to forwarded traffic; it is accepted where the options
    /// do not say.
    pub fn policy_forward(&self) -> (r: Verdict)
        ensures
            r == match self.options.policy_forward {
                Some(verdict) => verdict,
                None => bridge_policy_forward(),
            },
    {
        match self.options.policy_forward {
            Some(verdict) => verdict,
            None => Verdict::Accept,
        }
    }
}

} // verus!
