//! Target configuration and its validation.
//!
//! A raw configuration carries an optional single address, an optional
//! address block, and an inclusive port range. Validation turns it into a
//! `TargetSpec` — exactly one address selector plus a non-empty port range
//! starting at 1 or above — or rejects it, before any connection attempt is
//! made.

use vstd::prelude::*;
use crate::addr::Addr;
use crate::addr::Block;

verus! {

/// The address selector of a target: a single host or a whole block.
#[derive(Clone, Copy, PartialEq, Eq, Structural, Debug)]
pub enum Selector {
    One(Addr),
    Net(Block),
}

impl Selector {
    /// A selector is well formed when its block, if any, is well formed.
    pub open spec fn wf(self) -> bool {
        match self {
            Selector::One(_) => true,
            Selector::Net(b) => b.wf(),
        }
    }

    /// Whether the selector covers the address.
    pub open spec fn covers(self, a: Addr) -> bool {
        match self {
            Selector::One(x) => a == x,
            Selector::Net(b) => b.contains(a),
        }
    }
}

/// A validated scan target: one selector and an inclusive port range.
#[derive(Clone, Copy, PartialEq, Eq, Structural, Debug)]
pub struct TargetSpec {
    pub sel: Selector,
    pub port_start: u16,
    pub port_end: u16,
}

impl TargetSpec {
    /// Validation guarantees this of every target it returns.
    pub open spec fn wf(self) -> bool {
        &&& self.sel.wf()
        &&& 1 <= self.port_start <= self.port_end
    }
}

/// A raw configuration, as the command line hands it over.
#[derive(Clone, Copy, PartialEq, Eq, Structural, Debug)]
pub struct Config {
    pub addr: Option<Addr>,
    pub block: Option<Block>,
    pub port_start: u16,
    pub port_end: u16,
}

/// Why a configuration was rejected.
#[derive(Clone, Copy, PartialEq, Eq, Structural, Debug)]
pub enum ConfigError {
    /// Both a single address and a block were given.
    AddressAndBlock,
    /// Neither a single address nor a block was given.
    NoTarget,
    /// The port range starts at zero.
    PortStartZero,
    /// The port range starts after it ends.
    EmptyRange,
}

/// What `validate` returns on each configuration.
pub open spec fn spec_validate(cfg: Config) -> Result<TargetSpec, ConfigError> {
    if cfg.addr is Some && cfg.block is Some {
        Err(ConfigError::AddressAndBlock)
    } else if cfg.addr is None && cfg.block is None {
        Err(ConfigError::NoTarget)
    } else if cfg.port_start == 0 {
        Err(ConfigError::PortStartZero)
    } else if cfg.port_start > cfg.port_end {
        Err(ConfigError::EmptyRange)
    } else {
        Ok(TargetSpec {
            sel: match cfg.addr {
                Some(a) => Selector::One(a),
                None => Selector::Net(cfg.block->Some_0),
            },
            port_start: cfg.port_start,
            port_end: cfg.port_end,
        })
    }
}

/// Check a raw configuration and build the scan target, or reject it.
///
/// A configuration is accepted if and only if exactly one of the single
/// address and the block is present and the port range satisfies
/// `1 <= port_start <= port_end`; each rejection names the first failing
/// constraint.
pub fn validate(cfg: &Config) -> (r: Result<TargetSpec, ConfigError>)
    ensures
        r == spec_validate(*cfg),
        r is Ok <==> (cfg.addr is Some != cfg.block is Some) && 1 <= cfg.port_start <= cfg.port_end,
        r is Ok && (cfg.block matches Some(b) ==> b.wf()) ==> r->Ok_0.wf(),
{
    match (cfg.addr, cfg.block) {
        (Some(_), Some(_)) => Err(ConfigError::AddressAndBlock),
        (None, None) => Err(ConfigError::NoTarget),
        (addr, block) => {
            if cfg.port_start == 0 {
                Err(ConfigError::PortStartZero)
            } else if cfg.port_start > cfg.port_end {
                Err(ConfigError::EmptyRange)
            } else {
                let sel = match addr {
                    Some(a) => Selector::One(a),
                    None => Selector::Net(block.unwrap()),
                };
                Ok(TargetSpec { sel, port_start: cfg.port_start, port_end: cfg.port_end })
            }
        },
    }
}

impl ConfigError {
    /// What each rejection means, in words.
    pub open spec fn spec_message(self) -> Seq<char> {
        match self {
            ConfigError::AddressAndBlock => "give either a single address or a block, not both"@,
            ConfigError::NoTarget => "give a single address or a block"@,
            ConfigError::PortStartZero => "the port range must start at 1 or above"@,
            ConfigError::EmptyRange => "the port range must not start after it ends"@,
        }
    }

    /// A human-readable line naming the rejected constraint.
    pub fn message(&self) -> (s: String)
        ensures
            s@ == self.spec_message(),
    {
        match self {
            ConfigError::AddressAndBlock => String::from_str(
                "give either a single address or a block, not both",
            ),
            ConfigError::NoTarget => String::from_str("give a single address or a block"),
            ConfigError::PortStartZero => String::from_str(
                "the port range must start at 1 or above",
            ),
            ConfigError::EmptyRange => String::from_str(
                "the port range must not start after it ends",
            ),
        }
    }
}

} // verus!
