//! The run configuration and the rules that build it from command-line flags:
//! the size-mode precedence and the rejection of conflicting mode flags.

use crate::format::{SizeFormatter, SizeMode};
use vstd::prelude::*;

verus! {

/// A rejected invocation.
#[derive(Clone, Copy, Debug, PartialEq, Eq, Structural)]
pub enum UsageError {
    /// More than one of the mutually exclusive size-mode flags was given.
    ConflictingModes,
}

impl UsageError {
    /// A short description, for the binary to print on standard error.
    pub fn message(&self) -> (r: &'static str)
        ensures
            r@ == "the size-mode flags cannot be combined"@,
    {
        "the size-mode flags cannot be combined"
    }
}

/// The run configuration: the scan root, the size mode, and whether divisors
/// are powers of ten. Built once from the command line, immutable after.
#[derive(Debug)]
pub struct Config {
    pub root: String,
    pub mode: SizeMode,
    pub si: bool,
}

/// How many size-mode flags are set.
pub open spec fn mode_flag_count(
    bytes: bool,
    kilobytes: bool,
    megabytes: bool,
    gigabytes: bool,
    human: bool,
) -> int {
    (if bytes { 1int } else { 0int }) + (if kilobytes { 1int } else { 0int }) + (if megabytes {
        1int
    } else {
        0int
    }) + (if gigabytes { 1int } else { 0int }) + (if human { 1int } else { 0int })
}

/// The mode the flags select, under the fixed precedence
/// gigabytes > megabytes > kilobytes > human > bytes.
pub open spec fn spec_mode(kilobytes: bool, megabytes: bool, gigabytes: bool, human: bool) -> SizeMode {
    if gigabytes {
        SizeMode::Gigabytes
    } else if megabytes {
        SizeMode::Megabytes
    } else if kilobytes {
        SizeMode::Kilobytes
    } else if human {
        SizeMode::Human
    } else {
        SizeMode::Bytes
    }
}

impl SizeMode {
    /// The mode selected by the given flags; when none is set, bytes.
    pub fn from_flags(kilobytes: bool, megabytes: bool, gigabytes: bool, human: bool) -> (r: SizeMode)
        ensures
            r == spec_mode(kilobytes, megabytes, gigabytes, human),
    {
        if gigabytes {
            SizeMode::Gigabytes
        } else if megabytes {
            SizeMode::Megabytes
        } else if kilobytes {
            SizeMode::Kilobytes
        } else if human {
            SizeMode::Human
        } else {
            SizeMode::Bytes
        }
    }
}

impl SizeFormatter {
    /// The display policy the given flags select.
    pub fn from_flags(
        kilobytes: bool,
        megabytes: bool,
        gigabytes: bool,
        human: bool,
        si: bool,
    ) -> (r: SizeFormatter)
        ensures
            r.mode == spec_mode(kilobytes, megabytes, gigabytes, human),
            r.si == si,
    {
        SizeFormatter { mode: SizeMode::from_flags(kilobytes, megabytes, gigabytes, human), si }
    }
}

impl Config {
    /// Builds the configuration from the parsed command line. Succeeds exactly
    /// when at most one size-mode flag is set; with two or more the invocation
    /// is rejected as a usage error.
    pub fn build(
        root: String,
        bytes: bool,
        kilobytes: bool,
        megabytes: bool,
        gigabytes: bool,
        human: bool,
        si: bool,
    ) -> (r: Result<Config, UsageError>)
        ensures
            r is Ok <==> mode_flag_count(bytes, kilobytes, megabytes, gigabytes, human) <= 1,
            r matches Ok(c) ==> c.mode == spec_mode(kilobytes, megabytes, gigabytes, human)
                && c.si == si && c.root == root,
            r matches Err(e) ==> e == UsageError::ConflictingModes,
    {
        let mut n: u32 = 0;
        if bytes {
            n = n + 1;
        }
        if kilobytes {
            n = n + 1;
        }
        if megabytes {
            n = n + 1;
        }
        if gigabytes {
            n = n + 1;
        }
        if human {
            n = n + 1;
        }
        if n > 1 {
            Err(UsageError::ConflictingModes)
        } else {
            Ok(Config { root, mode: SizeMode::from_flags(kilobytes, megabytes, gigabytes, human), si })
        }
    }
}

} // verus!
