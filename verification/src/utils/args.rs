//! What the command line asks for.

use vstd::prelude::*;

verus! {

/// The arguments of one run.
#[derive(Debug, Clone, Copy, PartialEq, Eq)]
pub struct Args {
    /// How often more output was asked for.
    pub verbose: u8,
    /// Whether all output is to be suppressed.
    pub quiet: bool,
    /// What to do.
    pub command: Subcommands,
}

/// The commands.
#[derive(Debug, Clone, Copy, PartialEq, Eq)]
pub enum Subcommands {
    /// Manage licenses.
    License,
    /// Display manual pages.
    Manual,
    /// Manage packages.
    Pkg,
    /// Manage repositories.
    Repo,
}

/// How much is logged.
#[derive(Debug, Clone, Copy, PartialEq, Eq)]
pub enum LogLevel {
    Off,
    Info,
    Debug,
    Trace,
}

impl Args {
    /// The level that the arguments ask for: nothing when quiet, else more
    /// with each request for it.
    pub open spec fn level(self) -> LogLevel {
        if self.quiet {
            LogLevel::Off
        } else if self.verbose == 0 {
            LogLevel::Info
        } else if self.verbose == 1 {
            LogLevel::Debug
        } else {
            LogLevel::Trace
        }
    }

    /// The level that the arguments ask for.
    pub fn log_level(&self) -> (r: LogLevel)
        ensures
            r == self.level(),
    {
        if self.quiet {
            LogLevel::Off
        } else if self.verbose == 0 {
            LogLevel::Info
        } else if self.verbose == 1 {
            LogLevel::Debug
        } else {
            LogLevel::Trace
        }
    }
}

} // verus!
