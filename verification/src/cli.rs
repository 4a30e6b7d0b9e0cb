//! The commands of the command-line tool, as values.

use vstd::prelude::*;

verus! {

/// What the tool is asked to do.
#[derive(Clone, Debug)]
pub struct Opts {
    /// The command.
    pub command: SubCommand,
    /// Whether to show logs.
    pub verbose: bool,
}

/// A command.
#[derive(Clone, Debug)]
pub enum SubCommand {
    /// A command for the remote system.
    Zeus(SubCommandZeus),
}

/// A command for the remote system.
#[derive(Clone, Debug)]
pub enum SubCommandZeus {
    /// Purchases.
    Buy(SubCommandZeusApcDirPurcAplyE),
}

/// A command on the applications for direct purchases.
#[derive(Clone, Debug)]
pub enum SubCommandZeusApcDirPurcAplyE {
    /// List them.
    Get(SubCommandZeusApcDirPurcAplyEGet),
}

/// The listing of the applications for direct purchases.
#[derive(Clone, Debug)]
pub struct SubCommandZeusApcDirPurcAplyEGet {
    /// The first day, as year, month and day.
    pub aply_fr_dt: Option<String>,
    /// The last day, as year, month and day.
    pub aply_to_dt: Option<String>,
}

/// How much a tool logs.
#[derive(Copy, Clone, Debug, PartialEq, Eq)]
pub enum LogLevel {
    Info,
    Trace,
}

/// The weeks that a listing reaches back where it names no last day.
pub const DEFAULT_WEEKS: u32 = 4;

impl Opts {
    /// How much the tool logs: everything where it was asked to show logs.
    pub fn log_level(&self) -> (r: LogLevel)
        ensures
            r == if self.verbose {
                LogLevel::Trace
            } else {
                LogLevel::Info
            },
    {
        if self.verbose {
            LogLevel::Trace
        } else {
            LogLevel::Info
        }
    }
}

impl SubCommandZeusApcDirPurcAplyEGet {
    /// The first and the last day of the listing, given the texts `earlier`
    /// and `today` of the default first day and of today. The last day of
    /// the command stands for both days where it is given.
    pub fn span(&self, earlier: String, today: String) -> (r: (String, String))
        ensures
            match self.aply_to_dt {
                Some(day) => r.0@ == day@ && r.1@ == day@,
                None => r.0@ == earlier@ && r.1@ == today@,
            },
    {
        match &self.aply_to_dt {
            Some(day) => (day.clone(), day.clone()),
            None => (earlier, today),
        }
    }
}

} // verus!
