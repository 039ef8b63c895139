//! Settings that are given as small numbers on the command line.

use vstd::prelude::*;

verus! {

/// What indexing does when a track cannot be read any further.
#[derive(Clone, Copy, Debug, PartialEq, Eq, Structural)]
pub enum ErrorPolicy {
    /// Skip what cannot be read and go on.
    Ignore,
    /// Stop indexing the track and keep what was indexed of it.
    StopTrack,
    /// Drop everything that was indexed of the track.
    ClearTrack,
    /// Give up the whole index.
    Abort,
}

impl ErrorPolicy {
    /// The policy that stands behind a level: 0, 1 and 2 are the three
    /// tolerant ones in the order above, every higher level aborts.
    pub open spec fn of_level(level: nat) -> ErrorPolicy {
        if level == 0 {
            ErrorPolicy::Ignore
        } else if level == 1 {
            ErrorPolicy::StopTrack
        } else if level == 2 {
            ErrorPolicy::ClearTrack
        } else {
            ErrorPolicy::Abort
        }
    }

    /// The policy that stands behind a level.
    pub fn from_level(level: usize) -> (policy: ErrorPolicy)
        ensures
            policy == ErrorPolicy::of_level(level as nat),
    {
        match level {
            0 => ErrorPolicy::Ignore,
            1 => ErrorPolicy::StopTrack,
            2 => ErrorPolicy::ClearTrack,
            _ => ErrorPolicy::Abort,
        }
    }
}

/// How much the decoder says about its work.
#[derive(Clone, Copy, Debug, PartialEq, Eq, Structural)]
pub enum LogLevel {
    Quiet,
    Warning,
    Info,
    Verbose,
    Debug,
}

impl LogLevel {
    /// The level that a verbosity stands for: 0 is quiet, 1 to 3 say more
    /// and more, anything higher says all.
    pub open spec fn of_verbosity(verbosity: nat) -> LogLevel {
        if verbosity == 0 {
            LogLevel::Quiet
        } else if verbosity == 1 {
            LogLevel::Warning
        } else if verbosity == 2 {
            LogLevel::Info
        } else if verbosity == 3 {
            LogLevel::Verbose
        } else {
            LogLevel::Debug
        }
    }

    /// The level that a verbosity stands for.
    pub fn from_verbosity(verbosity: usize) -> (level: LogLevel)
        ensures
            level == LogLevel::of_verbosity(verbosity as nat),
    {
        match verbosity {
            0 => LogLevel::Quiet,
            1 => LogLevel::Warning,
            2 => LogLevel::Info,
            3 => LogLevel::Verbose,
            _ => LogLevel::Debug,
        }
    }
}

} // verus!
