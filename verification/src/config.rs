//! What a run is configured with, and the policy that its traversal
//! follows.

use vstd::prelude::*;
use crate::path::{FilePath, Part};

verus! {

/// The settings of one run. They are fixed before the run starts.
#[derive(Debug, PartialEq, Eq)]
pub struct RunConfig {
    /// The directory that is walked. It is only read.
    pub input_root: FilePath,
    /// The directory that receives the results, laid out as the input is.
    pub output_root: FilePath,
    /// The number of worker threads asked for; zero leaves the choice to
    /// the traversal.
    pub threads: usize,
    /// Whether the run only says what it would do.
    pub dry_run: bool,
}

/// The settings of a run in specifications.
pub struct ConfigView {
    pub input_root: Seq<Part>,
    pub output_root: Seq<Part>,
    pub threads: usize,
    pub dry_run: bool,
}

impl View for RunConfig {
    type V = ConfigView;

    open spec fn view(&self) -> ConfigView {
        ConfigView {
            input_root: self.input_root@,
            output_root: self.output_root@,
            threads: self.threads,
            dry_run: self.dry_run,
        }
    }
}

/// How many workers walk the tree.
#[derive(Clone, Copy, Debug, PartialEq, Eq, Structural)]
pub enum Workers {
    /// As many as the traversal sees fit, commonly one for each
    /// processing unit.
    Auto,
    /// This many.
    Fixed(usize),
}

/// The rules that the traversal is asked to follow.
#[derive(Clone, Copy, Debug, PartialEq, Eq, Structural)]
pub struct WalkPolicy {
    /// Whether symbolic links to directories are walked into.
    pub follow_links: bool,
    /// Whether entries whose name starts with a dot are visited.
    pub include_hidden: bool,
    /// Whether entries named by ignore files are left out.
    pub respect_ignore_rules: bool,
    pub workers: Workers,
}

/// The workers that a thread count asks for: zero leaves the choice open.
pub open spec fn workers_for(threads: usize) -> Workers {
    if threads == 0 {
        Workers::Auto
    } else {
        Workers::Fixed(threads)
    }
}

/// The policy of every run: symbolic links are not followed, hidden
/// entries are visited, and ignore rules are respected.
pub open spec fn policy_for(threads: usize) -> WalkPolicy {
    WalkPolicy {
        follow_links: false,
        include_hidden: true,
        respect_ignore_rules: true,
        workers: workers_for(threads),
    }
}

impl RunConfig {
    /// The policy that the traversal of this run follows.
    pub fn walk_policy(&self) -> (p: WalkPolicy)
        ensures
            p == policy_for(self.threads),
    {
        let workers = if self.threads == 0 {
            Workers::Auto
        } else {
            Workers::Fixed(self.threads)
        };
        WalkPolicy {
            follow_links: false,
            include_hidden: true,
            respect_ignore_rules: true,
            workers,
        }
    }
}

/// How much of what happens is logged.
#[derive(Clone, Copy, Debug, PartialEq, Eq, Structural)]
pub enum LogLevel {
    Info,
    Debug,
}

/// The level that the verbosity asks for, where the environment leaves
/// the choice open: debug with any verbosity, info without.
pub open spec fn level_for(verbose: u8, environment_decides: bool) -> Option<LogLevel> {
    if environment_decides {
        None
    } else if verbose > 0 {
        Some(LogLevel::Debug)
    } else {
        Some(LogLevel::Info)
    }
}

/// The level to log at; none where the environment has set one, which
/// then stands.
pub fn log_level(verbose: u8, environment_decides: bool) -> (level: Option<LogLevel>)
    ensures
        level == level_for(verbose, environment_decides),
{
    if environment_decides {
        None
    } else if verbose > 0 {
        Some(LogLevel::Debug)
    } else {
        Some(LogLevel::Info)
    }
}

} // verus!
