//! The run controller: validating the roots, running the walk, reporting.
//!
//! The controller decides and never acts. The caller probes the roots,
//! creates the output directory, runs the walk and writes the log; after
//! each such act it hands the controller what came of it and is told
//! what to do next.

use vstd::prelude::*;
use crate::config::{RunConfig, WalkPolicy, policy_for};
use crate::outcome::{Counts, Tally};
use crate::report::{ConfigError, RunStatus, status_of, walk_status};

verus! {

/// What the caller found where the two roots should be.
#[derive(Clone, Copy, Debug, PartialEq, Eq, Structural)]
pub struct RootProbe {
    /// Whether the input root exists and is a directory.
    pub input_is_dir: bool,
    /// Whether anything exists at the output root.
    pub output_exists: bool,
    /// Whether the output root exists and is a directory.
    pub output_is_dir: bool,
}

/// Where a run stands.
#[derive(Clone, Copy, Debug, PartialEq, Eq, Structural)]
pub enum ControlState {
    /// The roots are being checked. `creating_output` is set while the
    /// caller creates the missing output root.
    Validating { creating_output: bool },
    /// The walk is under way.
    Running,
    /// The walk is over, and its summary is being logged.
    Reporting(RunStatus),
    /// The run is over.
    Done(RunStatus),
}

/// What the caller reports to the controller.
#[derive(Clone, Copy, Debug, PartialEq, Eq)]
pub enum ControlEvent {
    /// The roots were probed.
    RootsProbed(RootProbe),
    /// The creation of the output root was tried; `true` where it is
    /// there now.
    OutputCreated(bool),
    /// The walk and every task dispatched by it have completed.
    WalkCompleted(Tally),
    /// The summary was logged.
    Reported,
}

/// A control event in specifications.
pub enum ControlEventView {
    RootsProbed(RootProbe),
    OutputCreated(bool),
    WalkCompleted(Counts),
    Reported,
}

impl View for ControlEvent {
    type V = ControlEventView;

    open spec fn view(&self) -> ControlEventView {
        match self {
            ControlEvent::RootsProbed(p) => ControlEventView::RootsProbed(*p),
            ControlEvent::OutputCreated(ok) => ControlEventView::OutputCreated(*ok),
            ControlEvent::WalkCompleted(t) => ControlEventView::WalkCompleted(t@),
            ControlEvent::Reported => ControlEventView::Reported,
        }
    }
}

/// What the controller tells the caller to do.
#[derive(Clone, Copy, Debug, PartialEq, Eq, Structural)]
pub enum Command {
    /// Create the output root, with the directories above it, and report
    /// whether that succeeded.
    CreateOutput,
    /// Walk the input root under this policy, and report the tally once
    /// everything has completed.
    Walk(WalkPolicy),
    /// Log the summary of the walk, with a warning unless the status is a
    /// success, and report back.
    Report(RunStatus),
    /// Leave with this status.
    Exit(RunStatus),
    /// Give up before any traversal.
    Abort(ConfigError),
    /// Nothing: the event has no place in the present state.
    Ignore,
}

/// A state together with the command that led into it.
#[derive(Clone, Copy, Debug, PartialEq, Eq, Structural)]
pub struct Transition {
    pub next: ControlState,
    pub command: Command,
}

/// The state in which every run starts.
pub open spec fn initial() -> ControlState {
    ControlState::Validating { creating_output: false }
}

/// What follows the probe of the roots. The input root is judged first:
/// it has to be a directory. An output root that exists has to be a
/// directory too; one that is missing is created.
pub open spec fn after_probe(threads: usize, probe: RootProbe) -> Transition {
    if !probe.input_is_dir {
        Transition {
            next: ControlState::Done(RunStatus::Fatal(ConfigError::InputNotDirectory)),
            command: Command::Abort(ConfigError::InputNotDirectory),
        }
    } else if !probe.output_exists {
        Transition {
            next: ControlState::Validating { creating_output: true },
            command: Command::CreateOutput,
        }
    } else if !probe.output_is_dir {
        Transition {
            next: ControlState::Done(RunStatus::Fatal(ConfigError::OutputNotDirectory)),
            command: Command::Abort(ConfigError::OutputNotDirectory),
        }
    } else {
        Transition { next: ControlState::Running, command: Command::Walk(policy_for(threads)) }
    }
}

/// The transition that an event causes in a state. An event that has no
/// place in the state changes nothing. `Done` is terminal.
pub open spec fn advanced(threads: usize, state: ControlState, event: ControlEventView) -> Transition {
    match (state, event) {
        (
            ControlState::Validating { creating_output: false },
            ControlEventView::RootsProbed(probe),
        ) => after_probe(threads, probe),
        (
            ControlState::Validating { creating_output: true },
            ControlEventView::OutputCreated(created),
        ) => if created {
            Transition { next: ControlState::Running, command: Command::Walk(policy_for(threads)) }
        } else {
            Transition {
                next: ControlState::Done(RunStatus::Fatal(ConfigError::OutputNotCreated)),
                command: Command::Abort(ConfigError::OutputNotCreated),
            }
        },
        (ControlState::Running, ControlEventView::WalkCompleted(counts)) => Transition {
            next: ControlState::Reporting(status_of(counts)),
            command: Command::Report(status_of(counts)),
        },
        (ControlState::Reporting(status), ControlEventView::Reported) => Transition {
            next: ControlState::Done(status),
            command: Command::Exit(status),
        },
        _ => Transition { next: state, command: Command::Ignore },
    }
}

/// The state in which every run starts: validating, with nothing probed
/// yet.
pub fn start() -> (state: ControlState)
    ensures
        state == initial(),
{
    ControlState::Validating { creating_output: false }
}

/// Takes one step of a run: from the present state and what the caller
/// reports, to the next state and what the caller is to do.
pub fn advance(config: &RunConfig, state: ControlState, event: &ControlEvent) -> (t: Transition)
    ensures
        t == advanced(config.threads, state, event@),
{
    match state {
        ControlState::Validating { creating_output } => {
            if creating_output {
                match event {
                    ControlEvent::OutputCreated(created) => {
                        if *created {
                            Transition {
                                next: ControlState::Running,
                                command: Command::Walk(config.walk_policy()),
                            }
                        } else {
                            Transition {
                                next: ControlState::Done(
                                    RunStatus::Fatal(ConfigError::OutputNotCreated),
                                ),
                                command: Command::Abort(ConfigError::OutputNotCreated),
                            }
                        }
                    },
                    _ => Transition { next: state, command: Command::Ignore },
                }
            } else {
                match event {
                    ControlEvent::RootsProbed(probe) => {
                        if !probe.input_is_dir {
                            Transition {
                                next: ControlState::Done(
                                    RunStatus::Fatal(ConfigError::InputNotDirectory),
                                ),
                                command: Command::Abort(ConfigError::InputNotDirectory),
                            }
                        } else if !probe.output_exists {
                            Transition {
                                next: ControlState::Validating { creating_output: true },
                                command: Command::CreateOutput,
                            }
                        } else if !probe.output_is_dir {
                            Transition {
                                next: ControlState::Done(
                                    RunStatus::Fatal(ConfigError::OutputNotDirectory),
                                ),
                                command: Command::Abort(ConfigError::OutputNotDirectory),
                            }
                        } else {
                            Transition {
                                next: ControlState::Running,
                                command: Command::Walk(config.walk_policy()),
                            }
                        }
                    },
                    _ => Transition { next: state, command: Command::Ignore },
                }
            }
        },
        ControlState::Running => match event {
            ControlEvent::WalkCompleted(tally) => {
                let status = walk_status(tally);
                Transition { next: ControlState::Reporting(status), command: Command::Report(status) }
            },
            _ => Transition { next: state, command: Command::Ignore },
        },
        ControlState::Reporting(status) => match event {
            ControlEvent::Reported => Transition {
                next: ControlState::Done(status),
                command: Command::Exit(status),
            },
            _ => Transition { next: state, command: Command::Ignore },
        },
        ControlState::Done(_) => Transition { next: state, command: Command::Ignore },
    }
}

/// Only a configuration error stops a run before its walk, and no walk
/// ends a run early: an abort comes out of validation alone, and from
/// running the only way on is the report of a completed walk.
pub proof fn lemma_only_validation_aborts(
    threads: usize,
    state: ControlState,
    event: ControlEventView,
)
    ensures
        advanced(threads, state, event).command is Abort ==> state is Validating && advanced(
            threads,
            state,
            event,
        ).next is Done,
        state is Running ==> advanced(threads, state, event).next is Running || advanced(
            threads,
            state,
            event,
        ).next is Reporting,
        state is Done ==> advanced(threads, state, event).next == state,
        advanced(threads, state, event).command is Walk ==> state is Validating && advanced(
            threads,
            state,
            event,
        ).next is Running,
{
}

} // verus!
