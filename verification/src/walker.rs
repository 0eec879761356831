//! The dispatch of what the traversal reports.
//!
//! The traversal hands over one event for each node that it visits. Each
//! event is classified here and ends in at most one outcome: at once, or
//! after the caller has run the task that the event was dispatched to and
//! handed back the verdict of the transformation.

use vstd::prelude::*;
use crate::classify::{Entry, EntryView, FileKind, classify, eligible};
use crate::config::{ConfigView, RunConfig};
use crate::mapper::{Action, Task, TaskView, planned, process_img};
use crate::outcome::{
    CauseView, Counts, Failure, FailureCause, FailureView, OutcomeView, Tally, TaskOutcome,
};

verus! {

/// What the traversal reports of one node.
#[derive(Debug, PartialEq, Eq)]
pub enum WalkEvent {
    /// The node was visited.
    Visited(Entry),
    /// The node could not be read; the text is the traversal's report.
    Unreadable(String),
}

/// A traversal event in specifications.
pub enum EventView {
    Visited(EntryView),
    Unreadable(Seq<char>),
}

impl View for WalkEvent {
    type V = EventView;

    open spec fn view(&self) -> EventView {
        match self {
            WalkEvent::Visited(e) => EventView::Visited(e@),
            WalkEvent::Unreadable(report) => EventView::Unreadable(report@),
        }
    }
}

/// What is to happen after an event.
#[derive(Debug, PartialEq, Eq)]
pub enum Step {
    /// Nothing: the node is no regular file and is not counted.
    Pass,
    /// The visit has ended with this outcome.
    Settled(TaskOutcome),
    /// The work to run; its verdict is settled afterwards.
    Perform(Task),
}

/// A step in specifications.
pub enum StepView {
    Pass,
    Settled(OutcomeView),
    Perform(TaskView),
}

impl View for Step {
    type V = StepView;

    open spec fn view(&self) -> StepView {
        match self {
            Step::Pass => StepView::Pass,
            Step::Settled(o) => StepView::Settled(o@),
            Step::Perform(t) => StepView::Perform(t@),
        }
    }
}

/// The verdict of the transformation on one file, in specifications:
/// done, or the report of what went wrong.
pub open spec fn verdict_of(v: Result<(), String>) -> Result<(), Seq<char>> {
    match v {
        Ok(_) => Ok(()),
        Err(report) => Err(report@),
    }
}

/// The failure of the traversal on a node.
pub open spec fn traversal_failure(report: Seq<char>) -> OutcomeView {
    OutcomeView::Failed(FailureView { source: None, cause: CauseView::Traversal(report) })
}

/// The failure to find a destination for a file.
pub open spec fn mapping_failure(entry: EntryView) -> OutcomeView {
    OutcomeView::Failed(FailureView { source: Some(entry.path), cause: CauseView::NoFileName })
}

/// The failure of the transformation on the source of a task.
pub open spec fn transformation_failure(task: TaskView, report: Seq<char>) -> OutcomeView {
    OutcomeView::Failed(
        FailureView { source: Some(task.source), cause: CauseView::Transformation(report) },
    )
}

/// The step that follows an event. An unreadable node is one failure. A
/// node that is no regular file passes uncounted. A regular file that is
/// not eligible is skipped. An eligible file becomes a task, or a failure
/// where it has no destination.
pub open spec fn dispatched(config: ConfigView, event: EventView) -> StepView {
    match event {
        EventView::Unreadable(report) => StepView::Settled(traversal_failure(report)),
        EventView::Visited(entry) => if entry.kind != FileKind::RegularFile {
            StepView::Pass
        } else if !eligible(entry) {
            StepView::Settled(OutcomeView::Skipped)
        } else {
            match planned(config.input_root, config.output_root, entry.path, config.dry_run) {
                Some(task) => StepView::Perform(task),
                None => StepView::Settled(mapping_failure(entry)),
            }
        },
    }
}

/// The outcome of a task that was run. A simulated task counts as
/// processed whatever the verdict says; a real one is processed where the
/// transformation was done, and has failed with its report otherwise.
pub open spec fn settled(task: TaskView, verdict: Result<(), Seq<char>>) -> OutcomeView {
    match task.action {
        Action::Simulate => OutcomeView::Processed,
        Action::Transform => match verdict {
            Ok(_) => OutcomeView::Processed,
            Err(report) => transformation_failure(task, report),
        },
    }
}

/// Classifies one event of the traversal and says what is to happen next.
pub fn dispatch(config: &RunConfig, event: &WalkEvent) -> (step: Step)
    ensures
        step@ == dispatched(config@, event@),
{
    match event {
        WalkEvent::Unreadable(report) => Step::Settled(
            TaskOutcome::Failed(
                Failure { source: None, cause: FailureCause::Traversal(report.clone()) },
            ),
        ),
        WalkEvent::Visited(entry) => {
            if entry.kind != FileKind::RegularFile {
                return Step::Pass;
            }
            if !classify(entry) {
                return Step::Settled(TaskOutcome::Skipped);
            }
            match process_img(&config.input_root, &config.output_root, &entry.path, config.dry_run) {
                Ok(task) => Step::Perform(task),
                Err(_) => Step::Settled(
                    TaskOutcome::Failed(
                        Failure {
                            source: Some(entry.path.clone()),
                            cause: FailureCause::NoFileName,
                        },
                    ),
                ),
            }
        },
    }
}

/// Turns the verdict on a task that was run into its outcome.
pub fn settle(task: &Task, verdict: &Result<(), String>) -> (outcome: TaskOutcome)
    ensures
        outcome@ == settled(task@, verdict_of(*verdict)),
{
    match task.action {
        Action::Simulate => TaskOutcome::Processed,
        Action::Transform => match verdict {
            Ok(_) => TaskOutcome::Processed,
            Err(report) => TaskOutcome::Failed(
                Failure {
                    source: Some(task.source.clone()),
                    cause: FailureCause::Transformation(report.clone()),
                },
            ),
        },
    }
}

/// One node of a finished walk: what the traversal reported of it, and
/// what the transformation answered for it. The verdict bears on the
/// outcome only where the node was dispatched to a real task.
#[derive(Debug, PartialEq, Eq)]
pub struct Observation {
    pub event: WalkEvent,
    pub verdict: Result<(), String>,
}

/// An observation in specifications.
pub struct ObservationView {
    pub event: EventView,
    pub verdict: Result<(), Seq<char>>,
}

impl View for Observation {
    type V = ObservationView;

    open spec fn view(&self) -> ObservationView {
        ObservationView { event: self.event@, verdict: verdict_of(self.verdict) }
    }
}

/// What a recorded walk stands for in specifications.
pub open spec fn trace_of(t: Seq<Observation>) -> Seq<ObservationView> {
    t.map_values(|o: Observation| o@)
}

/// The outcome of one observation; none for a node that is not counted.
pub open spec fn outcome_of(config: ConfigView, seen: ObservationView) -> Option<OutcomeView> {
    match dispatched(config, seen.event) {
        StepView::Pass => None,
        StepView::Settled(outcome) => Some(outcome),
        StepView::Perform(task) => Some(settled(task, seen.verdict)),
    }
}

/// Counting one observation into the counts so far.
pub open spec fn counting(config: ConfigView) -> spec_fn(Counts, ObservationView) -> Counts {
    |c: Counts, seen: ObservationView| c.with_maybe(outcome_of(config, seen))
}

/// The counts of a whole walk: every observation counted, from zero.
pub open spec fn counts_of(config: ConfigView, trace: Seq<ObservationView>) -> Counts {
    trace.fold_left(Counts::zero(), counting(config))
}

/// The counts of a walk, observation by observation.
pub proof fn lemma_counts_of_step(config: ConfigView, trace: Seq<ObservationView>)
    requires
        trace.len() > 0,
    ensures
        counts_of(config, trace) == counts_of(config, trace.drop_last()).with_maybe(
            outcome_of(config, trace.last()),
        ),
        counts_of(config, trace).total() <= counts_of(config, trace.drop_last()).total() + 1,
{
}

/// The outcome of one observation: the event is dispatched and, where it
/// became a task, the verdict on it settled.
pub fn observe(config: &RunConfig, seen: &Observation) -> (r: Option<TaskOutcome>)
    ensures
        match r {
            Some(outcome) => outcome_of(config@, seen@) == Some(outcome@),
            None => outcome_of(config@, seen@).is_none(),
        },
{
    match dispatch(config, &seen.event) {
        Step::Pass => None,
        Step::Settled(outcome) => Some(outcome),
        Step::Perform(task) => Some(settle(&task, &seen.verdict)),
    }
}

/// Replays a finished walk and tallies what each of its observations
/// ended as.
pub fn replay(config: &RunConfig, trace: &Vec<Observation>) -> (tally: Tally)
    ensures
        tally@ == counts_of(config@, trace_of(trace@)),
{
    let mut tally = Tally::new();
    let ghost all = trace_of(trace@);
    let mut i: usize = 0;
    assert(all.take(0) =~= Seq::<ObservationView>::empty());
    while i < trace.len()
        invariant
            i <= trace.len(),
            all == trace_of(trace@),
            tally@ == counts_of(config@, all.take(i as int)),
            tally@.total() <= i,
        decreases trace.len() - i,
    {
        proof {
            assert(all.take(i + 1).drop_last() =~= all.take(i as int));
            assert(all.take(i + 1).last() == trace@[i as int]@);
            lemma_counts_of_step(config@, all.take(i + 1));
        }
        match observe(config, &trace[i]) {
            Some(outcome) => {
                tally.record(&outcome);
            },
            None => {},
        }
        i += 1;
    }
    assert(all.take(trace.len() as int) =~= all);
    tally
}

} // verus!
