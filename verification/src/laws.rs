//! What holds of every walk: how the counts relate to what was visited.

use vstd::prelude::*;
use vstd::seq_lib::{commutative_foldl, lemma_fold_left_permutation};
use crate::classify::{FileKind, eligible};
use crate::config::ConfigView;
use crate::mapper::{Action, destination, planned};
use crate::outcome::{Counts, OutcomeView};
use crate::path::file_name_of;
use crate::walker::{
    EventView, ObservationView, StepView, counting, counts_of, dispatched, lemma_counts_of_step,
    outcome_of,
};

verus! {

/// The classes of observations that the laws count.
pub enum Class {
    /// A visited regular file.
    RegularFile,
    /// A node that the traversal could not read.
    WalkError,
    /// A visited regular file that is eligible.
    Eligible,
    /// A visited regular file that is not eligible.
    Ineligible,
    /// An eligible file on which the transformation's verdict is a
    /// failure.
    Rejected,
}

/// Whether an observation is of a class.
pub open spec fn belongs(seen: ObservationView, class: Class) -> bool {
    match seen.event {
        EventView::Unreadable(_) => class == Class::WalkError,
        EventView::Visited(entry) => match class {
            Class::RegularFile => entry.kind == FileKind::RegularFile,
            Class::WalkError => false,
            Class::Eligible => eligible(entry),
            Class::Ineligible => entry.kind == FileKind::RegularFile && !eligible(entry),
            Class::Rejected => eligible(entry) && seen.verdict.is_err(),
        },
    }
}

/// The number of observations of a class in a walk.
pub open spec fn count(trace: Seq<ObservationView>, class: Class) -> nat
    decreases trace.len(),
{
    if trace.len() == 0 {
        0
    } else {
        count(trace.drop_last(), class) + if belongs(trace.last(), class) {
            1nat
        } else {
            0nat
        }
    }
}

/// The failures of the transformation that a run counts: a dry run asks
/// for no verdict and counts none.
pub open spec fn rejections(config: ConfigView, trace: Seq<ObservationView>) -> nat {
    if config.dry_run {
        0
    } else {
        count(trace, Class::Rejected)
    }
}

/// Every eligible file has a destination, so dispatching one always
/// gives a task: a simulated one in a dry run, a real one otherwise.
pub proof fn lemma_eligible_is_dispatched(config: ConfigView, seen: ObservationView)
    requires
        belongs(seen, Class::Eligible),
    ensures
        dispatched(config, seen.event) is Perform,
        dispatched(config, seen.event)->Perform_0.action == if config.dry_run {
            Action::Simulate
        } else {
            Action::Transform
        },
{
    let entry = seen.event->Visited_0;
    assert(file_name_of(entry.path).is_some());
    assert(destination(config.input_root, config.output_root, entry.path).is_some());
    assert(planned(config.input_root, config.output_root, entry.path, config.dry_run).is_some());
}

/// What one observation adds to the counts, by its class.
pub proof fn lemma_outcome_by_class(config: ConfigView, seen: ObservationView)
    ensures
        outcome_of(config, seen) is None <==> !belongs(seen, Class::RegularFile) && !belongs(
            seen,
            Class::WalkError,
        ),
        outcome_of(config, seen) == Some(OutcomeView::Skipped) <==> belongs(
            seen,
            Class::Ineligible,
        ),
        outcome_of(config, seen) == Some(OutcomeView::Processed) <==> belongs(
            seen,
            Class::Eligible,
        ) && (config.dry_run || !belongs(seen, Class::Rejected)),
        belongs(seen, Class::RegularFile) <==> belongs(seen, Class::Eligible) || belongs(
            seen,
            Class::Ineligible,
        ),
        belongs(seen, Class::Rejected) ==> belongs(seen, Class::Eligible),
{
    if belongs(seen, Class::Eligible) {
        lemma_eligible_is_dispatched(config, seen);
    }
}

/// The counts of a walk, class by class. Skipped are the regular files
/// that are not eligible. Failed are the unreadable nodes and the
/// eligible files whose transformation failed. Processed are the other
/// eligible files.
pub proof fn lemma_counts_by_class(config: ConfigView, trace: Seq<ObservationView>)
    ensures
        counts_of(config, trace).skipped == count(trace, Class::Ineligible),
        counts_of(config, trace).failed == count(trace, Class::WalkError) + rejections(
            config,
            trace,
        ),
        counts_of(config, trace).processed + rejections(config, trace) == count(
            trace,
            Class::Eligible,
        ),
        count(trace, Class::Eligible) + count(trace, Class::Ineligible) == count(
            trace,
            Class::RegularFile,
        ),
        count(trace, Class::Rejected) <= count(trace, Class::Eligible),
    decreases trace.len(),
{
    if trace.len() > 0 {
        lemma_counts_by_class(config, trace.drop_last());
        lemma_counts_of_step(config, trace);
        lemma_outcome_by_class(config, trace.last());
    }
}

/// Once a walk is complete, the three counters add up to the number of
/// regular files visited and of nodes that could not be read.
/// Directories, symbolic links and other nodes are never counted.
pub proof fn lemma_every_visit_counted_once(config: ConfigView, trace: Seq<ObservationView>)
    ensures
        counts_of(config, trace).total() == count(trace, Class::RegularFile) + count(
            trace,
            Class::WalkError,
        ),
{
    lemma_counts_by_class(config, trace);
}

/// Where the traversal read every node, the three counters add up to
/// the number of regular files visited.
pub proof fn lemma_total_is_regular_files(config: ConfigView, trace: Seq<ObservationView>)
    requires
        count(trace, Class::WalkError) == 0,
    ensures
        counts_of(config, trace).total() == count(trace, Class::RegularFile),
{
    lemma_counts_by_class(config, trace);
}

/// A dry run over a tree that the traversal could read processes every
/// eligible file, skips every other regular file and fails on none; and
/// no event of it is dispatched to a task that writes.
pub proof fn lemma_dry_run_counts(config: ConfigView, trace: Seq<ObservationView>)
    requires
        config.dry_run,
        count(trace, Class::WalkError) == 0,
    ensures
        counts_of(config, trace).processed == count(trace, Class::Eligible),
        counts_of(config, trace).skipped == count(trace, Class::Ineligible),
        counts_of(config, trace).failed == 0,
        forall|i: int|
            0 <= i < trace.len() ==> match #[trigger] dispatched(config, trace[i].event) {
                StepView::Perform(task) => task.action == Action::Simulate,
                _ => true,
            },
{
    lemma_counts_by_class(config, trace);
}

/// In a real run over a tree that the traversal could read, one failed
/// transformation is one failure and nothing more: every other eligible
/// file is processed, and every other regular file skipped.
pub proof fn lemma_one_failure_stays_alone(config: ConfigView, trace: Seq<ObservationView>)
    requires
        !config.dry_run,
        count(trace, Class::WalkError) == 0,
        count(trace, Class::Rejected) == 1,
    ensures
        counts_of(config, trace).processed == count(trace, Class::Eligible) - 1,
        counts_of(config, trace).failed == 1,
        counts_of(config, trace).skipped == count(trace, Class::Ineligible),
{
    lemma_counts_by_class(config, trace);
}

/// The order of a walk does not matter: two walks that hold the same
/// observations, each as often as the other, have the same counts.
pub proof fn lemma_order_does_not_matter(
    config: ConfigView,
    first: Seq<ObservationView>,
    second: Seq<ObservationView>,
)
    requires
        first.to_multiset() == second.to_multiset(),
    ensures
        counts_of(config, first) == counts_of(config, second),
{
    let f = counting(config);
    assert(commutative_foldl(f)) by {
        assert forall|x: ObservationView, y: ObservationView, v: Counts| #[trigger]
            f(f(v, x), y) == f(f(v, y), x) by {
            let a = outcome_of(config, x);
            let b = outcome_of(config, y);
            assert(v.with_maybe(a).with_maybe(b) == v.with_maybe(b).with_maybe(a));
        }
    }
    lemma_fold_left_permutation(first, second, f, Counts::zero());
}

/// The events of a walk, without the verdicts.
pub open spec fn events_of(trace: Seq<ObservationView>) -> Seq<EventView> {
    trace.map_values(|seen: ObservationView| seen.event)
}

/// An event together with the verdict that the transformation was done.
pub open spec fn done(event: EventView) -> ObservationView {
    ObservationView { event, verdict: Ok(()) }
}

/// Counting one event of a walk on which no transformation fails.
pub open spec fn counting_done(config: ConfigView) -> spec_fn(Counts, EventView) -> Counts {
    |c: Counts, event: EventView| c.with_maybe(outcome_of(config, done(event)))
}

/// Where a run counts no failed transformation, its counts follow from
/// its events alone.
pub proof fn lemma_counts_follow_from_events(config: ConfigView, trace: Seq<ObservationView>)
    requires
        rejections(config, trace) == 0,
    ensures
        counts_of(config, trace) == events_of(trace).fold_left(
            Counts::zero(),
            counting_done(config),
        ),
    decreases trace.len(),
{
    let events = events_of(trace);
    if trace.len() > 0 {
        let last = trace.last();
        lemma_counts_follow_from_events(config, trace.drop_last());
        lemma_counts_of_step(config, trace);
        assert(events.drop_last() =~= events_of(trace.drop_last()));
        assert(events.last() == last.event);
        if belongs(last, Class::Eligible) {
            lemma_eligible_is_dispatched(config, last);
            lemma_eligible_is_dispatched(config, done(last.event));
        }
        assert(outcome_of(config, last) == outcome_of(config, done(last.event)));
    }
}

/// Running again on an unchanged tree gives the same counts. Two walks
/// that report the same events, each as often as the other and in
/// whatever order, and in which no transformation fails, agree in every
/// counter.
pub proof fn lemma_rerun_same_counts(
    config: ConfigView,
    first: Seq<ObservationView>,
    second: Seq<ObservationView>,
)
    requires
        events_of(first).to_multiset() == events_of(second).to_multiset(),
        rejections(config, first) == 0,
        rejections(config, second) == 0,
    ensures
        counts_of(config, first) == counts_of(config, second),
{
    let f = counting_done(config);
    assert(commutative_foldl(f)) by {
        assert forall|x: EventView, y: EventView, v: Counts| #[trigger]
            f(f(v, x), y) == f(f(v, y), x) by {
            let a = outcome_of(config, done(x));
            let b = outcome_of(config, done(y));
            assert(v.with_maybe(a).with_maybe(b) == v.with_maybe(b).with_maybe(a));
        }
    }
    lemma_counts_follow_from_events(config, first);
    lemma_counts_follow_from_events(config, second);
    lemma_fold_left_permutation(events_of(first), events_of(second), f, Counts::zero());
}

} // verus!
