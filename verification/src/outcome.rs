//! Task outcomes and the tally of a run.

use vstd::prelude::*;
use crate::path::{FilePath, Part};

verus! {

/// What made a visit fail.
#[derive(Debug, PartialEq, Eq)]
pub enum FailureCause {
    /// The traversal could not read a node; the text is its report.
    Traversal(String),
    /// No destination could be computed for the file.
    NoFileName,
    /// The transformation gave up on the file; the text is its report.
    Transformation(String),
}

/// A failure cause in specifications.
pub enum CauseView {
    Traversal(Seq<char>),
    NoFileName,
    Transformation(Seq<char>),
}

impl View for FailureCause {
    type V = CauseView;

    open spec fn view(&self) -> CauseView {
        match self {
            FailureCause::Traversal(m) => CauseView::Traversal(m@),
            FailureCause::NoFileName => CauseView::NoFileName,
            FailureCause::Transformation(m) => CauseView::Transformation(m@),
        }
    }
}

/// A failure: the file it befell, where one is known, and its cause.
#[derive(Debug, PartialEq, Eq)]
pub struct Failure {
    pub source: Option<FilePath>,
    pub cause: FailureCause,
}

/// A failure in specifications.
pub struct FailureView {
    pub source: Option<Seq<Part>>,
    pub cause: CauseView,
}

impl View for Failure {
    type V = FailureView;

    open spec fn view(&self) -> FailureView {
        FailureView {
            source: match self.source {
                Some(p) => Some(p@),
                None => None,
            },
            cause: self.cause@,
        }
    }
}

/// How the visit of one file ended.
#[derive(Debug, PartialEq, Eq)]
pub enum TaskOutcome {
    /// The file was transformed, or its transformation simulated.
    Processed,
    /// The file is not of a kind that is transformed.
    Skipped,
    /// The file was to be transformed, and that failed; or the traversal
    /// failed on a node.
    Failed(Failure),
}

/// An outcome in specifications.
pub enum OutcomeView {
    Processed,
    Skipped,
    Failed(FailureView),
}

impl View for TaskOutcome {
    type V = OutcomeView;

    open spec fn view(&self) -> OutcomeView {
        match self {
            TaskOutcome::Processed => OutcomeView::Processed,
            TaskOutcome::Skipped => OutcomeView::Skipped,
            TaskOutcome::Failed(f) => OutcomeView::Failed(f@),
        }
    }
}

/// The three counts of a run, as numbers without a bound.
pub struct Counts {
    pub processed: nat,
    pub skipped: nat,
    pub failed: nat,
}

impl Counts {
    /// No outcome counted yet.
    pub open spec fn zero() -> Counts {
        Counts { processed: 0, skipped: 0, failed: 0 }
    }

    /// The number of outcomes counted.
    pub open spec fn total(self) -> nat {
        self.processed + self.skipped + self.failed
    }

    /// These counts and one more outcome.
    pub open spec fn with(self, outcome: OutcomeView) -> Counts {
        match outcome {
            OutcomeView::Processed => Counts { processed: self.processed + 1, ..self },
            OutcomeView::Skipped => Counts { skipped: self.skipped + 1, ..self },
            OutcomeView::Failed(_) => Counts { failed: self.failed + 1, ..self },
        }
    }

    /// These counts and one more outcome, where the visit had one.
    pub open spec fn with_maybe(self, outcome: Option<OutcomeView>) -> Counts {
        match outcome {
            Some(o) => self.with(o),
            None => self,
        }
    }
}

/// The tally of a run: how many visits ended as processed, as skipped and
/// as failed. The counters only grow, by one outcome at a time.
#[derive(Clone, Copy, Debug, PartialEq, Eq)]
pub struct Tally {
    processed: usize,
    skipped: usize,
    failed: usize,
}

impl View for Tally {
    type V = Counts;

    closed spec fn view(&self) -> Counts {
        Counts {
            processed: self.processed as nat,
            skipped: self.skipped as nat,
            failed: self.failed as nat,
        }
    }
}

impl Tally {
    #[verifier::type_invariant]
    spec fn inv(&self) -> bool {
        self.processed + self.skipped + self.failed <= usize::MAX
    }

    /// The tally at the start of a run: every counter at zero.
    pub fn new() -> (t: Tally)
        ensures
            t@ == Counts::zero(),
    {
        Tally { processed: 0, skipped: 0, failed: 0 }
    }

    /// The number of processed files.
    pub fn processed(&self) -> (n: usize)
        ensures
            n == self@.processed,
    {
        self.processed
    }

    /// The number of skipped files.
    pub fn skipped(&self) -> (n: usize)
        ensures
            n == self@.skipped,
    {
        self.skipped
    }

    /// The number of failures.
    pub fn failed(&self) -> (n: usize)
        ensures
            n == self@.failed,
    {
        self.failed
    }

    /// The number of outcomes counted so far.
    pub fn total(&self) -> (n: usize)
        ensures
            n == self@.total(),
    {
        proof {
            use_type_invariant(self);
        }
        self.processed + self.skipped + self.failed
    }

    /// Counts one more outcome: the counter of its kind grows by one, and
    /// the other two stay.
    pub fn record(&mut self, outcome: &TaskOutcome)
        requires
            old(self)@.total() < usize::MAX,
        ensures
            final(self)@ == old(self)@.with(outcome@),
    {
        proof {
            use_type_invariant(&*self);
        }
        match outcome {
            TaskOutcome::Processed => {
                self.processed = self.processed + 1;
            },
            TaskOutcome::Skipped => {
                self.skipped = self.skipped + 1;
            },
            TaskOutcome::Failed(_) => {
                self.failed = self.failed + 1;
            },
        }
    }
}

/// Counting commutes: two outcomes counted in either order give the same
/// counts.
pub proof fn lemma_counting_commutes(c: Counts, a: OutcomeView, b: OutcomeView)
    ensures
        c.with(a).with(b) == c.with(b).with(a),
{
}

/// Counting never lowers a counter, and raises the total by one.
pub proof fn lemma_counting_is_monotonic(c: Counts, o: OutcomeView)
    ensures
        c.with(o).processed >= c.processed,
        c.with(o).skipped >= c.skipped,
        c.with(o).failed >= c.failed,
        c.with(o).total() == c.total() + 1,
{
}

} // verus!
