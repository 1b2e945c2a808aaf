//! Reports: the outcome tree that mirrors a test tree.

use vstd::prelude::*;
use crate::header::{ContextHeader, ExampleHeader, SuiteHeader};
use crate::shape::Shape;

verus! {

/// The outcome of one example.
#[derive(PartialEq, Eq, Debug)]
pub enum ExampleReport {
    Success,
    Ignored,
    Failure(Option<String>),
}

/// The outcome of one block: of an example, or of a nested context.
#[derive(PartialEq, Eq, Debug)]
pub enum BlockReport {
    Example(ExampleHeader, ExampleReport),
    Context(Option<ContextHeader>, ContextReport),
}

/// The outcomes of a context's blocks, in declaration order.
#[derive(PartialEq, Eq, Debug)]
pub struct ContextReport {
    pub sub_reports: Vec<BlockReport>,
}

/// The outcome of a whole suite.
#[derive(PartialEq, Eq, Debug)]
pub struct SuiteReport {
    pub header: SuiteHeader,
    pub context: ContextReport,
}

impl Clone for ExampleReport {
    /// A copy of the same kind: it fails where this report fails.
    fn clone(&self) -> (copy: Self)
        ensures
            *self is Success <==> copy is Success,
            *self is Ignored <==> copy is Ignored,
            *self is Failure <==> copy is Failure,
    {
        match self {
            ExampleReport::Success => ExampleReport::Success,
            ExampleReport::Ignored => ExampleReport::Ignored,
            ExampleReport::Failure(reason) => ExampleReport::Failure(reason.clone()),
        }
    }
}

impl Clone for BlockReport {
    /// A copy with the same shape and as many failures.
    fn clone(&self) -> (copy: Self)
        ensures
            copy.shape() == self.shape(),
            copy.failures() == self.failures(),
        decreases self,
    {
        match self {
            BlockReport::Example(header, report) => BlockReport::Example(*header, report.clone()),
            BlockReport::Context(header, report) => BlockReport::Context(*header, report.clone()),
        }
    }
}

impl Clone for ContextReport {
    /// A copy with the same shapes and as many failures.
    fn clone(&self) -> (copy: Self)
        ensures
            copy.shapes() == self.shapes(),
            copy.failures() == self.failures(),
        decreases self,
    {
        let mut sub_reports: Vec<BlockReport> = Vec::new();
        let mut i: usize = 0;
        while i < self.sub_reports.len()
            invariant
                i <= self.sub_reports.len(),
                sub_reports@.len() == i,
                shapes_among(sub_reports@, i as nat) == shapes_among(self.sub_reports@, i as nat),
                failures_among(sub_reports@, i as nat) == failures_among(
                    self.sub_reports@,
                    i as nat,
                ),
            decreases self.sub_reports.len() - i,
        {
            let copy = self.sub_reports[i].clone();
            proof {
                lemma_among_ignores_what_follows(sub_reports@, sub_reports@.push(copy), i as nat);
            }
            sub_reports.push(copy);
            i += 1;
        }
        ContextReport { sub_reports }
    }
}

impl Clone for SuiteReport {
    /// A copy with the same header, the same shapes and as many failures.
    fn clone(&self) -> (copy: Self)
        ensures
            copy.header == self.header,
            copy.context.shapes() == self.context.shapes(),
            copy.failures() == self.failures(),
    {
        SuiteReport { header: self.header, context: self.context.clone() }
    }
}

impl From<()> for ExampleReport {
    /// An example that returns nothing has succeeded.
    fn from(value: ()) -> (report: ExampleReport) {
        ExampleReport::Success
    }
}

impl vstd::std_specs::convert::FromSpecImpl<()> for ExampleReport {
    open spec fn obeys_from_spec() -> bool {
        true
    }

    open spec fn from_spec(value: ()) -> ExampleReport {
        ExampleReport::Success
    }
}

impl From<bool> for ExampleReport {
    /// An example that returns `true` has succeeded, one that returns `false`
    /// has failed.
    fn from(value: bool) -> (report: ExampleReport) {
        if value {
            ExampleReport::Success
        } else {
            ExampleReport::Failure(None)
        }
    }
}

impl vstd::std_specs::convert::FromSpecImpl<bool> for ExampleReport {
    open spec fn obeys_from_spec() -> bool {
        true
    }

    open spec fn from_spec(value: bool) -> ExampleReport {
        if value {
            ExampleReport::Success
        } else {
            ExampleReport::Failure(None)
        }
    }
}

impl<V, E> From<Result<V, E>> for ExampleReport {
    /// An example that returns `Ok` has succeeded, one that returns `Err` has
    /// failed.
    fn from(value: Result<V, E>) -> (report: ExampleReport) {
        match value {
            Ok(_) => ExampleReport::Success,
            Err(_) => ExampleReport::Failure(None),
        }
    }
}

impl<V, E> vstd::std_specs::convert::FromSpecImpl<Result<V, E>> for ExampleReport {
    open spec fn obeys_from_spec() -> bool {
        true
    }

    open spec fn from_spec(value: Result<V, E>) -> ExampleReport {
        match value {
            Ok(_) => ExampleReport::Success,
            Err(_) => ExampleReport::Failure(None),
        }
    }
}

impl ExampleReport {
    /// Only a `Failure` fails; `Success` and `Ignored` do not.
    pub open spec fn failing(self) -> bool {
        self is Failure
    }

    pub fn is_failure(&self) -> (b: bool)
        ensures
            b == self.failing(),
    {
        match self {
            ExampleReport::Failure(_) => true,
            _ => false,
        }
    }

    pub fn is_success(&self) -> (b: bool)
        ensures
            b == !self.failing(),
    {
        !self.is_failure()
    }
}

impl BlockReport {
    /// The number of `Failure` leaves in this block.
    pub open spec fn failures(self) -> nat
        decreases self, 0nat,
    {
        match self {
            BlockReport::Example(_, report) => if report.failing() { 1 } else { 0 },
            BlockReport::Context(_, report) => report.failures(),
        }
    }

    pub open spec fn failing(self) -> bool {
        self.failures() > 0
    }

    /// The headers of this report and of all that it holds.
    pub open spec fn shape(self) -> Shape
        decreases self, 0nat,
    {
        match self {
            BlockReport::Example(header, _) => Shape::Example(header),
            BlockReport::Context(header, report) => Shape::Context(header, report.shapes()),
        }
    }

    pub fn is_failure(&self) -> (b: bool)
        ensures
            b == self.failing(),
        decreases self,
    {
        match self {
            BlockReport::Example(_, report) => report.is_failure(),
            BlockReport::Context(_, report) => report.is_failure(),
        }
    }

    pub fn is_success(&self) -> (b: bool)
        ensures
            b == !self.failing(),
    {
        !self.is_failure()
    }
}

/// The number of `Failure` leaves in the first `n` of `reports`.
pub open spec fn failures_among(reports: Seq<BlockReport>, n: nat) -> nat
    decreases reports, n,
{
    if n == 0 || n > reports.len() {
        0
    } else {
        failures_among(reports, (n - 1) as nat) + reports[n - 1].failures()
    }
}

/// The shapes of the first `n` of `reports`, in their order.
pub open spec fn shapes_among(reports: Seq<BlockReport>, n: nat) -> Seq<Shape>
    decreases reports, n,
{
    if n == 0 || n > reports.len() {
        Seq::empty()
    } else {
        shapes_among(reports, (n - 1) as nat).push(reports[n - 1].shape())
    }
}

impl ContextReport {
    /// The shapes of the reports of the context's blocks, in their order.
    pub open spec fn shapes(self) -> Seq<Shape>
        decreases self, 1nat,
    {
        shapes_among(self.sub_reports@, self.sub_reports@.len())
    }

    pub fn new(sub_reports: Vec<BlockReport>) -> (report: Self)
        ensures
            report.sub_reports == sub_reports,
    {
        ContextReport { sub_reports }
    }

    /// The number of `Failure` leaves anywhere below this context.
    pub open spec fn failures(self) -> nat
        decreases self, 1nat,
    {
        failures_among(self.sub_reports@, self.sub_reports@.len())
    }

    pub open spec fn failing(self) -> bool {
        self.failures() > 0
    }

    pub fn is_failure(&self) -> (b: bool)
        ensures
            b == self.failing(),
        decreases self,
    {
        let mut i: usize = 0;
        while i < self.sub_reports.len()
            invariant
                i <= self.sub_reports.len(),
                failures_among(self.sub_reports@, i as nat) == 0,
            decreases self.sub_reports.len() - i,
        {
            if self.sub_reports[i].is_failure() {
                proof {
                    lemma_failures_among_monotone(
                        self.sub_reports@,
                        (i + 1) as nat,
                        self.sub_reports@.len(),
                    );
                }
                return true;
            }
            i += 1;
        }
        false
    }

    pub fn is_success(&self) -> (b: bool)
        ensures
            b == !self.failing(),
    {
        !self.is_failure()
    }
}

impl SuiteReport {
    pub fn new(header: SuiteHeader, context: ContextReport) -> (report: Self)
        ensures
            report == (SuiteReport { header, context }),
    {
        SuiteReport { header, context }
    }

    /// What a run that made this report has to say: nothing where no example
    /// failed, else the report.
    pub fn into_outcome(self) -> (outcome: Result<(), SuiteReport>)
        ensures
            outcome == (if self.failing() {
                Err::<(), SuiteReport>(self)
            } else {
                Ok::<(), SuiteReport>(())
            }),
    {
        if self.is_failure() {
            Err(self)
        } else {
            Ok(())
        }
    }

    /// The number of `Failure` leaves anywhere in the suite.
    pub open spec fn failures(self) -> nat {
        self.context.failures()
    }

    pub open spec fn failing(self) -> bool {
        self.failures() > 0
    }

    pub fn is_failure(&self) -> (b: bool)
        ensures
            b == self.failing(),
    {
        self.context.is_failure()
    }

    pub fn is_success(&self) -> (b: bool)
        ensures
            b == !self.failing(),
    {
        !self.is_failure()
    }
}

/// The shapes of the first `n` reports are `n`, and each is the shape of the
/// report at its place.
pub proof fn lemma_shapes_among(reports: Seq<BlockReport>, n: nat)
    requires
        n <= reports.len(),
    ensures
        shapes_among(reports, n).len() == n,
        forall|i: int| 0 <= i < n ==> shapes_among(reports, n)[i] == (#[trigger] reports[i]).shape(),
    decreases n,
{
    if n > 0 {
        lemma_shapes_among(reports, (n - 1) as nat);
    }
}

/// A block counts a failure exactly where it holds a failed example: a
/// context's report fails if and only if one of its blocks' reports fails.
pub proof fn lemma_context_fails_with_a_block(report: ContextReport)
    ensures
        report.failing() <==> exists|i: int|
            0 <= i < report.sub_reports@.len() && (#[trigger] report.sub_reports@[i]).failing(),
{
    lemma_failures_among_some(report.sub_reports@, report.sub_reports@.len());
}

/// The first `n` reports hold a failure if and only if one of them fails.
pub proof fn lemma_failures_among_some(reports: Seq<BlockReport>, n: nat)
    requires
        n <= reports.len(),
    ensures
        failures_among(reports, n) > 0 <==> exists|i: int|
            0 <= i < n && (#[trigger] reports[i]).failing(),
    decreases n,
{
    if n > 0 {
        lemma_failures_among_some(reports, (n - 1) as nat);
        if reports[n - 1].failing() {
        } else if failures_among(reports, n) > 0 {
            let i = choose|i: int| 0 <= i < n - 1 && (#[trigger] reports[i]).failing();
            assert(0 <= i < n && reports[i].failing());
        } else {
            assert forall|i: int| 0 <= i < n implies !(#[trigger] reports[i]).failing() by {
                if i < n - 1 {
                }
            }
        }
    }
}

/// The shapes and the failures of the first `n` reports are those of the
/// first `n` of any sequence that begins with the same `n` reports.
pub proof fn lemma_among_ignores_what_follows(
    reports: Seq<BlockReport>,
    longer: Seq<BlockReport>,
    n: nat,
)
    requires
        n <= reports.len() <= longer.len(),
        forall|i: int| 0 <= i < n ==> reports[i] == longer[i],
    ensures
        shapes_among(reports, n) == shapes_among(longer, n),
        failures_among(reports, n) == failures_among(longer, n),
    decreases n,
{
    if n > 0 {
        lemma_among_ignores_what_follows(reports, longer, (n - 1) as nat);
    }
}

/// Counting more blocks never counts fewer failures.
pub proof fn lemma_failures_among_monotone(reports: Seq<BlockReport>, m: nat, n: nat)
    requires
        m <= n <= reports.len(),
    ensures
        failures_among(reports, m) <= failures_among(reports, n),
    decreases n,
{
    if m < n {
        lemma_failures_among_monotone(reports, m, (n - 1) as nat);
    }
}

} // verus!
