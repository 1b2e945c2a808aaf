//! Examples: the leaves of a test tree.

use vstd::prelude::*;
use crate::header::{ExampleHeader, ExampleLabel};
use crate::report::ExampleReport;

verus! {

/// Something that judges an environment and reports what it found.
pub trait Assertion<T>: Send + Sync {
    /// Whether `report` is what one run on `environment` may return.
    spec fn verdict(&self, environment: T, report: ExampleReport) -> bool;

    /// Judges `environment` once.
    fn check(&self, environment: &T) -> (report: ExampleReport)
        ensures
            self.verdict(*environment, report),
    ;
}

/// An assertion made of a closure.
pub struct ClosureAssertion<T, F: Fn(&T) -> ExampleReport> {
    function: F,
    environment: core::marker::PhantomData<T>,
}

impl<T, F: Fn(&T) -> ExampleReport> ClosureAssertion<T, F> {
    /// The closure that the assertion runs.
    pub closed spec fn function(self) -> F {
        self.function
    }

    #[verifier::type_invariant]
    spec fn accepts_every_environment(self) -> bool {
        forall|environment: &T| call_requires(self.function, (environment,))
    }

    pub fn new(function: F) -> (assertion: Self)
        requires
            forall|environment: &T| call_requires(function, (environment,)),
        ensures
            assertion.function() == function,
    {
        ClosureAssertion { function, environment: core::marker::PhantomData }
    }
}

impl<T: Send + Sync, F: Fn(&T) -> ExampleReport + Send + Sync> Assertion<T> for ClosureAssertion<T, F> {
    open spec fn verdict(&self, environment: T, report: ExampleReport) -> bool {
        call_ensures(self.function(), (&environment,), report)
    }

    fn check(&self, environment: &T) -> (report: ExampleReport) {
        proof {
            use_type_invariant(self);
        }
        (self.function)(environment)
    }
}

/// Test examples are the smallest unit of a testing framework, wrapping one
/// or more assertions.
#[verifier::reject_recursive_types(T)]
pub struct Example<T> {
    pub header: ExampleHeader,
    pub function: Box<dyn Assertion<T>>,
}

impl<T: Send + Sync + 'static> Example<T> {
    pub fn new<F>(header: ExampleHeader, assertion: F) -> (example: Self) where
        F: 'static + Fn(&T) -> ExampleReport + Send + Sync,

        requires
            forall|environment: &T| call_requires(assertion, (environment,)),
        ensures
            example.header == header,
            forall|environment: T, report: ExampleReport|
                #[trigger] example.function.verdict(environment, report) <==> call_ensures(
                    assertion,
                    (&environment,),
                    report,
                ),
    {
        Example { header: header, function: Box::new(ClosureAssertion::new(assertion)) }
    }

    /// An example that succeeds on every environment.
    pub fn fixture_success() -> (example: Self)
        ensures
            example.header == (ExampleHeader { label: ExampleLabel::It, name: "example" }),
            forall|environment: T, report: ExampleReport|
                #[trigger] example.function.verdict(environment, report) ==> report
                    == ExampleReport::Success,
    {
        let assertion = |environment: &T| -> (report: ExampleReport)
            ensures
                report == ExampleReport::Success,
            { ExampleReport::Success };
        Example::new(ExampleHeader::default(), assertion)
    }

    /// An example that is ignored on every environment.
    pub fn fixture_ignored() -> (example: Self)
        ensures
            example.header == (ExampleHeader { label: ExampleLabel::It, name: "example" }),
            forall|environment: T, report: ExampleReport|
                #[trigger] example.function.verdict(environment, report) ==> report
                    == ExampleReport::Ignored,
    {
        let assertion = |environment: &T| -> (report: ExampleReport)
            ensures
                report == ExampleReport::Ignored,
            { ExampleReport::Ignored };
        Example::new(ExampleHeader::default(), assertion)
    }

    /// An example that fails on every environment, without a diagnostic.
    pub fn fixture_failed() -> (example: Self)
        ensures
            example.header == (ExampleHeader { label: ExampleLabel::It, name: "example" }),
            forall|environment: T, report: ExampleReport|
                #[trigger] example.function.verdict(environment, report) ==> report
                    == ExampleReport::Failure(None),
    {
        let assertion = |environment: &T| -> (report: ExampleReport)
            ensures
                report == ExampleReport::Failure(None),
            { ExampleReport::Failure(None) };
        Example::new(ExampleHeader::default(), assertion)
    }
}

} // verus!
