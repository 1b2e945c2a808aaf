//! Suites: the roots of test trees.

use std::sync::Arc;
use vstd::prelude::*;
use crate::context::Context;
use crate::header::SuiteHeader;
use crate::report::SuiteReport;
use crate::runner::observer::{told, Event, RunnerObserver};

verus! {

/// The root of a test tree: a header, the root context, and the environment
/// that a run starts from.
#[verifier::reject_recursive_types(T)]
pub struct Suite<T> {
    pub header: SuiteHeader,
    pub environment: T,
    pub context: Context<T>,
}

impl<T> Suite<T> {
    pub fn new(header: SuiteHeader, environment: T, context: Context<T>) -> (suite: Self)
        ensures
            suite == (Suite { header, environment, context }),
    {
        Suite { header: header, environment: environment, context: context }
    }

    /// Whether `report` is a possible outcome of this suite: it has the
    /// suite's header and holds a possible outcome of the root context.
    pub open spec fn admits(self, report: SuiteReport) -> bool {
        &&& report.header == self.header
        &&& self.context.admits(report.context)
    }
}

impl<T: Clone> Suite<T> {
    /// Whether a visit of this suite, with `observers` listening, may turn
    /// the environment `before` into `after` and return `report`: the
    /// observers are told that the suite is entered, the root context is
    /// visited, and the observers are told that the suite is left, with
    /// `report`, which has the suite's header and holds what the visit of
    /// the root context returned.
    pub open spec fn visited_on(
        self,
        observers: Seq<Arc<dyn RunnerObserver>>,
        before: T,
        after: T,
        report: SuiteReport,
    ) -> bool {
        &&& report.header == self.header
        &&& self.context.visited_on(observers, before, after, report.context)
        &&& told(observers, Event::EnterSuite(&self.header))
        &&& told(observers, Event::ExitSuite(&self.header, &report))
    }

    /// Whether a visit of this suite that starts on the environment
    /// `before`, with `observers` listening, may return `report`, however it
    /// leaves the environment.
    pub open spec fn visited_from(
        self,
        observers: Seq<Arc<dyn RunnerObserver>>,
        before: T,
        report: SuiteReport,
    ) -> bool {
        &&& report.header == self.header
        &&& self.context.visited_from(observers, before, report.context)
        &&& told(observers, Event::EnterSuite(&self.header))
        &&& told(observers, Event::ExitSuite(&self.header, &report))
    }

    /// Whether a run of this suite, with `observers` listening, may make
    /// `report`: a visit that starts on a copy of the suite's environment
    /// may return it.
    pub open spec fn ran(self, observers: Seq<Arc<dyn RunnerObserver>>, report: SuiteReport) -> bool {
        exists|start: T|
            #[trigger] cloned(self.environment, start) && self.visited_from(observers, start, report)
    }
}

} // verus!
