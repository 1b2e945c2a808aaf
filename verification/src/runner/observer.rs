//! Observers: the listeners that a runner tells of its progress.

use std::sync::Arc;
use vstd::prelude::*;
use crate::header::{ContextHeader, ExampleHeader, SuiteHeader};
use crate::report::{ContextReport, ExampleReport, SuiteReport};

verus! {

/// A listener for the events of a run. Every method does nothing unless an
/// observer says otherwise. Under parallel evaluation the methods are called
/// from several threads at once.
pub trait RunnerObserver: Send + Sync {
    fn enter_suite(&self, header: &SuiteHeader) {
    }

    fn exit_suite(&self, header: &SuiteHeader, report: &SuiteReport) {
    }

    fn enter_context(&self, header: &ContextHeader) {
    }

    fn exit_context(&self, header: &ContextHeader, report: &ContextReport) {
    }

    fn enter_example(&self, header: &ExampleHeader) {
    }

    fn exit_example(&self, header: &ExampleHeader, report: &ExampleReport) {
    }
}

/// What an observer is told: that a node is entered, or that it is left and
/// with what report.
pub enum Event<'a> {
    EnterSuite(&'a SuiteHeader),
    ExitSuite(&'a SuiteHeader, &'a SuiteReport),
    EnterContext(&'a ContextHeader),
    ExitContext(&'a ContextHeader, &'a ContextReport),
    EnterExample(&'a ExampleHeader),
    ExitExample(&'a ExampleHeader, &'a ExampleReport),
}

/// Tells `observer` of `event`, by the method that stands for it.
pub fn notify(observer: &Arc<dyn RunnerObserver>, event: &Event) {
    match event {
        Event::EnterSuite(header) => observer.enter_suite(header),
        Event::ExitSuite(header, report) => observer.exit_suite(header, report),
        Event::EnterContext(header) => observer.enter_context(header),
        Event::ExitContext(header, report) => observer.exit_context(header, report),
        Event::EnterExample(header) => observer.enter_example(header),
        Event::ExitExample(header, report) => observer.exit_example(header, report),
    }
}

/// Whether every one of `observers` has been told of `event`: whether
/// `notify` has been called on it with `event`, and has returned.
pub open spec fn told(observers: Seq<Arc<dyn RunnerObserver>>, event: Event) -> bool {
    forall|k: int|
        0 <= k < observers.len() ==> call_ensures(notify, (&#[trigger] observers[k], &event), ())
}

} // verus!
