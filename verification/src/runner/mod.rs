//! Runners are responsible for executing a test suite's examples.

pub mod configuration;
pub mod observer;

use rayon::iter::{IntoParallelRefIterator, ParallelIterator};
use std::sync::Arc;
use vstd::prelude::*;
use crate::block::example::Example;
use crate::block::hook::{call_on, leads, lemma_maps_is_a_call, maps, run_hooks, HookHandle};
use crate::block::suite::Suite;
use crate::block::Block;
use crate::context::{lemma_visit_starts, Context};
use crate::report::{BlockReport, ContextReport, ExampleReport, SuiteReport};
pub use crate::runner::configuration::Configuration;
pub use crate::runner::observer::{notify, told, Event, RunnerObserver};
use crate::visitor::TestSuiteVisitor;

verus! {

/// Runner for executing a test suite's examples.
pub struct Runner {
    pub configuration: Configuration,
    pub observers: Vec<Arc<dyn RunnerObserver>>,
    /// Whether a run of this runner has failed.
    pub should_exit: bool,
}

/// Whether one run of each hook of `before`, in their order, then one call of
/// `f`, then one run of each hook of `after`, in their order, each on the
/// environment as the step before left it, may turn `start` into `end`, with
/// `f` returning `result`.
pub open spec fn wrapped<T, U, F: Fn(&mut T) -> U>(
    before: Seq<HookHandle<T>>,
    after: Seq<HookHandle<T>>,
    f: F,
    start: T,
    end: T,
    result: U,
) -> bool {
    exists|entered: T, left: T|
        #![trigger leads(before, start, entered), leads(after, left, end)]
        {
            &&& leads(before, start, entered)
            &&& maps(&f, entered, left, result)
            &&& leads(after, left, end)
        }
}

impl Runner {
    pub fn new(configuration: Configuration, observers: Vec<Arc<dyn RunnerObserver>>) -> (runner:
        Runner)
        ensures
            runner.configuration == configuration,
            runner.observers == observers,
            !runner.should_exit,
    {
        Runner { configuration: configuration, observers: observers, should_exit: false }
    }

    /// The runner as one run leaves it: it remembers whether any run failed.
    pub open spec fn after_run(self, failed: bool) -> Runner {
        Runner {
            configuration: self.configuration,
            observers: self.observers,
            should_exit: self.should_exit || failed,
        }
    }

    /// The code with which the process is to end once the runner is done:
    /// 101 where the runner was told to exit on failure and a run failed,
    /// none otherwise.
    pub open spec fn exit_code_spec(self) -> Option<i32> {
        if self.configuration.exit_on_failure && self.should_exit {
            Some(101i32)
        } else {
            None
        }
    }

    /// Runs `suite` on a copy of its environment and tells whether it passed:
    /// `Ok` where no example failed, else `Err` with the report.
    pub fn run<T>(&mut self, suite: Suite<T>) -> (outcome: Result<(), SuiteReport>) where
        T: Clone + Send + Sync,

        ensures
            *final(self) == old(self).after_run(outcome is Err),
            outcome matches Err(report) ==> suite.ran(old(self).observers@, report)
                && report.failing(),
            outcome is Ok ==> exists|report: SuiteReport|
                #[trigger] suite.ran(old(self).observers@, report) && !report.failing(),
    {
        let mut environment = suite.environment.clone();
        let ghost start = environment;
        let report = self.visit(&suite, &mut environment);
        proof {
            lemma_visit_starts(suite.context, self.observers@, start, environment, report.context);
            assert(cloned(suite.environment, start) && suite.visited_from(
                self.observers@,
                start,
                report,
            ));
            assert(suite.ran(self.observers@, report));
        }
        let failed = report.is_failure();
        self.should_exit = self.should_exit || failed;
        report.into_outcome()
    }

    /// What the owner of the runner is to do when the runner is done: end the
    /// process with the code returned, or go on where there is none.
    pub fn exit_code(&self) -> (code: Option<i32>)
        ensures
            code == self.exit_code_spec(),
    {
        if self.configuration.exit_on_failure && self.should_exit {
            Some(101)
        } else {
            None
        }
    }

    /// Hands every observer to `f`, in the order in which they were registered.
    pub fn broadcast<F>(&self, mut f: F) where F: FnMut(&Arc<dyn RunnerObserver>)
        requires
            forall|observer: &Arc<dyn RunnerObserver>| #[trigger] call_requires(f, (observer,)),
        ensures
            forall|k: int|
                0 <= k < self.observers@.len() ==> call_ensures(
                    f,
                    (&#[trigger] self.observers@[k],),
                    (),
                ),
    {
        broadcast use vstd::function::group_function_axioms;

        let ghost given = f;
        let mut i: usize = 0;
        while i < self.observers.len()
            invariant
                i <= self.observers.len(),
                f == given,
                forall|observer: &Arc<dyn RunnerObserver>| #[trigger] call_requires(f, (observer,)),
                forall|k: int|
                    0 <= k < i ==> call_ensures(f, (&#[trigger] self.observers@[k],), ()),
            decreases self.observers.len() - i,
        {
            f(&self.observers[i]);
            i += 1;
        }
    }

    /// Tells every observer of `event`, in the order in which they were
    /// registered.
    fn announce(&self, event: Event)
        ensures
            told(self.observers@, event),
    {
        let tell = |observer: &Arc<dyn RunnerObserver>|
            ensures
                call_ensures(notify, (observer, &event), ()),
            { notify(observer, &event) };
        self.broadcast(tell);
    }

    /// Runs every `before_all` hook of `context` once, in declaration order,
    /// then `f`, then every `after_all` hook once, in declaration order, each
    /// on the environment as the step before left it, and returns what `f`
    /// returned.
    fn wrap_all<T, U, F>(&self, context: &Context<T>, environment: &mut T, f: F) -> (result: U) where
        F: Fn(&mut T) -> U,

        requires
            forall|call: &mut T| call_requires(f, (call,)),
        ensures
            wrapped(
                context.before_all@,
                context.after_all@,
                f,
                *old(environment),
                *final(environment),
                result,
            ),
    {
        run_hooks(&context.before_all, environment);
        let ghost entered = *environment;
        let (result, _) = call_on(&f, environment);
        let ghost left = *environment;
        run_hooks(&context.after_all, environment);
        proof {
            assert(leads(context.before_all@, *old(environment), entered) && leads(
                context.after_all@,
                left,
                *environment,
            ));
        }
        result
    }

    /// Runs every `before_each` hook of `context` once, in declaration order,
    /// then `f`, then every `after_each` hook once, in declaration order, each
    /// on the environment as the step before left it, and returns what `f`
    /// returned.
    fn wrap_each<T, U, F>(&self, context: &Context<T>, environment: &mut T, f: F) -> (result: U) where
        F: Fn(&mut T) -> U,

        requires
            forall|call: &mut T| call_requires(f, (call,)),
        ensures
            wrapped(
                context.before_each@,
                context.after_each@,
                f,
                *old(environment),
                *final(environment),
                result,
            ),
    {
        run_hooks(&context.before_each, environment);
        let ghost entered = *environment;
        let (result, _) = call_on(&f, environment);
        let ghost left = *environment;
        run_hooks(&context.after_each, environment);
        proof {
            assert(leads(context.before_each@, *old(environment), entered) && leads(
                context.after_each@,
                left,
                *environment,
            ));
        }
        result
    }

    /// Evaluates the blocks of `context` on rayon's thread pool, each as
    /// `evaluate_block` does, and returns the reports in declaration order.
    fn evaluate_blocks_parallel<T>(&self, context: &Context<T>, environment: &T) -> (reports: Vec<
        BlockReport,
    >) where T: Clone + Send + Sync
        ensures
            reports@.len() == context.blocks@.len(),
            forall|i: int|
                0 <= i < context.blocks@.len() ==> (#[trigger] context.blocks@[i]).evaluated_in(
                    *context,
                    self.observers@,
                    *environment,
                    reports@[i],
                ),
        decreases context, 1nat,
    {
        let evaluate = |block: &Block<T>| -> (report: BlockReport)
            requires
                exists|i: int| 0 <= i < context.blocks@.len() && context.blocks@[i] == *block,
            ensures
                block.evaluated_in(*context, self.observers@, *environment, report),
            { self.evaluate_block(block, context, environment) };
        assert forall|i: int| 0 <= i < context.blocks@.len() implies call_requires(
            evaluate,
            (&#[trigger] context.blocks@[i],),
        ) by {
            assert(context.blocks@[i] == context.blocks@[i]);
        }
        map_in_parallel(&context.blocks, evaluate)
    }

    /// Evaluates the blocks of `context` one after the other, each as
    /// `evaluate_block` does, and returns the reports in declaration order.
    fn evaluate_blocks_serial<T>(&self, context: &Context<T>, environment: &T) -> (reports: Vec<
        BlockReport,
    >) where T: Clone + Send + Sync
        ensures
            reports@.len() == context.blocks@.len(),
            forall|i: int|
                0 <= i < context.blocks@.len() ==> (#[trigger] context.blocks@[i]).evaluated_in(
                    *context,
                    self.observers@,
                    *environment,
                    reports@[i],
                ),
        decreases context, 1nat,
    {
        let mut reports: Vec<BlockReport> = Vec::new();
        let mut i: usize = 0;
        while i < context.blocks.len()
            invariant
                i <= context.blocks.len(),
                reports@.len() == i,
                forall|j: int|
                    0 <= j < i ==> (#[trigger] context.blocks@[j]).evaluated_in(
                        *context,
                        self.observers@,
                        *environment,
                        reports@[j],
                    ),
            decreases context.blocks.len() - i,
        {
            let report = self.evaluate_block(&context.blocks[i], context, environment);
            reports.push(report);
            i += 1;
        }
        reports
    }

    /// Evaluates one block of `context` on a copy of `environment`: every
    /// `before_each` hook of `context` once, then the visit of the block,
    /// then every `after_each` hook once.
    fn evaluate_block<T>(&self, block: &Block<T>, context: &Context<T>, environment: &T) -> (report:
        BlockReport) where T: Clone + Send + Sync
        ensures
            block.evaluated_in(*context, self.observers@, *environment, report),
        decreases block, 1nat,
    {
        let mut private = environment.clone();
        let ghost start = private;
        let visit = |environment: &mut T| -> (report: BlockReport)
            ensures
                block.visited_on(self.observers@, *old(environment), report),
                *final(environment) == *old(environment),
            { self.visit(block, environment) };
        let report = self.wrap_each(context, &mut private, visit);
        proof {
            let (entered, left) = choose|entered: T, left: T|
                #![trigger leads(context.before_each@, start, entered), leads(context.after_each@, left, private)]
                {
                    &&& leads(context.before_each@, start, entered)
                    &&& maps(&visit, entered, left, report)
                    &&& leads(context.after_each@, left, private)
                };
            lemma_maps_is_a_call(&visit, entered, left, report);
            assert(cloned(*environment, start) && leads(context.before_each@, start, entered)
                && leads(context.after_each@, entered, private));
        }
        report
    }
}

impl<T> TestSuiteVisitor<Suite<T>> for Runner where T: Clone + Send + Sync {
    type Environment = T;

    type Output = SuiteReport;

    /// Tells the observers that the suite is entered, visits the root
    /// context, and tells them that the suite is left, and with what report.
    fn visit(&self, suite: &Suite<T>, environment: &mut T) -> (report: SuiteReport)
        ensures
            suite.visited_on(self.observers@, *old(environment), *final(environment), report),
    {
        self.announce(Event::EnterSuite(&suite.header));
        let report = SuiteReport::new(suite.header, self.visit(&suite.context, environment));
        self.announce(Event::ExitSuite(&suite.header, &report));
        report
    }
}

impl<T> TestSuiteVisitor<Block<T>> for Runner where T: Clone + Send + Sync {
    type Environment = T;

    type Output = BlockReport;

    /// Visits the example, or visits the nested context on a copy of the
    /// environment; the environment itself is left as it was.
    fn visit(&self, block: &Block<T>, environment: &mut T) -> (report: BlockReport)
        ensures
            block.visited_on(self.observers@, *old(environment), report),
            *final(environment) == *old(environment),
        decreases block, 0nat,
    {
        match block {
            Block::Example(example) => {
                let header = example.header;
                let report = self.visit(example, environment);
                BlockReport::Example(header, report)
            },
            Block::Context(context) => {
                let header = context.header;
                let mut private = environment.clone();
                let ghost copy = private;
                let report = self.visit(context, &mut private);
                proof {
                    lemma_visit_starts(*context, self.observers@, copy, private, report);
                    assert(cloned(*environment, copy) && context.visited_from(
                        self.observers@,
                        copy,
                        report,
                    ));
                }
                BlockReport::Context(header, report)
            },
        }
    }
}

impl<T> TestSuiteVisitor<Context<T>> for Runner where T: Clone + Send + Sync {
    type Environment = T;

    type Output = ContextReport;

    /// Tells the observers that the context is entered, if it has a header,
    /// evaluates the blocks between the `before_all` and the `after_all`
    /// hooks, serially or in parallel as the runner was told, and tells the
    /// observers that the context is left, and with what report.
    fn visit(&self, context: &Context<T>, environment: &mut T) -> (report: ContextReport)
        ensures
            context.visited_on(self.observers@, *old(environment), *final(environment), report),
        decreases context, 2nat,
    {
        if let Some(ref header) = context.header {
            self.announce(Event::EnterContext(header));
        }
        let evaluate = |environment: &mut T| -> (reports: Vec<BlockReport>)
            ensures
                *final(environment) == *old(environment),
                reports@.len() == context.blocks@.len(),
                forall|i: int|
                    0 <= i < context.blocks@.len() ==> (#[trigger] context.blocks@[i]).evaluated_in(
                        *context,
                        self.observers@,
                        *old(environment),
                        reports@[i],
                    ),
            {
                if self.configuration.parallel {
                    self.evaluate_blocks_parallel(context, environment)
                } else {
                    self.evaluate_blocks_serial(context, environment)
                }
            };
        let reports: Vec<BlockReport> = self.wrap_all(context, environment, evaluate);
        let ghost made = reports;
        let report = ContextReport::new(reports);
        if let Some(ref header) = context.header {
            self.announce(Event::ExitContext(header, &report));
        }
        proof {
            let (entered, left) = choose|entered: T, left: T|
                #![trigger leads(context.before_all@, *old(environment), entered), leads(context.after_all@, left, *environment)]
                {
                    &&& leads(context.before_all@, *old(environment), entered)
                    &&& maps(&evaluate, entered, left, made)
                    &&& leads(context.after_all@, left, *environment)
                };
            lemma_maps_is_a_call(&evaluate, entered, left, made);
            assert(context.visited_through(
                self.observers@,
                *old(environment),
                entered,
                *environment,
                report,
            ));
        }
        report
    }
}

impl<T> TestSuiteVisitor<Example<T>> for Runner where T: Clone + Send + Sync {
    type Environment = T;

    type Output = ExampleReport;

    /// Tells the observers that the example is entered, runs its function on
    /// the environment, and tells them that it is left, and with what report.
    fn visit(&self, example: &Example<T>, environment: &mut T) -> (report: ExampleReport)
        ensures
            example.function.verdict(*old(environment), report),
            told(self.observers@, Event::EnterExample(&example.header)),
            told(self.observers@, Event::ExitExample(&example.header, &report)),
            *final(environment) == *old(environment),
    {
        self.announce(Event::EnterExample(&example.header));
        let report = example.function.check(environment);
        self.announce(Event::ExitExample(&example.header, &report));
        report
    }
}

/// What `f` returns on each of `items`, in the order of `items`, the calls
/// being handed out to rayon's thread pool: `par_iter` on a slice, `map` and
/// `collect`. rayon's iterator over a slice is indexed, and its `collect` of
/// an indexed iterator into a `Vec` keeps the items' order, whichever call
/// ended first.
#[verifier::external_body]
fn map_in_parallel<A, B, F>(items: &Vec<A>, f: F) -> (results: Vec<B>) where
    A: Sync,
    B: Send,
    F: Fn(&A) -> B + Sync + Send,

    requires
        forall|i: int| 0 <= i < items@.len() ==> call_requires(f, (&#[trigger] items@[i],)),
    ensures
        results@.len() == items@.len(),
        forall|i: int|
            0 <= i < items@.len() ==> call_ensures(f, (&items@[i],), #[trigger] results@[i]),
{
    items.par_iter().map(f).collect()
}

} // verus!
