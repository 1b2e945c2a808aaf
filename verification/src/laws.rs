//! What holds of every run, whatever the tree, the hooks and the examples.

use std::sync::Arc;
use vstd::prelude::*;
use crate::block::hook::leads;
use crate::block::suite::Suite;
use crate::block::Block;
use crate::context::{
    lemma_outcome_mirrors_context,
    lemma_visit_is_outcome_of_context,
    Context,
};
use crate::report::{
    lemma_context_fails_with_a_block,
    BlockReport,
    ContextReport,
    ExampleReport,
    SuiteReport,
};
use crate::runner::observer::{told, Event, RunnerObserver};
use crate::runner::Runner;

verus! {

/// Whatever a run of a suite makes mirrors the suite, under either way of
/// scheduling: the report has the suite's header, and the reports in it stand
/// in the declaration order of the blocks, each with the shape of its block,
/// all the way down.
pub proof fn lemma_report_mirrors_suite<T: Clone>(
    suite: Suite<T>,
    observers: Seq<Arc<dyn RunnerObserver>>,
    report: SuiteReport,
)
    requires
        suite.ran(observers, report),
    ensures
        report.header == suite.header,
        report.context.shapes() == suite.context.shapes(),
{
    let start = choose|start: T|
        #[trigger] cloned(suite.environment, start) && suite.visited_from(observers, start, report);
    lemma_visit_is_outcome_of_context(suite.context, observers, start, report.context);
    lemma_outcome_mirrors_context(suite.context, report.context);
}

/// The `before_each` and `after_each` hooks of a context run once for each
/// direct child of the context, around the visit of that child as a whole.
///
/// Where the child is a nested context, its own blocks are evaluated as
/// members of the nested context: the hooks that run once for each of them
/// are the nested context's own, not those of the context above.
pub proof fn lemma_each_hooks_wrap_each_direct_child<T: Clone>(
    context: Context<T>,
    observers: Seq<Arc<dyn RunnerObserver>>,
    before: T,
    report: ContextReport,
    i: int,
)
    requires
        context.visited_from(observers, before, report),
        0 <= i < context.blocks@.len(),
    ensures
        exists|start: T, entered: T, left: T|
            {
                &&& #[trigger] leads(context.before_each@, start, entered)
                &&& context.blocks@[i].visited_on(observers, entered, report.sub_reports@[i])
                &&& #[trigger] leads(context.after_each@, entered, left)
                &&& context.blocks@[i] matches Block::Context(nested) ==> {
                    &&& report.sub_reports@[i] matches BlockReport::Context(_, outcome)
                    &&& outcome.sub_reports@.len() == nested.blocks@.len()
                    &&& exists|private: T, inside: T|
                        {
                            &&& cloned(entered, private)
                            &&& #[trigger] leads(nested.before_all@, private, inside)
                            &&& forall|j: int|
                                0 <= j < nested.blocks@.len() ==> (
                                #[trigger] nested.blocks@[j]).evaluated_in(
                                    nested,
                                    observers,
                                    inside,
                                    outcome.sub_reports@[j],
                                )
                        }
                }
            },
{
    let (whole, after) = choose|whole: T, after: T|
        #![trigger leads(context.before_all@, before, whole), leads(context.after_all@, whole, after)]
        {
            &&& leads(context.before_all@, before, whole)
            &&& leads(context.after_all@, whole, after)
            &&& context.visited_through(observers, before, whole, after, report)
        };
    let block = context.blocks@[i];
    let made = report.sub_reports@[i];
    assert(block.evaluated_in(context, observers, whole, made));
    let (start, entered, left) = choose|start: T, entered: T, left: T|
        #![trigger cloned(whole, start), leads(context.before_each@, start, entered), leads(context.after_each@, entered, left)]
        {
            &&& cloned(whole, start)
            &&& leads(context.before_each@, start, entered)
            &&& block.visited_on(observers, entered, made)
            &&& leads(context.after_each@, entered, left)
        };
    if let Block::Context(nested) = block {
        if let BlockReport::Context(_, outcome) = made {
            let private = choose|private: T|
                #[trigger] cloned(entered, private) && nested.visited_from(observers, private, outcome);
            let (inside, last) = choose|inside: T, last: T|
                #![trigger leads(nested.before_all@, private, inside), leads(nested.after_all@, inside, last)]
                {
                    &&& leads(nested.before_all@, private, inside)
                    &&& leads(nested.after_all@, inside, last)
                    &&& nested.visited_through(observers, private, inside, last, outcome)
                };
            assert(leads(nested.before_all@, private, inside));
        }
    }
    assert(leads(context.before_each@, start, entered) && leads(context.after_each@, entered, left));
}

/// The `before_all` and `after_all` hooks of a context run once for each
/// visit of the context, around all its blocks together: every block is
/// evaluated on the environment that the `before_all` hooks left, and the
/// `after_all` hooks start from that same environment.
pub proof fn lemma_all_hooks_wrap_the_blocks_together<T: Clone>(
    context: Context<T>,
    observers: Seq<Arc<dyn RunnerObserver>>,
    before: T,
    after: T,
    report: ContextReport,
)
    requires
        context.visited_on(observers, before, after, report),
    ensures
        exists|entered: T|
            {
                &&& #[trigger] leads(context.before_all@, before, entered)
                &&& leads(context.after_all@, entered, after)
                &&& forall|i: int|
                    0 <= i < context.blocks@.len() ==> (#[trigger] context.blocks@[i]).evaluated_in(
                        context,
                        observers,
                        entered,
                        report.sub_reports@[i],
                    )
            },
{
    let entered = choose|entered: T|
        {
            &&& #[trigger] leads(context.before_all@, before, entered)
            &&& context.visited_through(observers, before, entered, after, report)
        };
    assert(leads(context.before_all@, before, entered));
}

/// A suite's report fails if and only if it holds a failed example: one of
/// the reports of the root context is a failed example, or the report of a
/// nested context that fails in its turn. A report of successes and ignored
/// examples alone never fails.
pub proof fn lemma_failure_is_a_failed_example(report: SuiteReport)
    ensures
        report.failing() <==> report.failures() > 0,
        report.failing() <==> exists|i: int|
            0 <= i < report.context.sub_reports@.len() && (
            #[trigger] report.context.sub_reports@[i]).failing(),
        forall|header: crate::header::ExampleHeader, outcome: ExampleReport| #[trigger]
            BlockReport::Example(header, outcome).failing() <==> outcome is Failure,
        forall|header: Option<crate::header::ContextHeader>, outcome: ContextReport| #[trigger]
            BlockReport::Context(header, outcome).failing() <==> outcome.failing(),
{
    lemma_context_fails_with_a_block(report.context);
}

/// A runner asks for the end of the process only where it was told to exit
/// on failure: there it asks for it, with code 101, exactly where it
/// remembered a failure before the run or the run failed. A runner that was
/// not told so never asks for it, however the run ended.
pub proof fn lemma_exit_follows_failure(runner: Runner, failed: bool)
    ensures
        runner.configuration.exit_on_failure ==> (runner.after_run(failed).exit_code_spec() == Some(
            101i32,
        ) <==> runner.should_exit || failed),
        runner.configuration.exit_on_failure ==> (runner.after_run(failed).exit_code_spec() is None
            <==> !(runner.should_exit || failed)),
        !runner.configuration.exit_on_failure ==> runner.after_run(failed).exit_code_spec() is None,
{
}

/// Every observer is told of every node that a run visits, when it is
/// entered and when it is left: of the suite, of every context that has a
/// header, and of every example.
pub proof fn lemma_observers_are_told_of_a_suite<T: Clone>(
    suite: Suite<T>,
    observers: Seq<Arc<dyn RunnerObserver>>,
    report: SuiteReport,
)
    requires
        suite.ran(observers, report),
    ensures
        told(observers, Event::EnterSuite(&suite.header)),
        told(observers, Event::ExitSuite(&suite.header, &report)),
{
}

/// Every observer is told of a context that is visited and has a header,
/// when it is entered and when it is left.
pub proof fn lemma_observers_are_told_of_a_context<T: Clone>(
    context: Context<T>,
    observers: Seq<Arc<dyn RunnerObserver>>,
    before: T,
    report: ContextReport,
)
    requires
        context.visited_from(observers, before, report),
        context.header is Some,
    ensures
        told(observers, Event::EnterContext(&context.header->0)),
        told(observers, Event::ExitContext(&context.header->0, &report)),
{
}

/// Every observer is told of an example that is visited, when it is entered
/// and when it is left.
pub proof fn lemma_observers_are_told_of_an_example<T: Clone>(
    block: Block<T>,
    observers: Seq<Arc<dyn RunnerObserver>>,
    environment: T,
    report: BlockReport,
)
    requires
        block.visited_on(observers, environment, report),
        block is Example,
    ensures
        report is Example,
        told(observers, Event::EnterExample(&block->Example_0.header)),
        told(observers, Event::ExitExample(&block->Example_0.header, &report->Example_1)),
{
}

} // verus!
