//! Contexts: the groups of a test tree, with their lifecycle hooks.

use vstd::prelude::*;
use vstd::std_specs::convert::FromSpec;
use crate::block::example::Example;
use crate::block::hook::{call_on, leads, maps, HookHandle};
use crate::block::suite::Suite;
use crate::block::Block;
use crate::header::{
    ContextHeader,
    ContextLabel,
    ExampleHeader,
    ExampleLabel,
    SuiteHeader,
    SuiteLabel,
};
use crate::report::{
    lemma_shapes_among,
    BlockReport,
    ContextReport,
    ExampleReport,
    SuiteReport,
};
use crate::runner::configuration::Configuration;
use crate::runner::observer::{told, Event, RunnerObserver};
use crate::runner::Runner;
use crate::shape::Shape;
use std::sync::Arc;

verus! {

/// A group of blocks, in declaration order, with the hooks to run around
/// them. The root context of a suite has no header.
#[verifier::reject_recursive_types(T)]
pub struct Context<T> {
    pub header: Option<ContextHeader>,
    pub blocks: Vec<Block<T>>,
    pub before_all: Vec<HookHandle<T>>,
    pub before_each: Vec<HookHandle<T>>,
    pub after_all: Vec<HookHandle<T>>,
    pub after_each: Vec<HookHandle<T>>,
}

/// A member of a context, under the name that the declaring functions have
/// for it.
pub type Testable<T> = Block<T>;

/// The shapes of the first `n` of `blocks`, in their order.
pub open spec fn shapes_of<T>(blocks: Seq<Block<T>>, n: nat) -> Seq<Shape>
    decreases blocks, n,
{
    if n == 0 || n > blocks.len() {
        Seq::empty()
    } else {
        shapes_of(blocks, (n - 1) as nat).push(blocks[n - 1].shape())
    }
}

impl<T> Context<T> {
    /// The shapes of the context's blocks, in declaration order.
    pub open spec fn shapes(self) -> Seq<Shape>
        decreases self, 1nat,
    {
        shapes_of(self.blocks@, self.blocks@.len())
    }

    /// Whether `report` is a possible outcome of this context: one report for
    /// each block, in declaration order, each a possible outcome of its block.
    pub open spec fn admits(self, report: ContextReport) -> bool
        decreases self, 1nat,
    {
        &&& report.sub_reports@.len() == self.blocks@.len()
        &&& forall|i: int|
            0 <= i < self.blocks@.len() ==> (#[trigger] self.blocks@[i]).admits(
                report.sub_reports@[i],
            )
    }
}

/// Whether `report` is made from something that `body` may return on
/// `environment`: the conversion of it, as far as the conversion from `R` is
/// specified.
pub open spec fn converted<T, F: Fn(&T) -> R, R>(
    body: &F,
    environment: T,
    report: ExampleReport,
) -> bool where ExampleReport: From<R> {
    exists|raw: R|
        {
            &&& #[trigger] call_ensures(*body, (&environment,), raw)
            &&& <ExampleReport as FromSpec<R>>::obeys_from_spec() ==> report
                == <ExampleReport as FromSpec<R>>::from_spec(raw)
        }
}

impl<T: Clone> Context<T> {
    /// Whether a visit of this context, with `observers` listening, may turn
    /// the environment `before` into `after` by way of `entered`, and return
    /// `report`.
    ///
    /// The observers are told that the context is entered, if it has a
    /// header. Every `before_all` hook runs once, in declaration order, each
    /// on the environment as the one before left it: that turns `before`
    /// into `entered`. Every block is evaluated on `entered`, and `report`
    /// holds what the evaluations returned, in the declaration order of the
    /// blocks. Every `after_all` hook runs once, in declaration order: that
    /// turns `entered` into `after`. The observers are told that the context
    /// is left, with `report`, if it has a header.
    pub open spec fn visited_through(
        self,
        observers: Seq<Arc<dyn RunnerObserver>>,
        before: T,
        entered: T,
        after: T,
        report: ContextReport,
    ) -> bool
        decreases self, 2nat,
    {
        &&& leads(self.before_all@, before, entered)
        &&& report.sub_reports@.len() == self.blocks@.len()
        &&& forall|i: int|
            0 <= i < self.blocks@.len() ==> (#[trigger] self.blocks@[i]).evaluated_in(
                self,
                observers,
                entered,
                report.sub_reports@[i],
            )
        &&& leads(self.after_all@, entered, after)
        &&& self.header matches Some(header) ==> {
            &&& told(observers, Event::EnterContext(&header))
            &&& told(observers, Event::ExitContext(&header, &report))
        }
    }

    /// Whether a visit of this context, with `observers` listening, may turn
    /// the environment `before` into `after` and return `report`.
    pub open spec fn visited_on(
        self,
        observers: Seq<Arc<dyn RunnerObserver>>,
        before: T,
        after: T,
        report: ContextReport,
    ) -> bool
        decreases self, 3nat,
    {
        exists|entered: T|
            {
                &&& #[trigger] leads(self.before_all@, before, entered)
                &&& self.visited_through(observers, before, entered, after, report)
            }
    }

    /// Whether a visit of this context that starts on the environment
    /// `before`, with `observers` listening, may return `report`, however it
    /// leaves the environment.
    pub open spec fn visited_from(
        self,
        observers: Seq<Arc<dyn RunnerObserver>>,
        before: T,
        report: ContextReport,
    ) -> bool
        decreases self, 3nat,
    {
        exists|entered: T, after: T|
            #![trigger leads(self.before_all@, before, entered), leads(self.after_all@, entered, after)]
            {
                &&& leads(self.before_all@, before, entered)
                &&& leads(self.after_all@, entered, after)
                &&& self.visited_through(observers, before, entered, after, report)
            }
    }
}

impl<T: Send + Sync + 'static> Context<T> {
    /// Whether the context has the given header and neither blocks nor hooks.
    pub open spec fn is_empty(self, header: Option<ContextHeader>) -> bool {
        &&& self.header == header
        &&& self.blocks@.len() == 0
        &&& self.before_all@.len() == 0
        &&& self.before_each@.len() == 0
        &&& self.after_all@.len() == 0
        &&& self.after_each@.len() == 0
    }

    /// Whether the context is `before` with `block` added behind its blocks.
    pub open spec fn is_with_block(self, before: Self, block: Block<T>) -> bool {
        &&& self.header == before.header
        &&& self.blocks@ == before.blocks@.push(block)
        &&& self.before_all == before.before_all
        &&& self.before_each == before.before_each
        &&& self.after_all == before.after_all
        &&& self.after_each == before.after_each
    }

    /// Whether the context is `before` with a nested context added behind its
    /// blocks: the one that `body` made, in one call, of the empty context
    /// with the given header.
    pub open spec fn is_with_context<F: FnOnce(&mut Context<T>)>(
        self,
        before: Self,
        header: ContextHeader,
        body: F,
    ) -> bool {
        exists|fresh: Context<T>, made: Context<T>|
            {
                &&& fresh.is_empty(Some(header))
                &&& #[trigger] maps(body, fresh, made, ())
                &&& self.is_with_block(before, Block::Context(made))
            }
    }

    /// Whether the context is `before` with an example added behind its
    /// blocks: one with the given header, whose every report is made from
    /// something that `body` returned on the same environment.
    pub open spec fn is_with_example<F: Fn(&T) -> R, R>(
        self,
        before: Self,
        header: ExampleHeader,
        body: F,
        example: Example<T>,
    ) -> bool where ExampleReport: From<R> {
        &&& example.header == header
        &&& forall|environment: T, report: ExampleReport| #[trigger]
            example.function.verdict(environment, report) ==> converted(
                &body,
                environment,
                report,
            )
        &&& self.is_with_block(before, Block::Example(example))
    }

    pub fn new(header: Option<ContextHeader>) -> (context: Self)
        ensures
            context.is_empty(header),
    {
        Context {
            header: header,
            blocks: Vec::new(),
            before_all: Vec::new(),
            before_each: Vec::new(),
            after_all: Vec::new(),
            after_each: Vec::new(),
        }
    }

    /// Adds a nested context with the given header, filled by one call of
    /// `body` on the empty context.
    fn add_context<F>(&mut self, header: ContextHeader, body: F) where F: FnOnce(&mut Context<T>)
        requires
            forall|call: &mut Context<T>|
                (*call).is_empty(Some(header)) ==> #[trigger] call_requires(body, (call,)),
        ensures
            (*final(self)).is_with_context(*old(self), header, body),
    {
        let mut child = Context::new(Some(header));
        let ghost fresh = child;
        let _ = call_on(body, &mut child);
        proof {
            assert(maps(body, fresh, child, ()));
        }
        self.blocks.push(Block::Context(child));
    }

    /// Adds an example with the given header, whose function turns what
    /// `body` returns into a report.
    fn add_example<F, R>(&mut self, header: ExampleHeader, body: F) where
        F: 'static + Send + Sync + Fn(&T) -> R,
        ExampleReport: From<R>,

        requires
            forall|environment: &T| call_requires(body, (environment,)),
        ensures
            exists|example: Example<T>| #[trigger]
                (*final(self)).is_with_example(*old(self), header, body, example),
    {
        let ghost given = body;
        let function = move |environment: &T| -> (report: ExampleReport)
            ensures
                converted(&body, *environment, report),
            { ExampleReport::from(body(environment)) };
        let example = Example::new(header, function);
        proof {
            assert forall|environment: T, report: ExampleReport| #[trigger]
                example.function.verdict(environment, report) implies converted(
                &given,
                environment,
                report,
            ) by {
                assert(call_ensures(function, (&environment,), report));
            }
        }
        let ghost added = example;
        self.blocks.push(Block::Example(example));
        proof {
            assert((*self).is_with_example(*old(self), header, body, added));
        }
    }

    /// Open and name a new example group, which will be kept as a child
    /// context of the current context.
    ///
    /// Note that the order of declaration is respected for running the tests.
    pub fn describe<F>(&mut self, name: &'static str, body: F) where F: FnOnce(&mut Context<T>)
        requires
            forall|call: &mut Context<T>|
                (*call).is_empty(Some(ContextHeader { label: ContextLabel::Describe, name }))
                    ==> #[trigger] call_requires(body, (call,)),
        ensures
            (*final(self)).is_with_context(
                *old(self),
                ContextHeader { label: ContextLabel::Describe, name },
                body,
            ),
    {
        self.add_context(ContextHeader::new(ContextLabel::Describe, name), body)
    }

    /// Alias for `describe`, under the label `Specify`.
    pub fn specify<F>(&mut self, name: &'static str, body: F) where F: FnOnce(&mut Context<T>)
        requires
            forall|call: &mut Context<T>|
                (*call).is_empty(Some(ContextHeader { label: ContextLabel::Specify, name }))
                    ==> #[trigger] call_requires(body, (call,)),
        ensures
            (*final(self)).is_with_context(
                *old(self),
                ContextHeader { label: ContextLabel::Specify, name },
                body,
            ),
    {
        self.add_context(ContextHeader::new(ContextLabel::Specify, name), body)
    }

    /// Alias for `describe`, under the label `Context`.
    pub fn context<F>(&mut self, name: &'static str, body: F) where F: FnOnce(&mut Context<T>)
        requires
            forall|call: &mut Context<T>|
                (*call).is_empty(Some(ContextHeader { label: ContextLabel::Context, name }))
                    ==> #[trigger] call_requires(body, (call,)),
        ensures
            (*final(self)).is_with_context(
                *old(self),
                ContextHeader { label: ContextLabel::Context, name },
                body,
            ),
    {
        self.add_context(ContextHeader::new(ContextLabel::Context, name), body)
    }

    /// Alias for `describe`, under the label `Given`.
    pub fn given<F>(&mut self, name: &'static str, body: F) where F: FnOnce(&mut Context<T>)
        requires
            forall|call: &mut Context<T>|
                (*call).is_empty(Some(ContextHeader { label: ContextLabel::Given, name }))
                    ==> #[trigger] call_requires(body, (call,)),
        ensures
            (*final(self)).is_with_context(
                *old(self),
                ContextHeader { label: ContextLabel::Given, name },
                body,
            ),
    {
        self.add_context(ContextHeader::new(ContextLabel::Given, name), body)
    }

    /// Alias for `describe`, under the label `When`.
    pub fn when<F>(&mut self, name: &'static str, body: F) where F: FnOnce(&mut Context<T>)
        requires
            forall|call: &mut Context<T>|
                (*call).is_empty(Some(ContextHeader { label: ContextLabel::When, name }))
                    ==> #[trigger] call_requires(body, (call,)),
        ensures
            (*final(self)).is_with_context(
                *old(self),
                ContextHeader { label: ContextLabel::When, name },
                body,
            ),
    {
        self.add_context(ContextHeader::new(ContextLabel::When, name), body)
    }

    /// Register and name a closure as an example.
    pub fn it<F, R>(&mut self, name: &'static str, body: F) where
        F: 'static + Send + Sync + Fn(&T) -> R,
        ExampleReport: From<R>,

        requires
            forall|environment: &T| call_requires(body, (environment,)),
        ensures
            exists|example: Example<T>| #[trigger]
                (*final(self)).is_with_example(
                    *old(self),
                    ExampleHeader { label: ExampleLabel::It, name },
                    body,
                    example,
                ),
    {
        self.add_example(ExampleHeader::new(ExampleLabel::It, name), body)
    }

    /// Alias for `it`, under the label `Example`.
    pub fn example<F, R>(&mut self, name: &'static str, body: F) where
        F: 'static + Send + Sync + Fn(&T) -> R,
        ExampleReport: From<R>,

        requires
            forall|environment: &T| call_requires(body, (environment,)),
        ensures
            exists|example: Example<T>| #[trigger]
                (*final(self)).is_with_example(
                    *old(self),
                    ExampleHeader { label: ExampleLabel::Example, name },
                    body,
                    example,
                ),
    {
        self.add_example(ExampleHeader::new(ExampleLabel::Example, name), body)
    }

    /// Alias for `it`, under the label `Then`.
    pub fn then<F, R>(&mut self, name: &'static str, body: F) where
        F: 'static + Send + Sync + Fn(&T) -> R,
        ExampleReport: From<R>,

        requires
            forall|environment: &T| call_requires(body, (environment,)),
        ensures
            exists|example: Example<T>| #[trigger]
                (*final(self)).is_with_example(
                    *old(self),
                    ExampleHeader { label: ExampleLabel::Then, name },
                    body,
                    example,
                ),
    {
        self.add_example(ExampleHeader::new(ExampleLabel::Then, name), body)
    }

    /// Declares a closure that will be executed before each block of the
    /// current context: once for each direct child, be it an example or a
    /// nested context with many examples.
    pub fn before_each<F>(&mut self, body: F) where F: 'static + Send + Sync + Fn(&mut T)
        requires
            forall|call: &mut T| call_requires(body, (call,)),
        ensures
            final(self).header == old(self).header,
            final(self).blocks == old(self).blocks,
            final(self).before_all == old(self).before_all,
            final(self).after_all == old(self).after_all,
            final(self).after_each == old(self).after_each,
            exists|handle: HookHandle<T>|
                {
                    &&& #[trigger] handle.runs(body)
                    &&& final(self).before_each@ == old(self).before_each@.push(handle)
                },
    {
        self.before_each.push(HookHandle::new(body));
    }

    /// Declares a closure that will be executed once before the blocks of the
    /// current context.
    pub fn before_all<F>(&mut self, body: F) where F: 'static + Send + Sync + Fn(&mut T)
        requires
            forall|call: &mut T| call_requires(body, (call,)),
        ensures
            final(self).header == old(self).header,
            final(self).blocks == old(self).blocks,
            final(self).before_each == old(self).before_each,
            final(self).after_all == old(self).after_all,
            final(self).after_each == old(self).after_each,
            exists|handle: HookHandle<T>|
                {
                    &&& #[trigger] handle.runs(body)
                    &&& final(self).before_all@ == old(self).before_all@.push(handle)
                },
    {
        self.before_all.push(HookHandle::new(body));
    }

    /// Declares a closure that will be executed after each block of the
    /// current context: once for each direct child, be it an example or a
    /// nested context with many examples.
    pub fn after_each<F>(&mut self, body: F) where F: 'static + Send + Sync + Fn(&mut T)
        requires
            forall|call: &mut T| call_requires(body, (call,)),
        ensures
            final(self).header == old(self).header,
            final(self).blocks == old(self).blocks,
            final(self).before_all == old(self).before_all,
            final(self).before_each == old(self).before_each,
            final(self).after_all == old(self).after_all,
            exists|handle: HookHandle<T>|
                {
                    &&& #[trigger] handle.runs(body)
                    &&& final(self).after_each@ == old(self).after_each@.push(handle)
                },
    {
        self.after_each.push(HookHandle::new(body));
    }

    /// Declares a closure that will be executed once after all the blocks of
    /// the current context.
    pub fn after_all<F>(&mut self, body: F) where F: 'static + Send + Sync + Fn(&mut T)
        requires
            forall|call: &mut T| call_requires(body, (call,)),
        ensures
            final(self).header == old(self).header,
            final(self).blocks == old(self).blocks,
            final(self).before_all == old(self).before_all,
            final(self).before_each == old(self).before_each,
            final(self).after_each == old(self).after_each,
            exists|handle: HookHandle<T>|
                {
                    &&& #[trigger] handle.runs(body)
                    &&& final(self).after_all@ == old(self).after_all@.push(handle)
                },
    {
        self.after_all.push(HookHandle::new(body));
    }
}

/// Whether `suite` is what `describe` makes of `name`, `environment` and
/// `body`: a suite labelled `Describe`, with that name and environment, whose
/// root context is the one that `body` made, in one call, of the empty
/// context without a header.
pub open spec fn described<T: Send + Sync + 'static, F: FnOnce(&mut Context<T>)>(
    suite: Suite<T>,
    name: &'static str,
    environment: T,
    body: F,
) -> bool {
    &&& suite.header == (SuiteHeader { label: SuiteLabel::Describe, name })
    &&& suite.environment == environment
    &&& exists|fresh: Context<T>| fresh.is_empty(None) && #[trigger] maps(body, fresh, suite.context, ())
}

/// This is the root describe. It makes a root context, hands it to `body` to
/// declare examples in, and returns the suite, ready to be run.
///
/// See `rdescribe` for a helper which also runs the suite.
pub fn describe<T, F>(name: &'static str, environment: T, body: F) -> (suite: Suite<T>) where
    T: Send + Sync + 'static,
    F: FnOnce(&mut Context<T>),

    requires
        forall|call: &mut Context<T>|
            (*call).is_empty(None) ==> #[trigger] call_requires(body, (call,)),
    ensures
        described(suite, name, environment, body),
{
    let mut root = Context::new(None);
    let ghost fresh = root;
    let _ = call_on(body, &mut root);
    proof {
        assert(maps(body, fresh, root, ()));
    }
    Suite::new(SuiteHeader::new(SuiteLabel::Describe, name), environment, root)
}

/// This is the root describe with a sugar. It makes the suite as `describe`
/// does, runs it serially on a runner without observers, and returns what
/// the run returned: `Ok` where no example failed, else `Err` with the
/// report.
pub fn rdescribe<T, F>(name: &'static str, environment: T, body: F) -> (outcome: Result<
    (),
    SuiteReport,
>) where T: Clone + Send + Sync + 'static, F: FnOnce(&mut Context<T>)
    requires
        forall|call: &mut Context<T>|
            (*call).is_empty(None) ==> #[trigger] call_requires(body, (call,)),
    ensures
        exists|suite: Suite<T>|
            {
                &&& #[trigger] described(suite, name, environment, body)
                &&& outcome matches Err(report) ==> suite.ran(Seq::empty(), report)
                    && report.failing()
                &&& outcome is Ok ==> exists|passed: SuiteReport|
                    #[trigger] suite.ran(Seq::empty(), passed) && !passed.failing()
            },
{
    let suite = describe(name, environment, body);
    let ghost made = suite;
    let mut runner = Runner::new(
        Configuration { parallel: false, exit_on_failure: false },
        Vec::new(),
    );
    let outcome = runner.run(suite);
    proof {
        assert(described(made, name, environment, body));
    }
    outcome
}

/// The shapes of the first `n` blocks are `n`, and each is the shape of the
/// block at its place.
pub proof fn lemma_shapes_of<T>(blocks: Seq<Block<T>>, n: nat)
    requires
        n <= blocks.len(),
    ensures
        shapes_of(blocks, n).len() == n,
        forall|i: int| 0 <= i < n ==> shapes_of(blocks, n)[i] == (#[trigger] blocks[i]).shape(),
    decreases n,
{
    if n > 0 {
        lemma_shapes_of(blocks, (n - 1) as nat);
    }
}

/// Every possible outcome of a context mirrors it: the reports stand in the
/// declaration order of the blocks, each with the shape of its block, all the
/// way down.
pub proof fn lemma_outcome_mirrors_context<T>(context: Context<T>, report: ContextReport)
    requires
        context.admits(report),
    ensures
        report.shapes() == context.shapes(),
    decreases context, 1nat,
{
    let n = context.blocks@.len();
    lemma_shapes_of(context.blocks@, n);
    lemma_shapes_among(report.sub_reports@, n);
    assert forall|i: int| 0 <= i < n implies report.shapes()[i] == context.shapes()[i] by {
        lemma_outcome_mirrors_block(context.blocks@[i], report.sub_reports@[i]);
    }
    assert(report.shapes() =~= context.shapes());
}

/// Every possible outcome of a block has the block's shape.
pub proof fn lemma_outcome_mirrors_block<T>(block: Block<T>, report: BlockReport)
    requires
        block.admits(report),
    ensures
        report.shape() == block.shape(),
    decreases block, 0nat,
{
    match block {
        Block::Example(_) => {},
        Block::Context(context) => {
            if let BlockReport::Context(_, outcome) = report {
                lemma_outcome_mirrors_context(context, outcome);
            }
        },
    }
}

/// A visit of a context that turns one environment into another is a visit
/// that starts on the first.
pub proof fn lemma_visit_starts<T: Clone>(
    context: Context<T>,
    observers: Seq<Arc<dyn RunnerObserver>>,
    before: T,
    after: T,
    report: ContextReport,
)
    requires
        context.visited_on(observers, before, after, report),
    ensures
        context.visited_from(observers, before, report),
{
    let entered = choose|entered: T|
        {
            &&& #[trigger] leads(context.before_all@, before, entered)
            &&& context.visited_through(observers, before, entered, after, report)
        };
    assert(leads(context.before_all@, before, entered) && leads(
        context.after_all@,
        entered,
        after,
    ));
}

/// Whatever a visit of a context may return is a possible outcome of it.
pub proof fn lemma_visit_is_outcome_of_context<T: Clone>(
    context: Context<T>,
    observers: Seq<Arc<dyn RunnerObserver>>,
    before: T,
    report: ContextReport,
)
    requires
        context.visited_from(observers, before, report),
    ensures
        context.admits(report),
    decreases context, 1nat,
{
    let (entered, after) = choose|entered: T, after: T|
        #![trigger leads(context.before_all@, before, entered), leads(context.after_all@, entered, after)]
        {
            &&& leads(context.before_all@, before, entered)
            &&& leads(context.after_all@, entered, after)
            &&& context.visited_through(observers, before, entered, after, report)
        };
    assert forall|i: int| 0 <= i < context.blocks@.len() implies (#[trigger] context.blocks@[i]).admits(
        report.sub_reports@[i],
    ) by {
        let block = context.blocks@[i];
        let outcome = report.sub_reports@[i];
        assert(block.evaluated_in(context, observers, entered, outcome));
        let (start, inside, left) = choose|start: T, inside: T, left: T|
            #![trigger cloned(entered, start), leads(context.before_each@, start, inside), leads(context.after_each@, inside, left)]
            {
                &&& cloned(entered, start)
                &&& leads(context.before_each@, start, inside)
                &&& block.visited_on(observers, inside, outcome)
                &&& leads(context.after_each@, inside, left)
            };
        lemma_visit_is_outcome_of_block(block, observers, inside, outcome);
    }
}

/// Whatever a visit of a block may return is a possible outcome of it.
pub proof fn lemma_visit_is_outcome_of_block<T: Clone>(
    block: Block<T>,
    observers: Seq<Arc<dyn RunnerObserver>>,
    environment: T,
    report: BlockReport,
)
    requires
        block.visited_on(observers, environment, report),
    ensures
        block.admits(report),
    decreases block, 0nat,
{
    match block {
        Block::Example(_) => {},
        Block::Context(context) => {
            if let BlockReport::Context(_, outcome) = report {
                let private = choose|private: T|
                    #[trigger] cloned(environment, private) && context.visited_from(
                        observers,
                        private,
                        outcome,
                    );
                lemma_visit_is_outcome_of_context(context, observers, private, outcome);
            }
        },
    }
}

} // verus!
