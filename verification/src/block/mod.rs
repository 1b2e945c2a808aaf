//! The blocks of a test tree.

pub mod example;
pub mod hook;
pub mod suite;

use std::sync::Arc;
use vstd::prelude::*;
use crate::block::example::Example;
use crate::block::hook::leads;
use crate::context::Context;
use crate::report::BlockReport;
use crate::runner::observer::{told, Event, RunnerObserver};
use crate::shape::Shape;

verus! {

/// A member of a context: an example, or a nested context.
#[verifier::reject_recursive_types(T)]
pub enum Block<T> {
    Example(Example<T>),
    Context(Context<T>),
}

impl<T> Block<T> {
    /// The headers of this block and of all that it holds.
    pub open spec fn shape(self) -> Shape
        decreases self, 0nat,
    {
        match self {
            Block::Example(example) => Shape::Example(example.header),
            Block::Context(context) => Shape::Context(context.header, context.shapes()),
        }
    }

    /// Whether `report` is a possible outcome of this block: it has the
    /// block's kind and header, and holds, for an example, a report that the
    /// example's function may return on some environment, for a context, a
    /// possible outcome of that context.
    pub open spec fn admits(self, report: BlockReport) -> bool
        decreases self, 0nat,
    {
        match self {
            Block::Example(example) => {
                &&& report matches BlockReport::Example(header, outcome)
                &&& header == example.header
                &&& exists|environment: T| #[trigger] example.function.verdict(environment, outcome)
            },
            Block::Context(context) => {
                &&& report matches BlockReport::Context(header, outcome)
                &&& header == context.header
                &&& context.admits(outcome)
            },
        }
    }
}

impl<T: Clone> Block<T> {
    /// Whether a visit of this block on `environment`, with `observers`
    /// listening, may return `report`.
    ///
    /// For an example: the observers are told that it is entered, its
    /// function judges `environment`, and the observers are told that it is
    /// left, with the report that the function returned; `report` holds the
    /// example's header and that report.
    ///
    /// For a nested context: the context is visited on a copy of
    /// `environment`; `report` holds the context's header and what that
    /// visit returned.
    pub open spec fn visited_on(
        self,
        observers: Seq<Arc<dyn RunnerObserver>>,
        environment: T,
        report: BlockReport,
    ) -> bool
        decreases self, 0nat,
    {
        match self {
            Block::Example(example) => {
                &&& report matches BlockReport::Example(header, outcome)
                &&& header == example.header
                &&& example.function.verdict(environment, outcome)
                &&& told(observers, Event::EnterExample(&example.header))
                &&& told(observers, Event::ExitExample(&example.header, &outcome))
            },
            Block::Context(context) => {
                &&& report matches BlockReport::Context(header, outcome)
                &&& header == context.header
                &&& exists|private: T|
                    #[trigger] cloned(environment, private) && context.visited_from(
                        observers,
                        private,
                        outcome,
                    )
            },
        }
    }

    /// Whether the evaluation of this block as a member of `context` on
    /// `environment`, with `observers` listening, may return `report`: on a
    /// copy of `environment`, every `before_each` hook of `context` runs
    /// once, in declaration order, then this block is visited, which returns
    /// `report`, then every `after_each` hook of `context` runs once, in
    /// declaration order, each on the environment as the step before left it.
    pub open spec fn evaluated_in(
        self,
        context: Context<T>,
        observers: Seq<Arc<dyn RunnerObserver>>,
        environment: T,
        report: BlockReport,
    ) -> bool
        decreases self, 1nat,
    {
        exists|start: T, entered: T, left: T|
            #![trigger cloned(environment, start), leads(context.before_each@, start, entered), leads(context.after_each@, entered, left)]
            {
                &&& cloned(environment, start)
                &&& leads(context.before_each@, start, entered)
                &&& self.visited_on(observers, entered, report)
                &&& leads(context.after_each@, entered, left)
            }
    }
}

} // verus!
