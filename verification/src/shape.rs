//! The shape that a test tree and its report have in common.

use vstd::prelude::*;
use crate::header::{ContextHeader, ExampleHeader};

verus! {

/// A tree of headers: what is left of a block, or of its report, when the
/// callables and the outcomes are taken away.
pub enum Shape {
    Example(ExampleHeader),
    Context(Option<ContextHeader>, Seq<Shape>),
}

} // verus!
