//! The traversal of a test tree, one case for each kind of node.

use vstd::prelude::*;

verus! {

/// Visits nodes of kind `T`, threading an environment through the visit.
pub trait TestSuiteVisitor<T> {
    type Environment;

    type Output;

    fn visit(&self, visitable: &T, environment: &mut Self::Environment) -> Self::Output;
}

} // verus!
