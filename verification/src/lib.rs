//! A BDD-style test engine.
//!
//! A suite is a tree: contexts hold blocks, a block is an example or a nested
//! context, and a context carries hooks to run before and after its blocks.
//! A runner walks the tree on an environment that every branch gets a copy
//! of, serially or on a thread pool, tells its observers of every node that
//! it enters and leaves, and gathers the outcomes in a report that mirrors
//! the tree.
//!
//! - `header`: the labels and names of the nodes.
//! - `block`: examples, hooks, blocks and suites.
//! - `context`: contexts, and the functions that declare a tree.
//! - `report`: the report tree, and when it fails.
//! - `shape`: what a tree and its report have in common.
//! - `runner`: the runner, its configuration and its observers.
//! - `visitor`: the traversal that the runner implements.
//! - `laws`: what holds of every run.

pub mod block;
pub mod context;
pub mod header;
pub mod laws;
pub mod report;
pub mod runner;
pub mod shape;
pub mod visitor;
