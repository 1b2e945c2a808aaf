//! Headers: the display metadata of the nodes of a test tree.

use vstd::prelude::*;

verus! {

/// How a suite was declared.
#[derive(Clone, Copy, PartialEq, Eq, Debug)]
pub enum SuiteLabel {
    Suite,
    Describe,
    Given,
}

/// How a context was declared.
#[derive(Clone, Copy, PartialEq, Eq, Debug)]
pub enum ContextLabel {
    Describe,
    Specify,
    Context,
    Given,
    When,
}

/// How an example was declared.
#[derive(Clone, Copy, PartialEq, Eq, Debug)]
pub enum ExampleLabel {
    Example,
    It,
    Then,
}

/// The label and name of a suite.
#[derive(Clone, Copy, PartialEq, Eq, Debug)]
pub struct SuiteHeader {
    pub label: SuiteLabel,
    pub name: &'static str,
}

/// The label and name of a context.
#[derive(Clone, Copy, PartialEq, Eq, Debug)]
pub struct ContextHeader {
    pub label: ContextLabel,
    pub name: &'static str,
}

/// The label and name of an example.
#[derive(Clone, Copy, PartialEq, Eq, Debug)]
pub struct ExampleHeader {
    pub label: ExampleLabel,
    pub name: &'static str,
}

impl SuiteHeader {
    pub fn new(label: SuiteLabel, name: &'static str) -> (header: Self)
        ensures
            header == (SuiteHeader { label, name }),
    {
        SuiteHeader { label, name }
    }
}

impl ContextHeader {
    pub fn new(label: ContextLabel, name: &'static str) -> (header: Self)
        ensures
            header == (ContextHeader { label, name }),
    {
        ContextHeader { label, name }
    }
}

impl ExampleHeader {
    pub fn new(label: ExampleLabel, name: &'static str) -> (header: Self)
        ensures
            header == (ExampleHeader { label, name }),
    {
        ExampleHeader { label, name }
    }
}

impl Default for ExampleHeader {
    /// The header of an example declared with `it` and named "example".
    fn default() -> (header: Self)
        ensures
            header == (ExampleHeader { label: ExampleLabel::It, name: "example" }),
    {
        ExampleHeader { label: ExampleLabel::It, name: "example" }
    }
}

} // verus!
