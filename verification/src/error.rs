//! Faults of a configuration, found when it is first put to use.

use vstd::prelude::*;

verus! {

/// What is wrong with a configuration.
#[derive(Clone, Copy, Debug, PartialEq, Eq, Structural)]
pub enum ConfigError {
    /// A rule has fewer arguments than its action reads.
    MissingRuleArgument,
    /// A guard condition has fewer arguments than its predicate reads.
    MissingConditionArgument,
    /// A pattern of an identifier extractor is no regular expression.
    InvalidPattern,
    /// A field expression cannot be evaluated.
    InvalidExpression,
    /// A page address is no URL.
    InvalidUrl,
}

} // verus!
