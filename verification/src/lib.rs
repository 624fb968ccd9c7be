//! Enablement of test cases in a hierarchical test suite.
//!
//! A suite is a tree of named groups whose leaves are test cases. Each test
//! case carries a boolean expression over named configuration flags; a test
//! case is enabled when its expression evaluates to `true` under the flag
//! values that the caller supplies.

pub mod engine;
pub mod evaluate;
pub mod filter;
pub mod normalize;
pub mod suite;
