//! A case-expansion and argument-resolution engine for parameterized tests.
//!
//! One test template — a function with declared parameters, some bound to
//! fixtures, literal case values, or cartesian-product value lists — is
//! expanded into a set of independently runnable, uniquely named test cases.
//! Expansion is a pure transformation: the engine reads no environment and
//! performs no I/O; callers inject the configuration it needs.

pub mod emit;
pub mod expand;
pub mod laws;
pub mod model;
pub mod names;
pub mod render;
pub mod resolver;
pub mod text;
