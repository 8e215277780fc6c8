//! A pluggable static-analysis rule engine.
//!
//! The engine walks a parsed syntax tree once, in document order, and hands
//! every node to each registered analysis rule. A rule decides on its own
//! whether the node violates a convention and, if so, emits a structured
//! [`diagnostic::Diagnostic`] through the run's context. The diagnostics of
//! one run accumulate in traversal order, so reports read top to bottom,
//! and [`engine::analyze`]'s contract pins the whole run result down: what
//! each rule says of each node, and in what order it is collected.
//!
//! The crate ships one rule, [`prefer_enum_initializers::PreferEnumInitializers`],
//! which asks that every identifier-named enum member carry an explicit
//! initializer. A small parser ([`parser::parse_source`]) and the
//! [`tester::Tester`] harness let any rule be exercised on literal source
//! snippets.

pub mod ast;
pub mod context;
pub mod diagnostic;
pub mod engine;
pub mod parser;
pub mod prefer_enum_initializers;
pub mod registry;
pub mod rule;
pub mod span;
pub mod tester;
