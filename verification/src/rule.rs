//! The contract every analysis rule implements.
//!
//! A rule declares a stable unique name, a category and a default severity,
//! and a `run` operation that the engine invokes once per visited node. A
//! rule's run is a pure function of the node and the read-only context: it
//! never mutates the tree, and its only observable effect is the sequence
//! of diagnostics it appends, which the trait pins down exactly through
//! [`Rule::spec_diagnostics`].

use vstd::prelude::*;

use crate::ast::{AstNode, AstNodeV};
use crate::context::LintContext;
use crate::diagnostic::{DiagnosticV, Severity};

verus! {

/// The broad grouping a rule belongs to, used when severities are resolved.
#[derive(Debug, Clone, Copy, PartialEq, Eq, Structural)]
pub enum RuleCategory {
    Correctness,
    Pedantic,
    Style,
}

/// One unit of analysis. The engine invokes [`Rule::run`] on every node of
/// a traversal; the rule filters by the node's kind and emits diagnostics
/// for the nodes it objects to.
pub trait Rule: Sized {
    /// The rule's stable, unique name.
    spec fn spec_name(&self) -> Seq<char>;

    /// The rule's category.
    spec fn spec_category(&self) -> RuleCategory;

    /// The severity every diagnostic of this rule carries by default.
    spec fn spec_severity(&self) -> Severity;

    /// Exactly the diagnostics the rule emits for one node, in order.
    spec fn spec_diagnostics(&self, node: AstNodeV) -> Seq<DiagnosticV>;

    /// The rule's name, as callers and reports use it.
    fn name(&self) -> (r: String)
        ensures
            r@ == self.spec_name(),
    ;

    /// The rule's category.
    fn category(&self) -> (r: RuleCategory)
        ensures
            r == self.spec_category(),
    ;

    /// The rule's default severity.
    fn default_severity(&self) -> (r: Severity)
        ensures
            r == self.spec_severity(),
    ;

    /// Inspects one node and appends exactly
    /// `spec_diagnostics` of that node to the run's result, leaving the
    /// tree and everything already collected unchanged.
    fn run<'a, 'b>(&self, node: &AstNode<'a>, ctx: &mut LintContext<'b>)
        ensures
            final(ctx).tree == old(ctx).tree,
            final(ctx).diagnostics.deep_view() == old(ctx).diagnostics.deep_view()
                + self.spec_diagnostics(node.deep_view()),
    ;
}

} // verus!
