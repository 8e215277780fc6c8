//! The read-only analysis context handed to every rule invocation, with the
//! run's growing result set.
//!
//! Rules see a consistent, un-mutated tree for the whole run and report
//! findings only by appending diagnostics here; one rule's emission never
//! prevents another rule from running.

use vstd::prelude::*;

use crate::ast::Program;
use crate::diagnostic::Diagnostic;

verus! {

/// What one rule invocation may see and do: read the whole tree (for
/// contextual checks over siblings or ancestors) and append diagnostics.
pub struct LintContext<'a> {
    /// The tree under analysis, read-only for the whole run.
    pub tree: &'a Program,
    /// The run's result: every diagnostic emitted so far, in traversal order.
    pub diagnostics: Vec<Diagnostic>,
}

impl<'a> LintContext<'a> {
    /// A fresh context over a tree, with no diagnostics yet.
    pub fn new(tree: &'a Program) -> (r: LintContext<'a>)
        ensures
            r.tree == tree,
            r.diagnostics@ =~= Seq::<Diagnostic>::empty(),
    {
        LintContext { tree, diagnostics: Vec::new() }
    }

    /// Records one diagnostic. Emission cannot fail, and has no other
    /// observable effect than appending to the run's result.
    pub fn diagnostic(&mut self, d: Diagnostic)
        ensures
            final(self).tree == old(self).tree,
            final(self).diagnostics@ == old(self).diagnostics@.push(d),
            final(self).diagnostics.deep_view() == old(self).diagnostics.deep_view().push(
                d.deep_view(),
            ),
    {
        self.diagnostics.push(d);
        proof {
            assert(self.diagnostics.deep_view() =~= old(self).diagnostics.deep_view().push(
                d.deep_view(),
            ));
        }
    }
}

} // verus!
