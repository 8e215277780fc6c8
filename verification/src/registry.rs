//! The rule registry: the fixed, compiled-in set of rules of one run.
//!
//! Registration is static — the full rule set is known at build time and
//! nothing is loaded dynamically — so the rules are a closed tagged union,
//! and dispatch is an exhaustive match. The registry is built once per run
//! and read-only during traversal. Duplicate rule names are a
//! configuration error, detected at build time and fatal for that run.

use vstd::prelude::*;

use crate::ast::{AstNode, AstNodeV};
use crate::context::LintContext;
use crate::diagnostic::{DiagnosticV, Severity};
use crate::prefer_enum_initializers::PreferEnumInitializers;
use crate::rule::{Rule, RuleCategory};

verus! {

/// One registered rule: the closed union over every rule this crate
/// compiles in. Adding a rule adds a variant and forces every dispatch
/// site to be revisited.
#[derive(Debug, Clone)]
pub enum RegisteredRule {
    PreferEnumInitializers(PreferEnumInitializers),
}

impl RegisteredRule {
    /// The name of the registered rule.
    pub open spec fn spec_name(&self) -> Seq<char> {
        match self {
            RegisteredRule::PreferEnumInitializers(r) => r.spec_name(),
        }
    }

    /// The category of the registered rule.
    pub open spec fn spec_category(&self) -> RuleCategory {
        match self {
            RegisteredRule::PreferEnumInitializers(r) => r.spec_category(),
        }
    }

    /// The default severity of the registered rule.
    pub open spec fn spec_severity(&self) -> Severity {
        match self {
            RegisteredRule::PreferEnumInitializers(r) => r.spec_severity(),
        }
    }

    /// Exactly the diagnostics the registered rule emits for one node.
    pub open spec fn spec_diagnostics(&self, node: AstNodeV) -> Seq<DiagnosticV> {
        match self {
            RegisteredRule::PreferEnumInitializers(r) => r.spec_diagnostics(node),
        }
    }

    /// The rule's name, as reports and configuration use it.
    pub fn name(&self) -> (r: String)
        ensures
            r@ == self.spec_name(),
    {
        match self {
            RegisteredRule::PreferEnumInitializers(r) => r.name(),
        }
    }

    /// The rule's category.
    pub fn category(&self) -> (r: RuleCategory)
        ensures
            r == self.spec_category(),
    {
        match self {
            RegisteredRule::PreferEnumInitializers(r) => r.category(),
        }
    }

    /// The severity every diagnostic of this rule carries by default.
    pub fn default_severity(&self) -> (r: Severity)
        ensures
            r == self.spec_severity(),
    {
        match self {
            RegisteredRule::PreferEnumInitializers(r) => r.default_severity(),
        }
    }

    /// An equal copy of the registered rule, for building sub-registries.
    pub fn duplicate(&self) -> (r: RegisteredRule)
        ensures
            r == *self,
    {
        match self {
            RegisteredRule::PreferEnumInitializers(_) => RegisteredRule::PreferEnumInitializers(
                PreferEnumInitializers,
            ),
        }
    }

    /// Dispatches one node to the registered rule.
    pub fn run<'a, 'b>(&self, node: &AstNode<'a>, ctx: &mut LintContext<'b>)
        ensures
            final(ctx).tree == old(ctx).tree,
            final(ctx).diagnostics.deep_view() == old(ctx).diagnostics.deep_view()
                + self.spec_diagnostics(node.deep_view()),
    {
        match self {
            RegisteredRule::PreferEnumInitializers(r) => r.run(node, ctx),
        }
    }
}

/// Every diagnostic a registered rule emits carries that rule's name, so a
/// run's combined result can always be told apart by rule.
pub proof fn lemma_rule_diags_carry_name(r: RegisteredRule, node: AstNodeV)
    ensures
        forall|d: DiagnosticV|
            r.spec_diagnostics(node).contains(d) ==> d.rule == r.spec_name(),
{
    match r {
        RegisteredRule::PreferEnumInitializers(_) => {
            if let AstNodeV::EnumDeclaration(decl) = node {
                crate::prefer_enum_initializers::lemma_diags_only_from_flaggable(
                    decl.members,
                    decl.members.len() as int,
                );
            }
        },
    }
}

/// Whether no registered rule finds anything in a node: for the
/// initializer-presence rule, an enum declaration no member of which is
/// both uninitialized and identifier-named; every other node kind, always.
pub open spec fn node_clean(n: AstNodeV) -> bool {
    match n {
        AstNodeV::EnumDeclaration(d) => forall|j: int|
            0 <= j < d.members.len() ==> !crate::prefer_enum_initializers::flaggable(
                #[trigger] d.members[j],
            ),
        _ => true,
    }
}

/// On a clean node, every registered rule stays silent.
pub proof fn lemma_rule_silent_on_clean_node(r: RegisteredRule, node: AstNodeV)
    requires
        node_clean(node),
    ensures
        r.spec_diagnostics(node) =~= Seq::<DiagnosticV>::empty(),
{
    match r {
        RegisteredRule::PreferEnumInitializers(_) => {
            if let AstNodeV::EnumDeclaration(d) = node {
                crate::prefer_enum_initializers::lemma_no_flaggable_member_no_diagnostic(
                    d.members,
                    d.members.len() as int,
                );
            }
        },
    }
}

/// The full compiled-in rule set, in registration order.
pub open spec fn all_rules_spec() -> Seq<RegisteredRule> {
    seq![RegisteredRule::PreferEnumInitializers(PreferEnumInitializers)]
}

/// Builds the full compiled-in rule set.
pub fn all_rules() -> (v: Vec<RegisteredRule>)
    ensures
        v@ =~= all_rules_spec(),
{
    let mut v: Vec<RegisteredRule> = Vec::new();
    v.push(RegisteredRule::PreferEnumInitializers(PreferEnumInitializers));
    v
}

/// A configuration error, surfaced at registry-build time, before any
/// traversal begins.
#[derive(Debug, Clone)]
pub enum ConfigError {
    /// Two registered rules share this name.
    DuplicateRuleName(String),
}

/// Whether every rule of a set carries a distinct name.
pub open spec fn unique_names(rules: Seq<RegisteredRule>) -> bool {
    forall|i: int, j: int|
        0 <= i < j < rules.len() ==> (#[trigger] rules[i]).spec_name() != (
        #[trigger] rules[j]).spec_name()
}

/// The registry of one run: rule identities mapped to their metadata and
/// dispatch, read-only during traversal.
pub struct Registry {
    pub rules: Vec<RegisteredRule>,
}

impl Registry {
    /// A well-formed registry holds no two rules of one name.
    pub open spec fn wf(&self) -> bool {
        unique_names(self.rules@)
    }

    /// Builds a registry from a rule set. Succeeds exactly when the names
    /// are unique; a duplicate name is fatal and names the offender.
    pub fn new(rules: Vec<RegisteredRule>) -> (r: Result<Registry, ConfigError>)
        ensures
            match r {
                Ok(reg) => reg.rules@ == rules@ && unique_names(rules@),
                Err(e) => !unique_names(rules@) && match e {
                    ConfigError::DuplicateRuleName(n) => exists|i: int, j: int|
                        0 <= i < j < rules@.len() && (#[trigger] rules@[i]).spec_name() == (
                        #[trigger] rules@[j]).spec_name() && n@ == rules@[i].spec_name(),
                },
            },
    {
        let n = rules.len();
        let mut i: usize = 0;
        while i < n
            invariant
                n == rules@.len(),
                i <= n,
                forall|a: int, b: int|
                    0 <= a < b < rules@.len() && a < i ==> (#[trigger] rules@[a]).spec_name() != (
                    #[trigger] rules@[b]).spec_name(),
            decreases n - i,
        {
            let name_i = rules[i].name();
            let mut j: usize = i + 1;
            while j < n
                invariant
                    n == rules@.len(),
                    i < j || i == j,
                    i < n,
                    i + 1 <= j <= n,
                    name_i@ == rules@[i as int].spec_name(),
                    forall|b: int|
                        i < b < j ==> (#[trigger] rules@[b]).spec_name() != rules@[
                            i as int
                        ].spec_name(),
                decreases n - j,
            {
                let name_j = rules[j].name();
                if name_i == name_j {
                    return Err(ConfigError::DuplicateRuleName(name_i));
                }
                j += 1;
            }
            i += 1;
        }
        Ok(Registry { rules })
    }

    /// The number of registered rules.
    pub fn len(&self) -> (r: usize)
        ensures
            r == self.rules@.len(),
    {
        self.rules.len()
    }
}

} // verus!
