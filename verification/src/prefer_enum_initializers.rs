//! Require each identifier-named enum member to carry an explicit
//! initializer.
//!
//! In projects where the values of enum members matter, an implicit "next
//! value" can change silently when the enum is edited, so every member
//! should state its value. A member whose name is not a plain identifier
//! cannot sensibly be "the next implicit value" and is never flagged.

use vstd::prelude::*;

use crate::ast::{AstNode, AstNodeV, EnumMemberV, MemberName, MemberNameV};
use crate::context::LintContext;
use crate::diagnostic::{dec_digits, Diagnostic, DiagnosticV, Severity};
use crate::rule::{Rule, RuleCategory};
use crate::span::Span;

verus! {

/// The initializer-presence rule. Stateless: one value serves every run.
#[derive(Debug, Default, Clone)]
pub struct PreferEnumInitializers;

/// The rule's name.
pub open spec fn rule_name_spec() -> Seq<char> {
    "prefer-enum-initializers"@
}

/// The message of one diagnostic: a fixed template around the member's name.
pub open spec fn message_spec(name: Seq<char>) -> Seq<char> {
    "typescript-eslint(prefer-enum-initializers):The value of the member \""@ + name
        + "\" should be explicitly defined."@
}

/// The suggested fix: initialize the member with its 1-based ordinal, the
/// member's position in its parent's member list.
pub open spec fn fix_spec(name: Seq<char>, ordinal: nat) -> Seq<char> {
    "Can be fixed to \""@ + name + "\" = "@ + dec_digits(ordinal) + "."@
}

/// Whether the rule objects to a member: it lacks an initializer and its
/// name is a plain identifier.
pub open spec fn flaggable(m: EnumMemberV) -> bool {
    m.initializer is None && m.id is Identifier
}

/// The one diagnostic emitted for a flaggable member at the given 1-based
/// ordinal.
pub open spec fn member_diagnostic(name: Seq<char>, ordinal: nat, span: Span) -> DiagnosticV {
    DiagnosticV {
        rule: rule_name_spec(),
        severity: Severity::Warning,
        message: message_spec(name),
        primary_span: span,
        secondary_labels: Seq::empty(),
        suggested_fix: Some(fix_spec(name, ordinal)),
    }
}

/// The diagnostics for one member at 1-based position `ordinal`: one if the
/// member is flaggable, none otherwise.
pub open spec fn member_diags(m: EnumMemberV, ordinal: nat) -> Seq<DiagnosticV> {
    match m.id {
        MemberNameV::Identifier(name) => if m.initializer is None {
            seq![member_diagnostic(name, ordinal, m.span)]
        } else {
            Seq::empty()
        },
        MemberNameV::StringName(_) => Seq::empty(),
    }
}

/// The diagnostics for the first `n` members of a member list, in member
/// order, each under its 1-based ordinal.
pub open spec fn decl_diags_upto(members: Seq<EnumMemberV>, n: int) -> Seq<DiagnosticV>
    decreases n,
{
    if n <= 0 {
        Seq::empty()
    } else {
        decl_diags_upto(members, n - 1) + member_diags(members[n - 1], n as nat)
    }
}

/// Everything the rule says of one node: for an enum declaration, the
/// member diagnostics in member order; for every other kind, nothing.
pub open spec fn rule_diags(node: AstNodeV) -> Seq<DiagnosticV> {
    match node {
        AstNodeV::EnumDeclaration(d) => decl_diags_upto(d.members, d.members.len() as int),
        _ => Seq::empty(),
    }
}

/// Builds the diagnostic for one flaggable member.
fn build_diagnostic(name: &str, ordinal: usize, span: Span) -> (r: Diagnostic)
    ensures
        r.deep_view() == member_diagnostic(name@, ordinal as nat, span),
{
    let message = "typescript-eslint(prefer-enum-initializers):The value of the member \""
        .to_owned().concat(name).concat("\" should be explicitly defined.");
    let fix = "Can be fixed to \"".to_owned().concat(name).concat("\" = ").concat(
        crate::diagnostic::usize_to_decimal(ordinal).as_str(),
    ).concat(".");
    let r = Diagnostic {
        rule: "prefer-enum-initializers".to_owned(),
        severity: Severity::Warning,
        message,
        primary_span: span,
        secondary_labels: Vec::new(),
        suggested_fix: Some(fix),
    };
    proof {
        assert(r.deep_view().secondary_labels =~= Seq::<crate::diagnostic::SecondaryLabelV>::empty());
        assert(r.deep_view() =~= member_diagnostic(name@, ordinal as nat, span));
    }
    r
}

impl Rule for PreferEnumInitializers {
    open spec fn spec_name(&self) -> Seq<char> {
        rule_name_spec()
    }

    open spec fn spec_category(&self) -> RuleCategory {
        RuleCategory::Pedantic
    }

    open spec fn spec_severity(&self) -> Severity {
        Severity::Warning
    }

    open spec fn spec_diagnostics(&self, node: AstNodeV) -> Seq<DiagnosticV> {
        rule_diags(node)
    }

    fn name(&self) -> (r: String) {
        "prefer-enum-initializers".to_owned()
    }

    fn category(&self) -> (r: RuleCategory) {
        RuleCategory::Pedantic
    }

    fn default_severity(&self) -> (r: Severity) {
        Severity::Warning
    }

    fn run<'a, 'b>(&self, node: &AstNode<'a>, ctx: &mut LintContext<'b>) {
        let decl = match node {
            AstNode::EnumDeclaration(decl) => decl,
            _ => {
                proof {
                    assert(old(ctx).diagnostics.deep_view() + self.spec_diagnostics(
                        node.deep_view(),
                    ) =~= old(ctx).diagnostics.deep_view());
                }
                return ;
            },
        };
        let ghost members = decl.members.deep_view();
        let mut index: usize = 0;
        proof {
            assert(ctx.diagnostics.deep_view() =~= old(ctx).diagnostics.deep_view()
                + decl_diags_upto(members, 0));
        }
        while index < decl.members.len()
            invariant
                index <= decl.members.len(),
                members == decl.members.deep_view(),
                ctx.tree == old(ctx).tree,
                ctx.diagnostics.deep_view() == old(ctx).diagnostics.deep_view() + decl_diags_upto(
                    members,
                    index as int,
                ),
            decreases decl.members.len() - index,
        {
            let member = &decl.members[index];
            if member.initializer.is_none() {
                if let MemberName::Identifier(name) = &member.id {
                    let d = build_diagnostic(name.as_str(), index + 1, member.span);
                    ctx.diagnostic(d);
                }
            }
            proof {
                assert(ctx.diagnostics.deep_view() =~= old(ctx).diagnostics.deep_view()
                    + decl_diags_upto(members, index + 1));
            }
            index += 1;
        }
        proof {
            assert(ctx.diagnostics.deep_view() =~= old(ctx).diagnostics.deep_view()
                + self.spec_diagnostics(node.deep_view()));
        }
    }
}

/// With zero members, a rule that inspects member initializers reports
/// nothing.
pub proof fn lemma_empty_enum_unflagged(members: Seq<EnumMemberV>)
    requires
        members.len() == 0,
    ensures
        decl_diags_upto(members, members.len() as int) =~= Seq::<DiagnosticV>::empty(),
{
}

/// Where no member of a list is flaggable — every member has an explicit
/// initializer, of whatever value type, or a non-identifier name — the rule
/// reports nothing.
pub proof fn lemma_no_flaggable_member_no_diagnostic(members: Seq<EnumMemberV>, n: int)
    requires
        0 <= n <= members.len(),
        forall|j: int| 0 <= j < n ==> !flaggable(#[trigger] members[j]),
    ensures
        decl_diags_upto(members, n) =~= Seq::<DiagnosticV>::empty(),
    decreases n,
{
    if n > 0 {
        lemma_no_flaggable_member_no_diagnostic(members, n - 1);
        assert(decl_diags_upto(members, n) =~= Seq::<DiagnosticV>::empty());
    }
}

/// Where every member with a missing initializer has an explicit
/// initializer — that is, all members are initialized — nothing is
/// reported.
pub proof fn lemma_all_initialized_no_diagnostic(members: Seq<EnumMemberV>)
    requires
        forall|j: int|
            0 <= j < members.len() ==> (#[trigger] members[j]).initializer is Some,
    ensures
        decl_diags_upto(members, members.len() as int) =~= Seq::<DiagnosticV>::empty(),
{
    lemma_no_flaggable_member_no_diagnostic(members, members.len() as int);
}

/// Members whose name is not a plain identifier are never flagged, even if
/// they lack an initializer: where every uninitialized member has such a
/// name, nothing is reported.
pub proof fn lemma_string_named_members_never_flagged(members: Seq<EnumMemberV>)
    requires
        forall|j: int|
            0 <= j < members.len() && (#[trigger] members[j]).initializer is None
                ==> !(members[j].id is Identifier),
    ensures
        decl_diags_upto(members, members.len() as int) =~= Seq::<DiagnosticV>::empty(),
{
    lemma_no_flaggable_member_no_diagnostic(members, members.len() as int);
}

/// With exactly one flaggable member, exactly one diagnostic comes out, and
/// its ordinal is that member's 1-based position in the member list — even
/// when earlier members do have initializers: the ordinal counts position,
/// not missing initializers.
pub proof fn lemma_single_flaggable_member(members: Seq<EnumMemberV>, n: int, k: int)
    requires
        0 <= k < n <= members.len(),
        flaggable(members[k]),
        forall|j: int| 0 <= j < n && j != k ==> !flaggable(#[trigger] members[j]),
    ensures
        decl_diags_upto(members, n) =~= seq![
            member_diagnostic(members[k].id->Identifier_0, (k + 1) as nat, members[k].span),
        ],
    decreases n,
{
    if n - 1 == k {
        lemma_no_flaggable_member_no_diagnostic(members, n - 1);
    } else {
        lemma_single_flaggable_member(members, n - 1, k);
        assert(member_diags(members[n - 1], n as nat) =~= Seq::<DiagnosticV>::empty());
    }
}

/// With exactly one member lacking an initializer, and that member
/// identifier-named, exactly one diagnostic is emitted, whose ordinal is
/// the member's 1-based position. (A sole uninitialized member whose name
/// is not an identifier yields no diagnostic at all: see
/// [`lemma_string_named_members_never_flagged`].)
pub proof fn lemma_one_uninitialized_member_one_diagnostic(members: Seq<EnumMemberV>, k: int)
    requires
        0 <= k < members.len(),
        members[k].initializer is None,
        members[k].id is Identifier,
        forall|j: int|
            0 <= j < members.len() && j != k ==> (#[trigger] members[j]).initializer is Some,
    ensures
        decl_diags_upto(members, members.len() as int) =~= seq![
            member_diagnostic(members[k].id->Identifier_0, (k + 1) as nat, members[k].span),
        ],
{
    lemma_single_flaggable_member(members, members.len() as int, k);
}

/// Every diagnostic of this rule points at a flaggable member: it is the
/// diagnostic of some identifier-named, uninitialized member of the list,
/// under that member's 1-based ordinal.
pub proof fn lemma_diags_only_from_flaggable(members: Seq<EnumMemberV>, n: int)
    requires
        0 <= n <= members.len(),
    ensures
        forall|d: DiagnosticV|
            decl_diags_upto(members, n).contains(d) ==> exists|j: int|
                0 <= j < n && flaggable(#[trigger] members[j]) && d == member_diagnostic(
                    members[j].id->Identifier_0,
                    (j + 1) as nat,
                    members[j].span,
                ),
    decreases n,
{
    if n > 0 {
        lemma_diags_only_from_flaggable(members, n - 1);
        assert forall|d: DiagnosticV| decl_diags_upto(members, n).contains(d) implies exists|j: int|
            0 <= j < n && flaggable(#[trigger] members[j]) && d == member_diagnostic(
                members[j].id->Identifier_0,
                (j + 1) as nat,
                members[j].span,
            ) by {
            let prefix = decl_diags_upto(members, n - 1);
            let last = member_diags(members[n - 1], n as nat);
            assert(decl_diags_upto(members, n) == prefix + last);
            let idx = choose|idx: int|
                0 <= idx < decl_diags_upto(members, n).len() && decl_diags_upto(members, n)[idx]
                    == d;
            if idx < prefix.len() {
                assert(prefix.contains(d));
            } else {
                assert(last[idx - prefix.len()] == d);
                assert(flaggable(members[n - 1]));
                assert(d == member_diagnostic(
                    members[n - 1].id->Identifier_0,
                    n as nat,
                    members[n - 1].span,
                ));
            }
        }
    }
}

} // verus!
