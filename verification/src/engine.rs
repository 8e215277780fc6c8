//! The traversal and dispatch engine.
//!
//! [`analyze`] performs one depth-first, pre-order walk of the tree —
//! parent before children, every node visited exactly once, nothing pruned
//! — and at each node invokes every registered rule. Diagnostics accumulate
//! in traversal (document) order, and inside one node in registration
//! order, so a run's output is deterministic and reads top to bottom.

use vstd::prelude::*;
use vstd::seq_lib::group_seq_properties;

use crate::ast::{AstNode, AstNodeV, EnumMemberV, Program, ProgramV};
use crate::context::LintContext;
use crate::diagnostic::{DiagnosticV, RunResult};
use crate::registry::{lemma_rule_diags_carry_name, RegisteredRule, Registry};

verus! {

/// The diagnostics of the first `k` rules of a set, run on one node, in
/// registration order.
pub open spec fn rule_pass_upto(rules: Seq<RegisteredRule>, node: AstNodeV, k: int) -> Seq<
    DiagnosticV,
>
    decreases k,
{
    if k <= 0 {
        Seq::empty()
    } else {
        rule_pass_upto(rules, node, k - 1) + rules[k - 1].spec_diagnostics(node)
    }
}

/// The diagnostics of one visited node: every rule of the set, in
/// registration order.
pub open spec fn node_diags(rules: Seq<RegisteredRule>, node: AstNodeV) -> Seq<DiagnosticV> {
    rule_pass_upto(rules, node, rules.len() as int)
}

/// The diagnostics of visiting one member and, after it, its initializer
/// expression if it has one.
pub open spec fn member_traversal_diags(rules: Seq<RegisteredRule>, m: EnumMemberV) -> Seq<
    DiagnosticV,
> {
    node_diags(rules, AstNodeV::EnumMember(m)) + match m.initializer {
        Some(e) => node_diags(rules, AstNodeV::Expression(e)),
        None => Seq::empty(),
    }
}

/// The diagnostics of visiting the first `k` members of a list, in order.
pub open spec fn members_upto(rules: Seq<RegisteredRule>, ms: Seq<EnumMemberV>, k: int) -> Seq<
    DiagnosticV,
>
    decreases k,
{
    if k <= 0 {
        Seq::empty()
    } else {
        members_upto(rules, ms, k - 1) + member_traversal_diags(rules, ms[k - 1])
    }
}

/// The diagnostics of visiting one declaration and then its members.
pub open spec fn decl_traversal_diags(
    rules: Seq<RegisteredRule>,
    d: crate::ast::EnumDeclarationV,
) -> Seq<DiagnosticV> {
    node_diags(rules, AstNodeV::EnumDeclaration(d)) + members_upto(
        rules,
        d.members,
        d.members.len() as int,
    )
}

/// The diagnostics of visiting the first `k` declarations of a list.
pub open spec fn decls_upto(
    rules: Seq<RegisteredRule>,
    ds: Seq<crate::ast::EnumDeclarationV>,
    k: int,
) -> Seq<DiagnosticV>
    decreases k,
{
    if k <= 0 {
        Seq::empty()
    } else {
        decls_upto(rules, ds, k - 1) + decl_traversal_diags(rules, ds[k - 1])
    }
}

/// The run result of one full traversal: the root first, then each
/// declaration with its members, in document order.
pub open spec fn analyze_spec(p: ProgramV, rules: Seq<RegisteredRule>) -> Seq<DiagnosticV> {
    node_diags(rules, AstNodeV::Program(p)) + decls_upto(
        rules,
        p.declarations,
        p.declarations.len() as int,
    )
}

/// Invokes every registered rule on one node, in registration order.
fn run_rules_on_node<'a, 'b>(registry: &Registry, node: &AstNode<'a>, ctx: &mut LintContext<'b>)
    ensures
        final(ctx).tree == old(ctx).tree,
        final(ctx).diagnostics.deep_view() == old(ctx).diagnostics.deep_view() + node_diags(
            registry.rules@,
            node.deep_view(),
        ),
{
    let n = registry.rules.len();
    proof {
        assert(ctx.diagnostics.deep_view() =~= old(ctx).diagnostics.deep_view() + rule_pass_upto(
            registry.rules@,
            node.deep_view(),
            0,
        ));
    }
    let mut k: usize = 0;
    while k < n
        invariant
            n == registry.rules@.len(),
            k <= n,
            ctx.tree == old(ctx).tree,
            ctx.diagnostics.deep_view() == old(ctx).diagnostics.deep_view() + rule_pass_upto(
                registry.rules@,
                node.deep_view(),
                k as int,
            ),
        decreases n - k,
    {
        registry.rules[k].run(node, ctx);
        proof {
            assert(ctx.diagnostics.deep_view() =~= old(ctx).diagnostics.deep_view()
                + rule_pass_upto(registry.rules@, node.deep_view(), k + 1));
        }
        k += 1;
    }
}

/// Walks the tree once and collects what every registered rule says of
/// every node, in document order: the whole contract of one analysis run.
pub fn analyze(tree: &Program, registry: &Registry) -> (out: RunResult)
    ensures
        out.deep_view() == analyze_spec(tree.deep_view(), registry.rules@),
{
    let ghost rules = registry.rules@;
    let ghost root = AstNodeV::Program(tree.deep_view());
    let ghost ds = tree.declarations.deep_view();
    let mut ctx = LintContext::new(tree);
    let root_node = AstNode::Program(tree);
    run_rules_on_node(registry, &root_node, &mut ctx);
    proof {
        assert(ctx.diagnostics.deep_view() =~= node_diags(rules, root) + decls_upto(rules, ds, 0));
    }
    let mut di: usize = 0;
    while di < tree.declarations.len()
        invariant
            ds == tree.declarations.deep_view(),
            rules == registry.rules@,
            root == AstNodeV::Program(tree.deep_view()),
            di <= tree.declarations.len(),
            ds.len() == tree.declarations.len(),
            ctx.tree == tree,
            ctx.diagnostics.deep_view() == node_diags(rules, root) + decls_upto(
                rules,
                ds,
                di as int,
            ),
        decreases tree.declarations.len() - di,
    {
        let decl = &tree.declarations[di];
        let ghost dv = ds[di as int];
        let ghost before_decl = ctx.diagnostics.deep_view();
        let decl_node = AstNode::EnumDeclaration(decl);
        run_rules_on_node(registry, &decl_node, &mut ctx);
        proof {
            assert(decl.deep_view() == dv);
            assert(ctx.diagnostics.deep_view() =~= before_decl + node_diags(
                rules,
                AstNodeV::EnumDeclaration(dv),
            ) + members_upto(rules, dv.members, 0));
        }
        let mut mi: usize = 0;
        while mi < decl.members.len()
            invariant
                rules == registry.rules@,
                dv == decl.deep_view(),
                mi <= decl.members.len(),
                dv.members.len() == decl.members.len(),
                ctx.tree == tree,
                ctx.diagnostics.deep_view() == before_decl + node_diags(
                    rules,
                    AstNodeV::EnumDeclaration(dv),
                ) + members_upto(rules, dv.members, mi as int),
            decreases decl.members.len() - mi,
        {
            let member = &decl.members[mi];
            let ghost mv = dv.members[mi as int];
            let ghost before_member = ctx.diagnostics.deep_view();
            let member_node = AstNode::EnumMember(member);
            run_rules_on_node(registry, &member_node, &mut ctx);
            if let Some(init) = &member.initializer {
                let init_node = AstNode::Expression(init);
                run_rules_on_node(registry, &init_node, &mut ctx);
            }
            proof {
                assert(member.deep_view() == mv);
                assert(ctx.diagnostics.deep_view() =~= before_member + member_traversal_diags(
                    rules,
                    mv,
                ));
                assert(ctx.diagnostics.deep_view() =~= before_decl + node_diags(
                    rules,
                    AstNodeV::EnumDeclaration(dv),
                ) + members_upto(rules, dv.members, mi + 1));
            }
            mi += 1;
        }
        proof {
            assert(ctx.diagnostics.deep_view() =~= before_decl + decl_traversal_diags(rules, dv));
            assert(ctx.diagnostics.deep_view() =~= node_diags(rules, root) + decls_upto(
                rules,
                ds,
                di + 1,
            ));
        }
        di += 1;
    }
    proof {
        assert(ctx.diagnostics.deep_view() =~= analyze_spec(tree.deep_view(), registry.rules@));
    }
    ctx.diagnostics
}

/// Traversal-order determinism: the run result is a function of the tree
/// and the rule set alone, so two runs over one tree agree exactly, in
/// content and in order.
pub proof fn lemma_analyze_deterministic(
    p: ProgramV,
    rules: Seq<RegisteredRule>,
    r1: Seq<DiagnosticV>,
    r2: Seq<DiagnosticV>,
)
    requires
        r1 == analyze_spec(p, rules),
        r2 == analyze_spec(p, rules),
    ensures
        r1 == r2,
{
}

/// The rules of a set whose names a configuration keeps enabled, in their
/// registration order.
pub open spec fn enabled_only(rules: Seq<RegisteredRule>, names: Set<Seq<char>>) -> Seq<
    RegisteredRule,
> {
    rules.filter(|r: RegisteredRule| names.contains(r.spec_name()))
}

/// The diagnostics of a run result that were emitted by rules of the given
/// names, keeping their run order.
pub open spec fn diags_of_rules(diags: Seq<DiagnosticV>, names: Set<Seq<char>>) -> Seq<
    DiagnosticV,
> {
    diags.filter(|d: DiagnosticV| names.contains(d.rule))
}

proof fn lemma_filter_all_true<A>(s: Seq<A>, pred: spec_fn(A) -> bool)
    requires
        forall|i: int| 0 <= i < s.len() ==> pred(#[trigger] s[i]),
    ensures
        s.filter(pred) =~= s,
    decreases s.len(),
{
    reveal(Seq::filter);
    if s.len() > 0 {
        lemma_filter_all_true(s.drop_last(), pred);
    }
}

proof fn lemma_filter_all_false<A>(s: Seq<A>, pred: spec_fn(A) -> bool)
    requires
        forall|i: int| 0 <= i < s.len() ==> !pred(#[trigger] s[i]),
    ensures
        s.filter(pred) =~= Seq::<A>::empty(),
    decreases s.len(),
{
    reveal(Seq::filter);
    if s.len() > 0 {
        lemma_filter_all_false(s.drop_last(), pred);
    }
}

/// Two rule sets that agree on their first `k` entries give one node the
/// same first-`k` pass.
proof fn lemma_rule_pass_agree(
    rules1: Seq<RegisteredRule>,
    rules2: Seq<RegisteredRule>,
    node: AstNodeV,
    k: int,
)
    requires
        k <= rules1.len(),
        k <= rules2.len(),
        forall|i: int| 0 <= i < k ==> rules1[i] == rules2[i],
    ensures
        rule_pass_upto(rules1, node, k) == rule_pass_upto(rules2, node, k),
    decreases k,
{
    if k > 0 {
        lemma_rule_pass_agree(rules1, rules2, node, k - 1);
    }
}

/// Appending one rule to a set appends that rule's diagnostics to every
/// node's pass.
proof fn lemma_node_diags_push(rules: Seq<RegisteredRule>, r: RegisteredRule, node: AstNodeV)
    ensures
        node_diags(rules.push(r), node) == node_diags(rules, node) + r.spec_diagnostics(node),
{
    let pushed = rules.push(r);
    lemma_rule_pass_agree(pushed, rules, node, rules.len() as int);
    assert(rule_pass_upto(pushed, node, pushed.len() as int) == rule_pass_upto(
        pushed,
        node,
        rules.len() as int,
    ) + pushed[rules.len() as int].spec_diagnostics(node));
}

/// Disabling rules at one node: the kept rules' pass is the full pass
/// filtered to the kept names.
proof fn lemma_node_keep(rules: Seq<RegisteredRule>, node: AstNodeV, names: Set<Seq<char>>)
    ensures
        node_diags(enabled_only(rules, names), node) == diags_of_rules(
            node_diags(rules, node),
            names,
        ),
    decreases rules.len(),
{
    broadcast use group_seq_properties;

    reveal(Seq::filter);
    let rpred = |r: RegisteredRule| names.contains(r.spec_name());
    let dpred = |d: DiagnosticV| names.contains(d.rule);
    if rules.len() == 0 {
        assert(rules =~= Seq::<RegisteredRule>::empty());
        assert(node_diags(rules, node) =~= Seq::<DiagnosticV>::empty());
        assert(enabled_only(rules, names) =~= Seq::<RegisteredRule>::empty());
        assert(diags_of_rules(node_diags(rules, node), names) =~= Seq::<DiagnosticV>::empty());
        assert(node_diags(enabled_only(rules, names), node) =~= Seq::<DiagnosticV>::empty());
    } else {
        let init = rules.drop_last();
        let last = rules.last();
        lemma_node_keep(init, node, names);
        assert(rules =~= init.push(last));
        lemma_node_diags_push(init, last, node);
        assert(node_diags(rules, node) == node_diags(init, node) + last.spec_diagnostics(node));
        Seq::filter_distributes_over_add(
            node_diags(init, node),
            last.spec_diagnostics(node),
            dpred,
        );
        lemma_rule_diags_carry_name(last, node);
        let last_diags = last.spec_diagnostics(node);
        assert forall|i: int| 0 <= i < last_diags.len() implies #[trigger] last_diags[i].rule
            == last.spec_name() by {
            assert(last_diags.contains(last_diags[i]));
        }
        if names.contains(last.spec_name()) {
            assert(enabled_only(rules, names) =~= enabled_only(init, names).push(last));
            lemma_node_diags_push(enabled_only(init, names), last, node);
            lemma_filter_all_true(last_diags, dpred);
        } else {
            assert(enabled_only(rules, names) =~= enabled_only(init, names));
            lemma_filter_all_false(last_diags, dpred);
        }
    }
}

/// Disabling rules over one member's visit, its initializer included.
proof fn lemma_member_keep(rules: Seq<RegisteredRule>, m: EnumMemberV, names: Set<Seq<char>>)
    ensures
        member_traversal_diags(enabled_only(rules, names), m) == diags_of_rules(
            member_traversal_diags(rules, m),
            names,
        ),
{
    let dpred = |d: DiagnosticV| names.contains(d.rule);
    lemma_node_keep(rules, AstNodeV::EnumMember(m), names);
    match m.initializer {
        Some(e) => {
            lemma_node_keep(rules, AstNodeV::Expression(e), names);
            Seq::filter_distributes_over_add(
                node_diags(rules, AstNodeV::EnumMember(m)),
                node_diags(rules, AstNodeV::Expression(e)),
                dpred,
            );
        },
        None => {
            reveal(Seq::filter);
            assert(member_traversal_diags(rules, m) =~= node_diags(
                rules,
                AstNodeV::EnumMember(m),
            ));
            assert(member_traversal_diags(enabled_only(rules, names), m) =~= node_diags(
                enabled_only(rules, names),
                AstNodeV::EnumMember(m),
            ));
        },
    }
}

/// Disabling rules over a prefix of a member list.
proof fn lemma_members_keep(
    rules: Seq<RegisteredRule>,
    ms: Seq<EnumMemberV>,
    k: int,
    names: Set<Seq<char>>,
)
    requires
        k <= ms.len(),
    ensures
        members_upto(enabled_only(rules, names), ms, k) == diags_of_rules(
            members_upto(rules, ms, k),
            names,
        ),
    decreases k,
{
    let dpred = |d: DiagnosticV| names.contains(d.rule);
    if k <= 0 {
        reveal(Seq::filter);
        assert(members_upto(enabled_only(rules, names), ms, k) =~= Seq::<DiagnosticV>::empty());
        assert(diags_of_rules(members_upto(rules, ms, k), names) =~= Seq::<DiagnosticV>::empty());
    } else {
        lemma_members_keep(rules, ms, k - 1, names);
        lemma_member_keep(rules, ms[k - 1], names);
        Seq::filter_distributes_over_add(
            members_upto(rules, ms, k - 1),
            member_traversal_diags(rules, ms[k - 1]),
            dpred,
        );
    }
}

/// Disabling rules over one declaration's visit, members included.
proof fn lemma_decl_keep(
    rules: Seq<RegisteredRule>,
    d: crate::ast::EnumDeclarationV,
    names: Set<Seq<char>>,
)
    ensures
        decl_traversal_diags(enabled_only(rules, names), d) == diags_of_rules(
            decl_traversal_diags(rules, d),
            names,
        ),
{
    let dpred = |d: DiagnosticV| names.contains(d.rule);
    lemma_node_keep(rules, AstNodeV::EnumDeclaration(d), names);
    lemma_members_keep(rules, d.members, d.members.len() as int, names);
    Seq::filter_distributes_over_add(
        node_diags(rules, AstNodeV::EnumDeclaration(d)),
        members_upto(rules, d.members, d.members.len() as int),
        dpred,
    );
}

/// Disabling rules over a prefix of a declaration list.
proof fn lemma_decls_keep(
    rules: Seq<RegisteredRule>,
    ds: Seq<crate::ast::EnumDeclarationV>,
    k: int,
    names: Set<Seq<char>>,
)
    requires
        k <= ds.len(),
    ensures
        decls_upto(enabled_only(rules, names), ds, k) == diags_of_rules(
            decls_upto(rules, ds, k),
            names,
        ),
    decreases k,
{
    let dpred = |d: DiagnosticV| names.contains(d.rule);
    if k <= 0 {
        reveal(Seq::filter);
        assert(decls_upto(enabled_only(rules, names), ds, k) =~= Seq::<DiagnosticV>::empty());
        assert(diags_of_rules(decls_upto(rules, ds, k), names) =~= Seq::<DiagnosticV>::empty());
    } else {
        lemma_decls_keep(rules, ds, k - 1, names);
        lemma_decl_keep(rules, ds[k - 1], names);
        Seq::filter_distributes_over_add(
            decls_upto(rules, ds, k - 1),
            decl_traversal_diags(rules, ds[k - 1]),
            dpred,
        );
    }
}

/// A program no node of which any registered rule objects to: every enum
/// member is initialized or carries a non-identifier name. A program with
/// only empty enumerations, or only initialized members of whatever value
/// type, is clean.
pub open spec fn program_clean(p: ProgramV) -> bool {
    forall|t: int|
        0 <= t < p.declarations.len() ==> crate::registry::node_clean(
            AstNodeV::EnumDeclaration(#[trigger] p.declarations[t]),
        )
}

proof fn lemma_rule_pass_silent(rules: Seq<RegisteredRule>, node: AstNodeV, k: int)
    requires
        crate::registry::node_clean(node),
        k <= rules.len(),
    ensures
        rule_pass_upto(rules, node, k) =~= Seq::<DiagnosticV>::empty(),
    decreases k,
{
    if k > 0 {
        lemma_rule_pass_silent(rules, node, k - 1);
        crate::registry::lemma_rule_silent_on_clean_node(rules[k - 1], node);
    }
}

proof fn lemma_member_silent(rules: Seq<RegisteredRule>, m: EnumMemberV)
    ensures
        member_traversal_diags(rules, m) =~= Seq::<DiagnosticV>::empty(),
{
    lemma_rule_pass_silent(rules, AstNodeV::EnumMember(m), rules.len() as int);
    if let Some(e) = m.initializer {
        lemma_rule_pass_silent(rules, AstNodeV::Expression(e), rules.len() as int);
    }
}

proof fn lemma_members_silent(rules: Seq<RegisteredRule>, ms: Seq<EnumMemberV>, k: int)
    ensures
        members_upto(rules, ms, k) =~= Seq::<DiagnosticV>::empty(),
    decreases k,
{
    if k > 0 {
        lemma_members_silent(rules, ms, k - 1);
        lemma_member_silent(rules, ms[k - 1]);
    }
}

proof fn lemma_decls_silent(
    rules: Seq<RegisteredRule>,
    ds: Seq<crate::ast::EnumDeclarationV>,
    k: int,
)
    requires
        k <= ds.len(),
        forall|t: int|
            0 <= t < ds.len() ==> crate::registry::node_clean(
                AstNodeV::EnumDeclaration(#[trigger] ds[t]),
            ),
    ensures
        decls_upto(rules, ds, k) =~= Seq::<DiagnosticV>::empty(),
    decreases k,
{
    if k > 0 {
        lemma_decls_silent(rules, ds, k - 1);
        lemma_rule_pass_silent(rules, AstNodeV::EnumDeclaration(ds[k - 1]), rules.len() as int);
        lemma_members_silent(rules, ds[k - 1].members, ds[k - 1].members.len() as int);
    }
}

/// On a clean program a whole run emits nothing, whatever rules are
/// registered: zero members, all members initialized (of whatever value
/// type), and non-identifier names alone never produce a diagnostic.
pub proof fn lemma_analyze_silent_on_clean_program(p: ProgramV, rules: Seq<RegisteredRule>)
    requires
        program_clean(p),
    ensures
        analyze_spec(p, rules) =~= Seq::<DiagnosticV>::empty(),
{
    lemma_rule_pass_silent(rules, AstNodeV::Program(p), rules.len() as int);
    lemma_decls_silent(rules, p.declarations, p.declarations.len() as int);
}

/// Rule independence: disabling any subset of rules never changes what the
/// remaining rules report. A run over the rules whose names stay enabled
/// equals the full run filtered to those names — same diagnostics, same
/// order.
pub proof fn lemma_rule_independence(
    p: ProgramV,
    rules: Seq<RegisteredRule>,
    names: Set<Seq<char>>,
)
    ensures
        analyze_spec(p, enabled_only(rules, names)) == diags_of_rules(
            analyze_spec(p, rules),
            names,
        ),
{
    let dpred = |d: DiagnosticV| names.contains(d.rule);
    lemma_node_keep(rules, AstNodeV::Program(p), names);
    lemma_decls_keep(rules, p.declarations, p.declarations.len() as int, names);
    Seq::filter_distributes_over_add(
        node_diags(rules, AstNodeV::Program(p)),
        decls_upto(rules, p.declarations, p.declarations.len() as int),
        dpred,
    );
}

} // verus!
