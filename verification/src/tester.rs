//! The per-rule test harness.
//!
//! Given literal "should pass" and "should fail" source snippets for one
//! rule, the harness parses each snippet, runs the engine with only that
//! rule enabled, and checks that a pass snippet yields zero diagnostics
//! and a fail snippet at least one. A snippet that does not parse is
//! fatal to its case, as is a rule name no registered rule carries. The
//! harness also records the full diagnostics of the fail snippets, in
//! order, so a caller can hold them against a golden copy.

use vstd::prelude::*;

use crate::diagnostic::{Diagnostic, DiagnosticV};
use crate::engine::{analyze, analyze_spec, enabled_only};
use crate::parser::{parse_source, parse_source_spec};
use crate::registry::{all_rules, all_rules_spec, RegisteredRule, Registry};

verus! {

/// Of the first `k` rules of a set, those named `name`, in order.
pub open spec fn rules_named_upto(
    all: Seq<RegisteredRule>,
    name: Seq<char>,
    k: int,
) -> Seq<RegisteredRule>
    decreases k,
{
    if k <= 0 {
        Seq::empty()
    } else {
        rules_named_upto(all, name, k - 1) + if all[k - 1].spec_name() == name {
            seq![all[k - 1]]
        } else {
            Seq::empty()
        }
    }
}

/// The registered rules whose name is exactly `name`, in registration
/// order.
pub open spec fn rules_named(name: Seq<char>) -> Seq<RegisteredRule> {
    rules_named_upto(all_rules_spec(), name, all_rules_spec().len() as int)
}

/// Whether some registered rule carries this name.
pub open spec fn known_rule(name: Seq<char>) -> bool {
    exists|i: int|
        0 <= i < all_rules_spec().len() && (#[trigger] all_rules_spec()[i]).spec_name() == name
}

/// What one snippet yields under the named rule alone: `None` where it
/// does not parse, else the run result.
pub open spec fn snippet_result(src: Seq<char>, name: Seq<char>) -> Option<Seq<DiagnosticV>> {
    match parse_source_spec(src) {
        Some(p) => Some(analyze_spec(p, rules_named(name))),
        None => None,
    }
}

/// A pass snippet parses and yields no diagnostic.
pub open spec fn pass_snippet_ok(src: Seq<char>, name: Seq<char>) -> bool {
    match snippet_result(src, name) {
        Some(ds) => ds.len() == 0,
        None => false,
    }
}

/// A fail snippet parses and yields at least one diagnostic.
pub open spec fn fail_snippet_ok(src: Seq<char>, name: Seq<char>) -> bool {
    match snippet_result(src, name) {
        Some(ds) => ds.len() > 0,
        None => false,
    }
}

/// The whole harness succeeds: the rule is known, every pass snippet is
/// clean, every fail snippet is flagged.
pub open spec fn harness_passes(
    name: Seq<char>,
    passes: Seq<Seq<char>>,
    fails: Seq<Seq<char>>,
) -> bool {
    known_rule(name) && (forall|t: int|
        0 <= t < passes.len() ==> pass_snippet_ok(#[trigger] passes[t], name)) && (forall|t: int|
        0 <= t < fails.len() ==> fail_snippet_ok(#[trigger] fails[t], name))
}

/// The recorded diagnostics of the first `k` fail snippets, in snippet
/// order; a snippet that does not parse records nothing.
pub open spec fn snapshot_upto(fails: Seq<Seq<char>>, name: Seq<char>, k: int) -> Seq<DiagnosticV>
    decreases k,
{
    if k <= 0 {
        Seq::empty()
    } else {
        snapshot_upto(fails, name, k - 1) + match snippet_result(fails[k - 1], name) {
            Some(ds) => ds,
            None => Seq::empty(),
        }
    }
}

/// What one harness run reports: whether everything held, and the full
/// recorded diagnostics of the fail snippets.
pub struct TestOutcome {
    pub passed: bool,
    pub snapshot: Vec<Diagnostic>,
}

/// Builds the sub-registry of the rules carrying one name.
fn rules_for_name(name: &String) -> (v: Vec<RegisteredRule>)
    ensures
        v@ == rules_named(name@),
{
    let all = all_rules();
    let mut v: Vec<RegisteredRule> = Vec::new();
    let mut i: usize = 0;
    while i < all.len()
        invariant
            i <= all@.len(),
            all@ =~= all_rules_spec(),
            v@ == rules_named_upto(all@, name@, i as int),
        decreases all@.len() - i,
    {
        let rule = &all[i];
        let rule_name = rule.name();
        if rule_name == *name {
            v.push(rule.duplicate());
        }
        proof {
            assert(v@ =~= rules_named_upto(all@, name@, i + 1));
        }
        i += 1;
    }
    v
}

/// A rule set keeps an entry for a name exactly when one of its first `k`
/// rules carries that name.
proof fn lemma_rules_named_upto_iff(all: Seq<RegisteredRule>, name: Seq<char>, k: int)
    requires
        k <= all.len(),
    ensures
        rules_named_upto(all, name, k).len() > 0 <==> exists|i: int|
            0 <= i < k && (#[trigger] all[i]).spec_name() == name,
    decreases k,
{
    if k > 0 {
        lemma_rules_named_upto_iff(all, name, k - 1);
    }
}

/// A name is carried by some registered rule exactly when keeping that
/// name keeps a rule.
proof fn lemma_known_rule_iff(name: Seq<char>)
    ensures
        rules_named(name).len() > 0 <==> known_rule(name),
{
    lemma_rules_named_upto_iff(all_rules_spec(), name, all_rules_spec().len() as int);
}

proof fn lemma_rules_named_upto_is_enabled_only(
    all: Seq<RegisteredRule>,
    name: Seq<char>,
    k: int,
)
    requires
        0 <= k <= all.len(),
    ensures
        rules_named_upto(all, name, k) == enabled_only(
            all.subrange(0, k),
            Set::empty().insert(name),
        ),
    decreases k,
{
    reveal(Seq::filter);
    let names = Set::<Seq<char>>::empty().insert(name);
    if k == 0 {
        assert(all.subrange(0, 0) =~= Seq::<RegisteredRule>::empty());
        assert(enabled_only(all.subrange(0, 0), names) =~= Seq::<RegisteredRule>::empty());
    } else {
        lemma_rules_named_upto_is_enabled_only(all, name, k - 1);
        let s = all.subrange(0, k);
        assert(s.drop_last() =~= all.subrange(0, k - 1));
        assert(s.last() == all[k - 1]);
        if all[k - 1].spec_name() == name {
            assert(rules_named_upto(all, name, k) =~= enabled_only(s.drop_last(), names).push(
                all[k - 1],
            ));
        } else {
            assert(rules_named_upto(all, name, k) =~= enabled_only(s.drop_last(), names));
        }
    }
}

/// Running the harness "with only the named rule active" is running the
/// full registry with every other rule disabled, in the sense of
/// [`crate::engine::lemma_rule_independence`]: what the harness sees of a
/// snippet is the full run filtered to the one rule's name.
pub proof fn lemma_harness_runs_a_disabled_subset(name: Seq<char>)
    ensures
        rules_named(name) == enabled_only(all_rules_spec(), Set::empty().insert(name)),
{
    lemma_rules_named_upto_is_enabled_only(
        all_rules_spec(),
        name,
        all_rules_spec().len() as int,
    );
    assert(all_rules_spec().subrange(0, all_rules_spec().len() as int) =~= all_rules_spec());
}

/// The harness of one rule: its name, the snippets that must be clean,
/// and the snippets that must be flagged.
pub struct Tester {
    pub rule_name: String,
    pub pass: Vec<String>,
    pub fail: Vec<String>,
}

fn strs_to_strings(xs: Vec<&str>) -> (v: Vec<String>)
    ensures
        v.deep_view() == xs.deep_view(),
{
    let mut v: Vec<String> = Vec::new();
    let mut i: usize = 0;
    while i < xs.len()
        invariant
            i <= xs@.len(),
            v.deep_view() =~~= xs.deep_view().subrange(0, i as int),
        decreases xs@.len() - i,
    {
        let elt = xs[i].to_owned();
        let ghost ev = elt@;
        let ghost prev = v.deep_view();
        let ghost prev_raw = v@;
        v.push(elt);
        proof {
            assert(ev == xs.deep_view()[i as int]);
            assert(v@.len() == prev_raw.len() + 1);
            assert(prev.len() == i);
            assert(prev.len() == prev_raw.len());
            assert(prev_raw.len() == i);
            assert forall|t: int| 0 <= t < v@.len() implies #[trigger] v.deep_view()[t]
                == xs.deep_view().subrange(0, i + 1)[t] by {
                broadcast use vstd::seq_lib::group_seq_properties;

                if t < i {
                    assert(v@[t] == prev_raw[t]);
                    assert(v.deep_view()[t] == v@[t].deep_view());
                    assert(prev[t] == prev_raw[t].deep_view());
                    assert(prev[t] == xs.deep_view().subrange(0, i as int)[t]);
                } else {
                    assert(v@[t].deep_view() == ev);
                }
            }
            assert(v.deep_view() =~= xs.deep_view().subrange(0, i + 1));
        }
        i += 1;
    }
    proof {
        assert(xs.deep_view().subrange(0, xs@.len() as int) =~~= xs.deep_view());
    }
    v
}

impl Tester {
    /// A harness over one rule name and its two snippet lists.
    pub fn new(rule_name: &str, pass: Vec<&str>, fail: Vec<&str>) -> (t: Tester)
        ensures
            t.rule_name@ == rule_name@,
            t.pass.deep_view() == pass.deep_view(),
            t.fail.deep_view() == fail.deep_view(),
    {
        Tester {
            rule_name: rule_name.to_owned(),
            pass: strs_to_strings(pass),
            fail: strs_to_strings(fail),
        }
    }

    /// Runs the engine, with only the named rule enabled, over every
    /// snippet: reports whether every expectation held, and records the
    /// fail snippets' full diagnostics for regression comparison.
    pub fn test_and_snapshot(&self) -> (r: TestOutcome)
        ensures
            r.passed == harness_passes(
                self.rule_name@,
                self.pass.deep_view(),
                self.fail.deep_view(),
            ),
            r.snapshot.deep_view() == snapshot_upto(
                self.fail.deep_view(),
                self.rule_name@,
                self.fail.deep_view().len() as int,
            ),
    {
        let ghost name = self.rule_name@;
        let ghost passes = self.pass.deep_view();
        let ghost fails = self.fail.deep_view();
        let rules = rules_for_name(&self.rule_name);
        let known = rules.len() > 0;
        proof {
            lemma_known_rule_iff(name);
        }
        let registry = Registry { rules };
        let mut all_pass_ok = true;
        let mut i: usize = 0;
        while i < self.pass.len()
            invariant
                i <= passes.len(),
                passes == self.pass.deep_view(),
                passes.len() == self.pass@.len(),
                name == self.rule_name@,
                registry.rules@ == rules_named(name),
                all_pass_ok <==> (forall|t: int|
                    0 <= t < i ==> pass_snippet_ok(#[trigger] passes[t], name)),
            decreases passes.len() - i,
        {
            let snippet_ok: bool = match parse_source(self.pass[i].as_str()) {
                None => false,
                Some(p) => {
                    let ds = analyze(&p, &registry);
                    ds.len() == 0
                },
            };
            proof {
                assert(snippet_ok == pass_snippet_ok(passes[i as int], name));
            }
            all_pass_ok = all_pass_ok && snippet_ok;
            i += 1;
        }
        let mut all_fail_ok = true;
        let mut snapshot: Vec<Diagnostic> = Vec::new();
        let mut j: usize = 0;
        proof {
            assert(snapshot.deep_view() =~= snapshot_upto(fails, name, 0));
        }
        while j < self.fail.len()
            invariant
                j <= fails.len(),
                fails == self.fail.deep_view(),
                fails.len() == self.fail@.len(),
                name == self.rule_name@,
                registry.rules@ == rules_named(name),
                all_fail_ok <==> (forall|t: int|
                    0 <= t < j ==> fail_snippet_ok(#[trigger] fails[t], name)),
                snapshot.deep_view() == snapshot_upto(fails, name, j as int),
            decreases fails.len() - j,
        {
            let ghost before = snapshot.deep_view();
            let snippet_ok: bool = match parse_source(self.fail[j].as_str()) {
                None => false,
                Some(p) => {
                    let mut ds = analyze(&p, &registry);
                    let found = ds.len() > 0;
                    let ghost ds_deep = ds.deep_view();
                    snapshot.append(&mut ds);
                    proof {
                        assert(snapshot.deep_view() =~= before + ds_deep);
                    }
                    found
                },
            };
            proof {
                assert(snippet_ok == fail_snippet_ok(fails[j as int], name));
                assert(snapshot.deep_view() =~= snapshot_upto(fails, name, j + 1));
            }
            all_fail_ok = all_fail_ok && snippet_ok;
            j += 1;
        }
        TestOutcome { passed: known && all_pass_ok && all_fail_ok, snapshot }
    }
}

} // verus!
