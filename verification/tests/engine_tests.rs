use lint_engine::ast::{AstNode, NodeKind, Program};
use lint_engine::diagnostic::{Diagnostic, Severity};
use lint_engine::parser::parse_source;
use lint_engine::prefer_enum_initializers::PreferEnumInitializers;
use lint_engine::registry::{all_rules, ConfigError, RegisteredRule, Registry};
use lint_engine::rule::{Rule, RuleCategory};
use lint_engine::tester::Tester;

fn parsed(src: &str) -> Program {
    parse_source(src).expect("snippet should parse")
}

fn full_registry() -> Registry {
    Registry::new(all_rules()).expect("built-in rule names are unique")
}

fn run(src: &str) -> Vec<Diagnostic> {
    lint_engine::engine::analyze(&parsed(src), &full_registry())
}

#[test]
fn test() {
    let pass = vec![
        "\n\t\t\tenum Direction {}\n\t\t\t    ",
        "\n\t\t\tenum Direction {\n\t\t\t  Up = 1,\n\t\t\t}\n\t\t\t    ",
        "\n\t\t\tenum Direction {\n\t\t\t  Up = 1,\n\t\t\t  Down = 2,\n\t\t\t}\n\t\t\t    ",
        "\n\t\t\tenum Direction {\n\t\t\t  Up = 'Up',\n\t\t\t  Down = 'Down',\n\t\t\t}\n\t\t\t    ",
    ];

    let fail = vec![
        "\n\t\t\tenum Direction {\n\t\t\t  Up,\n\t\t\t}\n\t\t\t      ",
        "\n\t\t\tenum Direction {\n\t\t\t  Up,\n\t\t\t  Down,\n\t\t\t}\n\t\t\t      ",
        "\n\t\t\tenum Direction {\n\t\t\t  Up = 'Up',\n\t\t\t  Down,\n\t\t\t}\n\t\t\t      ",
        "\n\t\t\tenum Direction {\n\t\t\t  Up,\n\t\t\t  Down = 'Down',\n\t\t\t}\n\t\t\t      ",
    ];

    let name = PreferEnumInitializers.name();
    let outcome = Tester::new(name.as_str(), pass, fail).test_and_snapshot();
    assert!(outcome.passed);
}

#[test]
fn empty_enum_yields_nothing() {
    assert_eq!(run("enum Direction {}").len(), 0);
}

#[test]
fn fully_initialized_enum_yields_nothing() {
    assert_eq!(run("enum Direction { Up = 1 }").len(), 0);
    assert_eq!(run("enum Direction { Up = 1, Down = 2 }").len(), 0);
    assert_eq!(run("enum Direction { Up = 'Up', Down = 2 }").len(), 0);
}

#[test]
fn two_uninitialized_members_yield_two_ordinals() {
    let ds = run("enum Direction { Up, Down }");
    assert_eq!(ds.len(), 2);
    assert_eq!(
        ds[0].message,
        "typescript-eslint(prefer-enum-initializers):The value of the member \"Up\" should be explicitly defined."
    );
    assert_eq!(ds[0].suggested_fix.as_deref(), Some("Can be fixed to \"Up\" = 1."));
    assert_eq!(
        ds[1].message,
        "typescript-eslint(prefer-enum-initializers):The value of the member \"Down\" should be explicitly defined."
    );
    assert_eq!(ds[1].suggested_fix.as_deref(), Some("Can be fixed to \"Down\" = 2."));
    assert_eq!(ds[0].rule, "prefer-enum-initializers");
    assert_eq!(ds[0].severity, Severity::Warning);
    assert!(ds[0].secondary_labels.is_empty());
}

#[test]
fn later_uninitialized_member_keeps_its_position() {
    let ds = run("enum Direction { Up = 'Up', Down }");
    assert_eq!(ds.len(), 1);
    assert_eq!(ds[0].suggested_fix.as_deref(), Some("Can be fixed to \"Down\" = 2."));
}

#[test]
fn ordinal_counts_position_not_missing_initializers() {
    let ds = run("enum E { A = 1, B = 2, C }");
    assert_eq!(ds.len(), 1);
    assert_eq!(ds[0].suggested_fix.as_deref(), Some("Can be fixed to \"C\" = 3."));
}

#[test]
fn two_digit_ordinal_is_rendered_in_decimal() {
    let ds = run("enum E { A, B, C, D, E1, F, G, H, I, J, K = 'k', L }");
    assert_eq!(ds.len(), 11);
    assert_eq!(ds[9].suggested_fix.as_deref(), Some("Can be fixed to \"J\" = 10."));
    assert_eq!(ds[10].suggested_fix.as_deref(), Some("Can be fixed to \"L\" = 12."));
}

#[test]
fn string_named_member_is_never_flagged() {
    assert_eq!(run("enum E { 'Up' }").len(), 0);
    let ds = run("enum E { 'Up', Down }");
    assert_eq!(ds.len(), 1);
    assert_eq!(ds[0].suggested_fix.as_deref(), Some("Can be fixed to \"Down\" = 2."));
}

#[test]
fn diagnostic_span_covers_the_member() {
    let ds = run("enum Direction { Up }");
    assert_eq!(ds.len(), 1);
    assert_eq!(ds[0].primary_span.start, 17);
    assert_eq!(ds[0].primary_span.end, 19);
}

#[test]
fn analyze_twice_is_byte_identical() {
    let src = "enum Direction { Up, Down = 'Down' }\nenum Status { Open = 1, Close }";
    let tree = parsed(src);
    let registry = full_registry();
    let first = lint_engine::engine::analyze(&tree, &registry);
    let second = lint_engine::engine::analyze(&tree, &registry);
    assert_eq!(first, second);
    assert_eq!(first.len(), 2);
}

#[test]
fn disabling_every_rule_silences_the_run() {
    let tree = parsed("enum Direction { Up, Down }");
    let empty = Registry::new(Vec::new()).expect("no rules, no duplicate");
    assert_eq!(lint_engine::engine::analyze(&tree, &empty).len(), 0);
}

#[test]
fn duplicate_rule_name_is_a_fatal_configuration_error() {
    let rules = vec![
        RegisteredRule::PreferEnumInitializers(PreferEnumInitializers),
        RegisteredRule::PreferEnumInitializers(PreferEnumInitializers),
    ];
    match Registry::new(rules) {
        Err(ConfigError::DuplicateRuleName(n)) => assert_eq!(n, "prefer-enum-initializers"),
        Ok(_) => panic!("duplicate names must be refused"),
    }
}

#[test]
fn rule_metadata_matches_its_declaration() {
    let rule = PreferEnumInitializers;
    assert_eq!(rule.name(), "prefer-enum-initializers");
    assert_eq!(rule.category(), RuleCategory::Pedantic);
    assert_eq!(rule.default_severity(), Severity::Warning);

    let registry = full_registry();
    assert_eq!(registry.len(), 1);
    let registered = &registry.rules[0];
    assert_eq!(registered.name(), "prefer-enum-initializers");
    assert_eq!(registered.category(), RuleCategory::Pedantic);
    assert_eq!(registered.default_severity(), Severity::Warning);
}

#[test]
fn malformed_sources_do_not_parse() {
    assert!(parse_source("enum").is_none());
    assert!(parse_source("enum Direction { Up").is_none());
    assert!(parse_source("enum Direction { Up,, Down }").is_none());
    assert!(parse_source("enumDirection {}").is_none());
    assert!(parse_source("fn main() {}").is_none());
    assert!(parse_source("enum R\u{e9}sultat {}").is_none());
}

#[test]
fn parser_reads_members_and_initializers() {
    let p = parsed("enum D { A = 1 }");
    assert_eq!(p.declarations.len(), 1);
    let d = &p.declarations[0];
    assert_eq!(d.name, "D");
    assert_eq!(d.members.len(), 1);
    let m = &d.members[0];
    assert_eq!(m.span.start, 9);
    assert_eq!(m.span.end, 14);
    let init = m.initializer.as_ref().expect("member is initialized");
    assert_eq!(init.span.start, 13);
    assert_eq!(init.span.end, 14);
    match &init.kind {
        lint_engine::ast::ExpressionKind::NumberLiteral(text) => assert_eq!(text, "1"),
        other => panic!("unexpected initializer {:?}", other),
    }
}

#[test]
fn classifier_gives_each_node_exactly_one_kind() {
    let p = parsed("enum D { A = 1, B = 'b' }");
    let d = &p.declarations[0];
    assert_eq!(AstNode::Program(&p).kind(), NodeKind::Program);
    assert_eq!(AstNode::EnumDeclaration(d).kind(), NodeKind::EnumDeclaration);
    assert_eq!(AstNode::EnumMember(&d.members[0]).kind(), NodeKind::EnumMember);
    let num = d.members[0].initializer.as_ref().unwrap();
    let text = d.members[1].initializer.as_ref().unwrap();
    assert_eq!(AstNode::Expression(num).kind(), NodeKind::NumberLiteral);
    assert_eq!(AstNode::Expression(text).kind(), NodeKind::StringLiteral);
    assert_eq!(AstNode::Expression(num).span(), num.span);
}

#[test]
fn harness_snapshot_records_fail_diagnostics() {
    let outcome = Tester::new(
        "prefer-enum-initializers",
        vec!["enum A { X = 1 }"],
        vec!["enum B { X }", "enum C { X, Y }"],
    )
        .test_and_snapshot();
    assert!(outcome.passed);
    assert_eq!(outcome.snapshot.len(), 3);
    assert_eq!(outcome.snapshot[0].suggested_fix.as_deref(), Some("Can be fixed to \"X\" = 1."));
    assert_eq!(outcome.snapshot[2].suggested_fix.as_deref(), Some("Can be fixed to \"Y\" = 2."));
}

#[test]
fn harness_rejects_unknown_rule_and_unparsable_snippets() {
    let unknown = Tester::new("no-such-rule", vec!["enum A {}"], Vec::new()).test_and_snapshot();
    assert!(!unknown.passed);

    let broken = Tester::new(
        "prefer-enum-initializers",
        vec!["enum A {"],
        Vec::new(),
    )
        .test_and_snapshot();
    assert!(!broken.passed);

    let clean_fail = Tester::new(
        "prefer-enum-initializers",
        Vec::new(),
        vec!["enum A { X = 1 }"],
    )
        .test_and_snapshot();
    assert!(!clean_fail.passed);
}
