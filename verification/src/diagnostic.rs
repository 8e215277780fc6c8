//! The diagnostic model: one structured record per reported problem.
//!
//! A diagnostic is created by a rule during its run, appended to the run's
//! result, and immutable afterwards. Emission cannot fail and never aborts
//! a run: diagnostics are the engine's normal output, not its errors.

use vstd::prelude::*;

use crate::span::Span;

verus! {

/// How serious a reported problem is. A rule declares its default severity
/// and every diagnostic it emits carries it.
#[derive(Debug, Clone, Copy, PartialEq, Eq, Structural)]
pub enum Severity {
    Warning,
    Error,
}

/// One secondary labeled span of a diagnostic: a short text anchored to
/// further source positions beside the primary one.
#[derive(Debug, Clone, PartialEq, Eq)]
pub struct SecondaryLabel {
    pub text: String,
    pub span: Span,
}

/// The mathematical value of a [`SecondaryLabel`].
#[verifier::ext_equal]
pub struct SecondaryLabelV {
    pub text: Seq<char>,
    pub span: Span,
}

/// One reported problem: the name of the rule that found it, that rule's
/// severity, a message, a primary span, ordered secondary labels, and an
/// optional suggested textual fix.
#[derive(Debug, Clone, PartialEq, Eq)]
pub struct Diagnostic {
    pub rule: String,
    pub severity: Severity,
    pub message: String,
    pub primary_span: Span,
    pub secondary_labels: Vec<SecondaryLabel>,
    pub suggested_fix: Option<String>,
}

/// The mathematical value of a [`Diagnostic`].
#[verifier::ext_equal]
pub struct DiagnosticV {
    pub rule: Seq<char>,
    pub severity: Severity,
    pub message: Seq<char>,
    pub primary_span: Span,
    pub secondary_labels: Seq<SecondaryLabelV>,
    pub suggested_fix: Option<Seq<char>>,
}

impl DeepView for SecondaryLabel {
    type V = SecondaryLabelV;

    open spec fn deep_view(&self) -> SecondaryLabelV {
        SecondaryLabelV { text: self.text@, span: self.span }
    }
}

impl DeepView for Diagnostic {
    type V = DiagnosticV;

    open spec fn deep_view(&self) -> DiagnosticV {
        DiagnosticV {
            rule: self.rule@,
            severity: self.severity,
            message: self.message@,
            primary_span: self.primary_span,
            secondary_labels: self.secondary_labels.deep_view(),
            suggested_fix: match &self.suggested_fix {
                Some(s) => Some(s@),
                None => None,
            },
        }
    }
}

/// The result of one analysis run: every diagnostic emitted across one
/// full traversal, in traversal (document) order.
pub type RunResult = Vec<Diagnostic>;

/// The character for one decimal digit.
pub open spec fn digit_char(d: nat) -> char {
    if d == 0 {
        '0'
    } else if d == 1 {
        '1'
    } else if d == 2 {
        '2'
    } else if d == 3 {
        '3'
    } else if d == 4 {
        '4'
    } else if d == 5 {
        '5'
    } else if d == 6 {
        '6'
    } else if d == 7 {
        '7'
    } else if d == 8 {
        '8'
    } else {
        '9'
    }
}

/// The decimal rendering of a number, most significant digit first, with
/// no leading zero except for the number zero itself.
pub open spec fn dec_digits(n: nat) -> Seq<char>
    decreases n,
{
    if n < 10 {
        seq![digit_char(n)]
    } else {
        dec_digits(n / 10) + seq![digit_char(n % 10)]
    }
}

fn digit_str(d: usize) -> (r: &'static str)
    requires
        d < 10,
    ensures
        r@ =~= seq![digit_char(d as nat)],
{
    proof {
        reveal_strlit("0");
        reveal_strlit("1");
        reveal_strlit("2");
        reveal_strlit("3");
        reveal_strlit("4");
        reveal_strlit("5");
        reveal_strlit("6");
        reveal_strlit("7");
        reveal_strlit("8");
        reveal_strlit("9");
    }
    match d {
        0 => "0",
        1 => "1",
        2 => "2",
        3 => "3",
        4 => "4",
        5 => "5",
        6 => "6",
        7 => "7",
        8 => "8",
        _ => "9",
    }
}

/// Renders a number in decimal, for the ordinal a message names.
pub fn usize_to_decimal(n: usize) -> (r: String)
    ensures
        r@ == dec_digits(n as nat),
    decreases n,
{
    if n < 10 {
        digit_str(n).to_owned()
    } else {
        let mut head = usize_to_decimal(n / 10);
        head.append(digit_str(n % 10));
        proof {
            assert(head@ =~= dec_digits(n as nat));
        }
        head
    }
}

} // verus!
