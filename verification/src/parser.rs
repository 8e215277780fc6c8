//! A small parser from source text to the tree of [`crate::ast`].
//!
//! The grammar is the minimal surface the engine's harness needs: a source
//! buffer holds zero or more enum declarations; a declaration is the word
//! `enum`, an identifier, and a brace-enclosed, comma-separated member
//! list with an optional trailing comma; a member is an identifier or a
//! single-quoted name, optionally initialized with `=` and a decimal
//! number or a single-quoted string. Only ASCII input is accepted, so the
//! offsets of every span are byte offsets as well as character offsets.
//! The grammar itself is stated by the `spec` functions here; the
//! executable parser returns exactly what they describe.

use vstd::prelude::*;

use crate::ast::{
    EnumDeclaration, EnumDeclarationV, EnumMember, EnumMemberV, ExpressionKind, ExpressionKindV,
    Expression, ExpressionV, MemberName, MemberNameV, Program, ProgramV,
};
use crate::span::Span;

verus! {

/// Whitespace: space, tab, line feed, carriage return.
pub open spec fn is_ws_char(c: char) -> bool {
    c == ' ' || c == '\t' || c == '\n' || c == '\r'
}

/// A decimal digit.
pub open spec fn is_digit_char(c: char) -> bool {
    48 <= c as u32 <= 57
}

/// A character that may open an identifier: a letter, `_` or `$`.
pub open spec fn is_ident_start_char(c: char) -> bool {
    (65 <= c as u32 <= 90) || (97 <= c as u32 <= 122) || c as u32 == 95 || c as u32 == 36
}

/// A character that may continue an identifier.
pub open spec fn is_ident_cont_char(c: char) -> bool {
    is_ident_start_char(c) || is_digit_char(c)
}

/// The first position at or after `i` that holds no whitespace.
pub open spec fn skip_ws(s: Seq<char>, i: int) -> int
    decreases s.len() - i when 0 <= i <= s.len()
{
    if i < s.len() && is_ws_char(s[i]) {
        skip_ws(s, i + 1)
    } else {
        i
    }
}

/// The end of an identifier whose continuation starts at `i`.
pub open spec fn ident_end(s: Seq<char>, i: int) -> int
    decreases s.len() - i when 0 <= i <= s.len()
{
    if i < s.len() && is_ident_cont_char(s[i]) {
        ident_end(s, i + 1)
    } else {
        i
    }
}

/// The end of a digit run starting at `i`.
pub open spec fn digits_end(s: Seq<char>, i: int) -> int
    decreases s.len() - i when 0 <= i <= s.len()
{
    if i < s.len() && is_digit_char(s[i]) {
        digits_end(s, i + 1)
    } else {
        i
    }
}

/// The position of the next single quote at or after `i`, if any.
pub open spec fn scan_quote(s: Seq<char>, i: int) -> Option<int>
    decreases s.len() - i when 0 <= i <= s.len()
{
    if i < s.len() {
        if s[i] == '\'' {
            Some(i)
        } else {
            scan_quote(s, i + 1)
        }
    } else {
        None
    }
}

/// A member name at `i`: an identifier, or a single-quoted name.
pub open spec fn parse_name(s: Seq<char>, i: int) -> Option<(MemberNameV, int)> {
    if i < s.len() && is_ident_start_char(s[i]) {
        let j = ident_end(s, i + 1);
        Some((MemberNameV::Identifier(s.subrange(i, j)), j))
    } else if i < s.len() && s[i] == '\'' {
        match scan_quote(s, i + 1) {
            Some(q) => Some((MemberNameV::StringName(s.subrange(i + 1, q)), q + 1)),
            None => None,
        }
    } else {
        None
    }
}

/// An initializer expression at `i`: a decimal number or a quoted string.
pub open spec fn parse_initializer(s: Seq<char>, i: int) -> Option<(ExpressionV, int)> {
    if i < s.len() && is_digit_char(s[i]) {
        let j = digits_end(s, i + 1);
        Some(
            (
                ExpressionV {
                    kind: ExpressionKindV::NumberLiteral(s.subrange(i, j)),
                    span: Span { start: i as usize, end: j as usize },
                },
                j,
            ),
        )
    } else if i < s.len() && s[i] == '\'' {
        match scan_quote(s, i + 1) {
            Some(q) => Some(
                (
                    ExpressionV {
                        kind: ExpressionKindV::StringLiteral(s.subrange(i + 1, q)),
                        span: Span { start: i as usize, end: (q + 1) as usize },
                    },
                    q + 1,
                ),
            ),
            None => None,
        }
    } else {
        None
    }
}

/// One enum member at `i`: a name, optionally `=` and an initializer. The
/// member's span runs from the name to the end of the initializer, if any.
pub open spec fn parse_member(s: Seq<char>, i: int) -> Option<(EnumMemberV, int)> {
    match parse_name(s, i) {
        None => None,
        Some((name, j)) => {
            let k = skip_ws(s, j);
            if k < s.len() && s[k] == '=' {
                let m = skip_ws(s, k + 1);
                match parse_initializer(s, m) {
                    None => None,
                    Some((e, e2)) => Some(
                        (
                            EnumMemberV {
                                id: name,
                                initializer: Some(e),
                                span: Span { start: i as usize, end: e2 as usize },
                            },
                            e2,
                        ),
                    ),
                }
            } else {
                Some(
                    (
                        EnumMemberV {
                            id: name,
                            initializer: None,
                            span: Span { start: i as usize, end: j as usize },
                        },
                        j,
                    ),
                )
            }
        },
    }
}

proof fn lemma_skip_ws_bounds(s: Seq<char>, i: int)
    requires
        0 <= i <= s.len(),
    ensures
        i <= skip_ws(s, i) <= s.len(),
    decreases s.len() - i,
{
    if i < s.len() && is_ws_char(s[i]) {
        lemma_skip_ws_bounds(s, i + 1);
    }
}

proof fn lemma_ident_end_bounds(s: Seq<char>, i: int)
    requires
        0 <= i <= s.len(),
    ensures
        i <= ident_end(s, i) <= s.len(),
    decreases s.len() - i,
{
    if i < s.len() && is_ident_cont_char(s[i]) {
        lemma_ident_end_bounds(s, i + 1);
    }
}

proof fn lemma_digits_end_bounds(s: Seq<char>, i: int)
    requires
        0 <= i <= s.len(),
    ensures
        i <= digits_end(s, i) <= s.len(),
    decreases s.len() - i,
{
    if i < s.len() && is_digit_char(s[i]) {
        lemma_digits_end_bounds(s, i + 1);
    }
}

proof fn lemma_scan_quote_bounds(s: Seq<char>, i: int)
    requires
        0 <= i <= s.len(),
    ensures
        match scan_quote(s, i) {
            Some(q) => i <= q < s.len(),
            None => true,
        },
    decreases s.len() - i,
{
    if i < s.len() && s[i] != '\'' {
        lemma_scan_quote_bounds(s, i + 1);
    }
}

proof fn lemma_parse_name_advances(s: Seq<char>, i: int)
    requires
        0 <= i <= s.len(),
    ensures
        match parse_name(s, i) {
            Some((_, j)) => i < j <= s.len(),
            None => true,
        },
{
    if i < s.len() && is_ident_start_char(s[i]) {
        lemma_ident_end_bounds(s, i + 1);
    } else if i < s.len() && s[i] == '\'' {
        lemma_scan_quote_bounds(s, i + 1);
    }
}

proof fn lemma_parse_initializer_advances(s: Seq<char>, i: int)
    requires
        0 <= i <= s.len(),
    ensures
        match parse_initializer(s, i) {
            Some((_, j)) => i < j <= s.len(),
            None => true,
        },
{
    if i < s.len() && is_digit_char(s[i]) {
        lemma_digits_end_bounds(s, i + 1);
    } else if i < s.len() && s[i] == '\'' {
        lemma_scan_quote_bounds(s, i + 1);
    }
}

proof fn lemma_parse_member_advances(s: Seq<char>, i: int)
    requires
        0 <= i <= s.len(),
    ensures
        match parse_member(s, i) {
            Some((_, j)) => i < j <= s.len(),
            None => true,
        },
{
    lemma_parse_name_advances(s, i);
    if let Some((_, j)) = parse_name(s, i) {
        lemma_skip_ws_bounds(s, j);
        let k = skip_ws(s, j);
        if k < s.len() && s[k] == '=' {
            lemma_skip_ws_bounds(s, k + 1);
            lemma_parse_initializer_advances(s, skip_ws(s, k + 1));
        }
    }
}

/// The members of an enum body from `i` on, up to and past the closing
/// brace: members separated by commas, with an optional trailing comma.
pub open spec fn members_rest(s: Seq<char>, i: int) -> Option<(Seq<EnumMemberV>, int)>
    decreases s.len() - i when 0 <= i <= s.len() via members_rest_dec
{
    if i < s.len() && s[i] == '}' {
        Some((Seq::empty(), i + 1))
    } else {
        match parse_member(s, i) {
            None => None,
            Some((m, j)) => {
                let k = skip_ws(s, j);
                if k < s.len() && s[k] == ',' {
                    let k2 = skip_ws(s, k + 1);
                    match members_rest(s, k2) {
                        None => None,
                        Some((ms, e)) => Some((seq![m] + ms, e)),
                    }
                } else if k < s.len() && s[k] == '}' {
                    Some((seq![m], k + 1))
                } else {
                    None
                }
            },
        }
    }
}

#[via_fn]
proof fn members_rest_dec(s: Seq<char>, i: int) {
    if !(i < s.len() && s[i] == '}') {
        lemma_parse_member_advances(s, i);
        if let Some((_, j)) = parse_member(s, i) {
            lemma_skip_ws_bounds(s, j);
            let k = skip_ws(s, j);
            if k < s.len() && s[k] == ',' {
                lemma_skip_ws_bounds(s, k + 1);
            }
        }
    }
}

proof fn lemma_members_rest_advances(s: Seq<char>, i: int)
    requires
        0 <= i <= s.len(),
    ensures
        match members_rest(s, i) {
            Some((_, e)) => i < e <= s.len(),
            None => true,
        },
    decreases s.len() - i,
{
    if !(i < s.len() && s[i] == '}') {
        lemma_parse_member_advances(s, i);
        if let Some((_, j)) = parse_member(s, i) {
            lemma_skip_ws_bounds(s, j);
            let k = skip_ws(s, j);
            if k < s.len() && s[k] == ',' {
                lemma_skip_ws_bounds(s, k + 1);
                lemma_members_rest_advances(s, skip_ws(s, k + 1));
            }
        }
    }
}

/// One enum declaration at `i`: the whole word `enum`, a name, `{`, the
/// member list, `}`. Its span runs from the keyword past the closing brace.
pub open spec fn parse_enum_decl(s: Seq<char>, i: int) -> Option<(EnumDeclarationV, int)> {
    if i + 4 <= s.len() && s[i] == 'e' && s[i + 1] == 'n' && s[i + 2] == 'u' && s[i + 3] == 'm' && (
    i + 4 == s.len() || !is_ident_cont_char(s[i + 4])) {
        let j = skip_ws(s, i + 4);
        if j < s.len() && is_ident_start_char(s[j]) {
            let k = ident_end(s, j + 1);
            let b = skip_ws(s, k);
            if b < s.len() && s[b] == '{' {
                let c = skip_ws(s, b + 1);
                match members_rest(s, c) {
                    None => None,
                    Some((ms, e)) => Some(
                        (
                            EnumDeclarationV {
                                name: s.subrange(j, k),
                                members: ms,
                                span: Span { start: i as usize, end: e as usize },
                            },
                            e,
                        ),
                    ),
                }
            } else {
                None
            }
        } else {
            None
        }
    } else {
        None
    }
}

proof fn lemma_parse_enum_decl_advances(s: Seq<char>, i: int)
    requires
        0 <= i <= s.len(),
    ensures
        match parse_enum_decl(s, i) {
            Some((_, e)) => i < e <= s.len(),
            None => true,
        },
{
    if i + 4 <= s.len() && s[i] == 'e' && s[i + 1] == 'n' && s[i + 2] == 'u' && s[i + 3] == 'm' && (
    i + 4 == s.len() || !is_ident_cont_char(s[i + 4])) {
        lemma_skip_ws_bounds(s, i + 4);
        let j = skip_ws(s, i + 4);
        if j < s.len() && is_ident_start_char(s[j]) {
            lemma_ident_end_bounds(s, j + 1);
            let k = ident_end(s, j + 1);
            lemma_skip_ws_bounds(s, k);
            let b = skip_ws(s, k);
            if b < s.len() && s[b] == '{' {
                lemma_skip_ws_bounds(s, b + 1);
                lemma_members_rest_advances(s, skip_ws(s, b + 1));
            }
        }
    }
}

/// The declarations from a whitespace-skipped position `i` to the end of
/// the buffer.
pub open spec fn decls_rest(s: Seq<char>, i: int) -> Option<Seq<EnumDeclarationV>>
    decreases s.len() - i when 0 <= i <= s.len() via decls_rest_dec
{
    if i == s.len() {
        Some(Seq::empty())
    } else {
        match parse_enum_decl(s, i) {
            None => None,
            Some((d, j)) => {
                let k = skip_ws(s, j);
                match decls_rest(s, k) {
                    None => None,
                    Some(ds) => Some(seq![d] + ds),
                }
            },
        }
    }
}

#[via_fn]
proof fn decls_rest_dec(s: Seq<char>, i: int) {
    if i != s.len() {
        lemma_parse_enum_decl_advances(s, i);
        if let Some((_, j)) = parse_enum_decl(s, i) {
            lemma_skip_ws_bounds(s, j);
        }
    }
}

/// What parsing a whole source buffer yields: `None` for non-ASCII input
/// or any text outside the grammar, else the program, whose span covers
/// the buffer.
pub open spec fn parse_source_spec(s: Seq<char>) -> Option<ProgramV> {
    if !vstd::utf8::is_ascii_chars(s) {
        None
    } else {
        match decls_rest(s, skip_ws(s, 0)) {
            None => None,
            Some(ds) => Some(
                ProgramV { declarations: ds, span: Span { start: 0, end: s.len() as usize } },
            ),
        }
    }
}

/// A span that never runs backwards and stays inside a buffer of `n`
/// offsets.
pub open spec fn span_bounded(sp: Span, n: int) -> bool {
    sp.start <= sp.end <= n
}

/// Every span of a member — its own and its initializer's — is bounded.
pub open spec fn member_spans_wf(m: EnumMemberV, n: int) -> bool {
    &&& span_bounded(m.span, n)
    &&& match m.initializer {
        Some(e) => span_bounded(e.span, n),
        None => true,
    }
}

/// Every span of a declaration and of its members is bounded.
pub open spec fn decl_spans_wf(d: EnumDeclarationV, n: int) -> bool {
    &&& span_bounded(d.span, n)
    &&& forall|t: int| 0 <= t < d.members.len() ==> member_spans_wf(#[trigger] d.members[t], n)
}

/// Every span anywhere in a program is bounded.
pub open spec fn program_spans_wf(p: ProgramV, n: int) -> bool {
    &&& span_bounded(p.span, n)
    &&& forall|t: int|
        0 <= t < p.declarations.len() ==> decl_spans_wf(#[trigger] p.declarations[t], n)
}

proof fn lemma_initializer_spans(s: Seq<char>, i: int)
    requires
        0 <= i <= s.len() <= usize::MAX,
    ensures
        match parse_initializer(s, i) {
            Some((e, j)) => e.span.start == i && e.span.end == j && i < j <= s.len(),
            None => true,
        },
{
    lemma_parse_initializer_advances(s, i);
    if i < s.len() && is_digit_char(s[i]) {
        lemma_digits_end_bounds(s, i + 1);
    } else if i < s.len() && s[i] == '\'' {
        lemma_scan_quote_bounds(s, i + 1);
    }
}

proof fn lemma_member_spans(s: Seq<char>, i: int)
    requires
        0 <= i <= s.len() <= usize::MAX,
    ensures
        match parse_member(s, i) {
            Some((m, j)) => m.span.start == i && m.span.end == j && i < j <= s.len()
                && member_spans_wf(m, s.len() as int),
            None => true,
        },
{
    lemma_parse_name_advances(s, i);
    lemma_parse_member_advances(s, i);
    if let Some((_, j)) = parse_name(s, i) {
        lemma_skip_ws_bounds(s, j);
        let k = skip_ws(s, j);
        if k < s.len() && s[k] == '=' {
            lemma_skip_ws_bounds(s, k + 1);
            lemma_initializer_spans(s, skip_ws(s, k + 1));
        }
    }
}

proof fn lemma_members_rest_spans(s: Seq<char>, i: int)
    requires
        0 <= i <= s.len() <= usize::MAX,
    ensures
        match members_rest(s, i) {
            Some((ms, _)) => forall|t: int|
                0 <= t < ms.len() ==> member_spans_wf(#[trigger] ms[t], s.len() as int),
            None => true,
        },
    decreases s.len() - i,
{
    if !(i < s.len() && s[i] == '}') {
        lemma_member_spans(s, i);
        lemma_parse_member_advances(s, i);
        if let Some((m, j)) = parse_member(s, i) {
            lemma_skip_ws_bounds(s, j);
            let k = skip_ws(s, j);
            if k < s.len() && s[k] == ',' {
                lemma_skip_ws_bounds(s, k + 1);
                lemma_members_rest_spans(s, skip_ws(s, k + 1));
            }
        }
    }
}

proof fn lemma_enum_decl_spans(s: Seq<char>, i: int)
    requires
        0 <= i <= s.len() <= usize::MAX,
    ensures
        match parse_enum_decl(s, i) {
            Some((d, j)) => d.span.start == i && d.span.end == j && i < j <= s.len()
                && decl_spans_wf(d, s.len() as int),
            None => true,
        },
{
    lemma_parse_enum_decl_advances(s, i);
    if i + 4 <= s.len() && s[i] == 'e' && s[i + 1] == 'n' && s[i + 2] == 'u' && s[i + 3] == 'm' && (
    i + 4 == s.len() || !is_ident_cont_char(s[i + 4])) {
        lemma_skip_ws_bounds(s, i + 4);
        let j = skip_ws(s, i + 4);
        if j < s.len() && is_ident_start_char(s[j]) {
            lemma_ident_end_bounds(s, j + 1);
            let k = ident_end(s, j + 1);
            lemma_skip_ws_bounds(s, k);
            let b = skip_ws(s, k);
            if b < s.len() && s[b] == '{' {
                lemma_skip_ws_bounds(s, b + 1);
                lemma_members_rest_spans(s, skip_ws(s, b + 1));
                lemma_members_rest_advances(s, skip_ws(s, b + 1));
            }
        }
    }
}

proof fn lemma_decls_rest_spans(s: Seq<char>, i: int)
    requires
        0 <= i <= s.len() <= usize::MAX,
    ensures
        match decls_rest(s, i) {
            Some(ds) => forall|t: int|
                0 <= t < ds.len() ==> decl_spans_wf(#[trigger] ds[t], s.len() as int),
            None => true,
        },
    decreases s.len() - i,
{
    if i != s.len() {
        lemma_enum_decl_spans(s, i);
        lemma_parse_enum_decl_advances(s, i);
        if let Some((_, j)) = parse_enum_decl(s, i) {
            lemma_skip_ws_bounds(s, j);
            lemma_decls_rest_spans(s, skip_ws(s, j));
        }
    }
}

/// Every tree the grammar yields is well formed: every span it holds —
/// of the program, of each declaration, member and initializer — runs
/// forwards and lies inside the source buffer.
pub proof fn lemma_parsed_tree_spans_wf(s: Seq<char>)
    requires
        s.len() <= usize::MAX,
    ensures
        match parse_source_spec(s) {
            Some(p) => program_spans_wf(p, s.len() as int),
            None => true,
        },
{
    if vstd::utf8::is_ascii_chars(s) {
        lemma_skip_ws_bounds(s, 0);
        lemma_decls_rest_spans(s, skip_ws(s, 0));
    }
}

/// Whether an executable parsing step returned exactly what the grammar
/// says: the same verdict, the same value, the same next position.
pub open spec fn step_matches<T: DeepView>(r: Option<(T, usize)>, sr: Option<(T::V, int)>) -> bool {
    match (r, sr) {
        (Some((v, j)), Some((sv, sj))) => v.deep_view() == sv && j as int == sj,
        (None, None) => true,
        _ => false,
    }
}

fn is_ws_x(c: char) -> (r: bool)
    ensures
        r == is_ws_char(c),
{
    c == ' ' || c == '\t' || c == '\n' || c == '\r'
}

fn is_digit_x(c: char) -> (r: bool)
    ensures
        r == is_digit_char(c),
{
    let u = c as u32;
    48 <= u && u <= 57
}

fn is_ident_start_x(c: char) -> (r: bool)
    ensures
        r == is_ident_start_char(c),
{
    let u = c as u32;
    (65 <= u && u <= 90) || (97 <= u && u <= 122) || u == 95 || u == 36
}

fn is_ident_cont_x(c: char) -> (r: bool)
    ensures
        r == is_ident_cont_char(c),
{
    is_ident_start_x(c) || is_digit_x(c)
}

fn skip_ws_x(s: &str, n: usize, i: usize) -> (r: usize)
    requires
        n as nat == s@.len(),
        i <= n,
    ensures
        r as int == skip_ws(s@, i as int),
        i <= r <= n,
    decreases n - i,
{
    if i < n {
        let c = s.get_char(i);
        if is_ws_x(c) {
            return skip_ws_x(s, n, i + 1);
        }
    }
    i
}

fn ident_end_x(s: &str, n: usize, i: usize) -> (r: usize)
    requires
        n as nat == s@.len(),
        i <= n,
    ensures
        r as int == ident_end(s@, i as int),
        i <= r <= n,
    decreases n - i,
{
    if i < n {
        let c = s.get_char(i);
        if is_ident_cont_x(c) {
            return ident_end_x(s, n, i + 1);
        }
    }
    i
}

fn digits_end_x(s: &str, n: usize, i: usize) -> (r: usize)
    requires
        n as nat == s@.len(),
        i <= n,
    ensures
        r as int == digits_end(s@, i as int),
        i <= r <= n,
    decreases n - i,
{
    if i < n {
        let c = s.get_char(i);
        if is_digit_x(c) {
            return digits_end_x(s, n, i + 1);
        }
    }
    i
}

fn scan_quote_x(s: &str, n: usize, i: usize) -> (r: Option<usize>)
    requires
        n as nat == s@.len(),
        i <= n,
    ensures
        match (r, scan_quote(s@, i as int)) {
            (Some(q), Some(sq)) => q as int == sq && i <= q < n,
            (None, None) => true,
            _ => false,
        },
    decreases n - i,
{
    if i < n {
        let c = s.get_char(i);
        if c == '\'' {
            Some(i)
        } else {
            scan_quote_x(s, n, i + 1)
        }
    } else {
        None
    }
}

fn parse_name_x(s: &str, n: usize, i: usize) -> (r: Option<(MemberName, usize)>)
    requires
        n as nat == s@.len(),
        i <= n,
    ensures
        step_matches(r, parse_name(s@, i as int)),
        match r {
            Some((_, j)) => i < j <= n,
            None => true,
        },
{
    if i < n {
        let c = s.get_char(i);
        if is_ident_start_x(c) {
            let j = ident_end_x(s, n, i + 1);
            let name = s.substring_char(i, j).to_owned();
            return Some((MemberName::Identifier(name), j));
        }
        if c == '\'' {
            return match scan_quote_x(s, n, i + 1) {
                Some(q) => {
                    let name = s.substring_char(i + 1, q).to_owned();
                    Some((MemberName::StringName(name), q + 1))
                },
                None => None,
            };
        }
    }
    None
}

fn parse_initializer_x(s: &str, n: usize, i: usize) -> (r: Option<(Expression, usize)>)
    requires
        n as nat == s@.len(),
        i <= n,
    ensures
        step_matches(r, parse_initializer(s@, i as int)),
        match r {
            Some((_, j)) => i < j <= n,
            None => true,
        },
{
    if i < n {
        let c = s.get_char(i);
        if is_digit_x(c) {
            let j = digits_end_x(s, n, i + 1);
            let text = s.substring_char(i, j).to_owned();
            return Some(
                (
                    Expression {
                        kind: ExpressionKind::NumberLiteral(text),
                        span: Span { start: i, end: j },
                    },
                    j,
                ),
            );
        }
        if c == '\'' {
            return match scan_quote_x(s, n, i + 1) {
                Some(q) => {
                    let text = s.substring_char(i + 1, q).to_owned();
                    Some(
                        (
                            Expression {
                                kind: ExpressionKind::StringLiteral(text),
                                span: Span { start: i, end: q + 1 },
                            },
                            q + 1,
                        ),
                    )
                },
                None => None,
            };
        }
    }
    None
}

fn parse_member_x(s: &str, n: usize, i: usize) -> (r: Option<(EnumMember, usize)>)
    requires
        n as nat == s@.len(),
        i <= n,
    ensures
        step_matches(r, parse_member(s@, i as int)),
        match r {
            Some((_, j)) => i < j <= n,
            None => true,
        },
{
    match parse_name_x(s, n, i) {
        None => None,
        Some((name, j)) => {
            let k = skip_ws_x(s, n, j);
            if k < n {
                let c = s.get_char(k);
                if c == '=' {
                    let m = skip_ws_x(s, n, k + 1);
                    return match parse_initializer_x(s, n, m) {
                        None => None,
                        Some((e, e2)) => Some(
                            (
                                EnumMember {
                                    id: name,
                                    initializer: Some(e),
                                    span: Span { start: i, end: e2 },
                                },
                                e2,
                            ),
                        ),
                    };
                }
            }
            Some(
                (
                    EnumMember { id: name, initializer: None, span: Span { start: i, end: j } },
                    j,
                ),
            )
        },
    }
}

fn members_rest_x(s: &str, n: usize, i: usize) -> (r: Option<(Vec<EnumMember>, usize)>)
    requires
        n as nat == s@.len(),
        i <= n,
    ensures
        match (r, members_rest(s@, i as int)) {
            (Some((v, e)), Some((sv, se))) => v.deep_view() == sv && e as int == se && i < e <= n,
            (None, None) => true,
            _ => false,
        },
    decreases n - i,
{
    if i < n {
        let c = s.get_char(i);
        if c == '}' {
            let empty: Vec<EnumMember> = Vec::new();
            proof {
                assert(empty.deep_view() =~= Seq::<EnumMemberV>::empty());
            }
            return Some((empty, i + 1));
        }
    }
    match parse_member_x(s, n, i) {
        None => None,
        Some((m, j)) => {
            let k = skip_ws_x(s, n, j);
            if k < n {
                let c = s.get_char(k);
                if c == ',' {
                    let k2 = skip_ws_x(s, n, k + 1);
                    return match members_rest_x(s, n, k2) {
                        None => None,
                        Some((ms, e)) => {
                            let ghost mv = m.deep_view();
                            let ghost tail = ms.deep_view();
                            let mut ms = ms;
                            ms.insert(0, m);
                            proof {
                                assert(ms.deep_view() =~= seq![mv] + tail);
                            }
                            Some((ms, e))
                        },
                    };
                }
                if c == '}' {
                    let mut ms: Vec<EnumMember> = Vec::new();
                    let ghost mv = m.deep_view();
                    ms.push(m);
                    proof {
                        assert(ms.deep_view() =~= seq![mv]);
                    }
                    return Some((ms, k + 1));
                }
            }
            None
        },
    }
}

fn parse_enum_decl_x(s: &str, n: usize, i: usize) -> (r: Option<(EnumDeclaration, usize)>)
    requires
        n as nat == s@.len(),
        i <= n,
    ensures
        step_matches(r, parse_enum_decl(s@, i as int)),
        match r {
            Some((_, j)) => i < j <= n,
            None => true,
        },
{
    if n >= 4 && i <= n - 4 {
        let c0 = s.get_char(i);
        let c1 = s.get_char(i + 1);
        let c2 = s.get_char(i + 2);
        let c3 = s.get_char(i + 3);
        if c0 == 'e' && c1 == 'n' && c2 == 'u' && c3 == 'm' {
            let whole_word = if i + 4 == n {
                true
            } else {
                !is_ident_cont_x(s.get_char(i + 4))
            };
            if whole_word {
                let j = skip_ws_x(s, n, i + 4);
                if j < n {
                    let cj = s.get_char(j);
                    if is_ident_start_x(cj) {
                        let k = ident_end_x(s, n, j + 1);
                        let name = s.substring_char(j, k).to_owned();
                        let b = skip_ws_x(s, n, k);
                        if b < n {
                            let cb = s.get_char(b);
                            if cb == '{' {
                                let body = skip_ws_x(s, n, b + 1);
                                return match members_rest_x(s, n, body) {
                                    None => None,
                                    Some((ms, e)) => Some(
                                        (
                                            EnumDeclaration {
                                                name,
                                                members: ms,
                                                span: Span { start: i, end: e },
                                            },
                                            e,
                                        ),
                                    ),
                                };
                            }
                        }
                        return None;
                    }
                }
                return None;
            }
        }
    }
    None
}

fn decls_rest_x(s: &str, n: usize, i: usize) -> (r: Option<Vec<EnumDeclaration>>)
    requires
        n as nat == s@.len(),
        i <= n,
    ensures
        match (r, decls_rest(s@, i as int)) {
            (Some(v), Some(ds)) => v.deep_view() == ds,
            (None, None) => true,
            _ => false,
        },
    decreases n - i,
{
    if i == n {
        let empty: Vec<EnumDeclaration> = Vec::new();
        proof {
            assert(empty.deep_view() =~= Seq::<EnumDeclarationV>::empty());
        }
        return Some(empty);
    }
    match parse_enum_decl_x(s, n, i) {
        None => None,
        Some((d, j)) => {
            let k = skip_ws_x(s, n, j);
            match decls_rest_x(s, n, k) {
                None => None,
                Some(ds) => {
                    let ghost dv = d.deep_view();
                    let ghost tail = ds.deep_view();
                    let mut ds = ds;
                    ds.insert(0, d);
                    proof {
                        assert(ds.deep_view() =~= seq![dv] + tail);
                    }
                    Some(ds)
                },
            }
        },
    }
}

/// Parses one source buffer, returning exactly the tree the grammar gives
/// it, or `None` where the buffer lies outside the grammar.
pub fn parse_source(s: &str) -> (r: Option<Program>)
    ensures
        match (r, parse_source_spec(s@)) {
            (Some(p), Some(pv)) => p.deep_view() == pv,
            (None, None) => true,
            _ => false,
        },
{
    if !s.is_ascii() {
        return None;
    }
    let n = s.unicode_len();
    let i0 = skip_ws_x(s, n, 0);
    match decls_rest_x(s, n, i0) {
        None => None,
        Some(ds) => Some(Program { declarations: ds, span: Span { start: 0, end: n } }),
    }
}

} // verus!
