//! The syntax tree the engine walks, and the closed classifier over its
//! node kinds.
//!
//! The tree is produced by parsing (see [`crate::parser`]) and is immutable
//! for the whole of a run. Every construct the tree can contain has exactly
//! one kind, so a rule can match exhaustively and default to "no interest"
//! for kinds it does not inspect. A member name that is not a plain
//! identifier is a distinct variant, not a null value, so rules skip it by
//! pattern matching rather than by a null check.

use vstd::prelude::*;

use crate::span::Span;

verus! {

/// The name of one enum member: either a plain identifier or a quoted
/// string form, which no initializer rule may sensibly flag.
#[derive(Debug, Clone)]
pub enum MemberName {
    Identifier(String),
    StringName(String),
}

/// The mathematical value of a [`MemberName`].
#[verifier::ext_equal]
pub enum MemberNameV {
    Identifier(Seq<char>),
    StringName(Seq<char>),
}

/// What an initializer expression is: a numeric or a textual literal,
/// carried as its raw source text.
#[derive(Debug, Clone)]
pub enum ExpressionKind {
    NumberLiteral(String),
    StringLiteral(String),
}

/// The mathematical value of an [`ExpressionKind`].
#[verifier::ext_equal]
pub enum ExpressionKindV {
    NumberLiteral(Seq<char>),
    StringLiteral(Seq<char>),
}

/// An initializer expression together with its source span.
#[derive(Debug, Clone)]
pub struct Expression {
    pub kind: ExpressionKind,
    pub span: Span,
}

/// The mathematical value of an [`Expression`].
#[verifier::ext_equal]
pub struct ExpressionV {
    pub kind: ExpressionKindV,
    pub span: Span,
}

/// One member of an enum declaration: a name, an optional initializer,
/// and the span of the whole member.
#[derive(Debug, Clone)]
pub struct EnumMember {
    pub id: MemberName,
    pub initializer: Option<Expression>,
    pub span: Span,
}

/// The mathematical value of an [`EnumMember`].
#[verifier::ext_equal]
pub struct EnumMemberV {
    pub id: MemberNameV,
    pub initializer: Option<ExpressionV>,
    pub span: Span,
}

/// An enum declaration: its name, its ordered member list, and its span.
#[derive(Debug, Clone)]
pub struct EnumDeclaration {
    pub name: String,
    pub members: Vec<EnumMember>,
    pub span: Span,
}

/// The mathematical value of an [`EnumDeclaration`].
#[verifier::ext_equal]
pub struct EnumDeclarationV {
    pub name: Seq<char>,
    pub members: Seq<EnumMemberV>,
    pub span: Span,
}

/// The root of a parsed tree: the declarations of one source buffer,
/// in document order.
#[derive(Debug, Clone)]
pub struct Program {
    pub declarations: Vec<EnumDeclaration>,
    pub span: Span,
}

/// The mathematical value of a [`Program`].
#[verifier::ext_equal]
pub struct ProgramV {
    pub declarations: Seq<EnumDeclarationV>,
    pub span: Span,
}

impl DeepView for MemberName {
    type V = MemberNameV;

    open spec fn deep_view(&self) -> MemberNameV {
        match self {
            MemberName::Identifier(s) => MemberNameV::Identifier(s@),
            MemberName::StringName(s) => MemberNameV::StringName(s@),
        }
    }
}

impl DeepView for ExpressionKind {
    type V = ExpressionKindV;

    open spec fn deep_view(&self) -> ExpressionKindV {
        match self {
            ExpressionKind::NumberLiteral(s) => ExpressionKindV::NumberLiteral(s@),
            ExpressionKind::StringLiteral(s) => ExpressionKindV::StringLiteral(s@),
        }
    }
}

impl DeepView for Expression {
    type V = ExpressionV;

    open spec fn deep_view(&self) -> ExpressionV {
        ExpressionV { kind: self.kind.deep_view(), span: self.span }
    }
}

impl DeepView for EnumMember {
    type V = EnumMemberV;

    open spec fn deep_view(&self) -> EnumMemberV {
        EnumMemberV {
            id: self.id.deep_view(),
            initializer: match &self.initializer {
                Some(e) => Some(e.deep_view()),
                None => None,
            },
            span: self.span,
        }
    }
}

impl DeepView for EnumDeclaration {
    type V = EnumDeclarationV;

    open spec fn deep_view(&self) -> EnumDeclarationV {
        EnumDeclarationV {
            name: self.name@,
            members: self.members.deep_view(),
            span: self.span,
        }
    }
}

impl DeepView for Program {
    type V = ProgramV;

    open spec fn deep_view(&self) -> ProgramV {
        ProgramV { declarations: self.declarations.deep_view(), span: self.span }
    }
}

/// The closed set of node kinds, one tag per syntactic construct. Adding a
/// kind forces every exhaustive matcher over nodes to be revisited.
#[derive(Debug, Clone, Copy, PartialEq, Eq, Structural)]
pub enum NodeKind {
    Program,
    EnumDeclaration,
    EnumMember,
    NumberLiteral,
    StringLiteral,
}

/// A handle to one visited node, giving a rule the node's kind and access
/// to the fields of that kind. Nodes never outlive the tree they come from.
#[derive(Debug, Clone, Copy)]
pub enum AstNode<'a> {
    Program(&'a Program),
    EnumDeclaration(&'a EnumDeclaration),
    EnumMember(&'a EnumMember),
    Expression(&'a Expression),
}

/// The mathematical value of an [`AstNode`].
#[verifier::ext_equal]
pub enum AstNodeV {
    Program(ProgramV),
    EnumDeclaration(EnumDeclarationV),
    EnumMember(EnumMemberV),
    Expression(ExpressionV),
}

impl<'a> DeepView for AstNode<'a> {
    type V = AstNodeV;

    open spec fn deep_view(&self) -> AstNodeV {
        match self {
            AstNode::Program(p) => AstNodeV::Program(p.deep_view()),
            AstNode::EnumDeclaration(d) => AstNodeV::EnumDeclaration(d.deep_view()),
            AstNode::EnumMember(m) => AstNodeV::EnumMember(m.deep_view()),
            AstNode::Expression(e) => AstNodeV::Expression(e.deep_view()),
        }
    }
}

impl<'a> AstNode<'a> {
    /// The classifier: exactly one tag for every node.
    pub fn kind(&self) -> (k: NodeKind)
        ensures
            k == self.spec_kind(),
    {
        match self {
            AstNode::Program(_) => NodeKind::Program,
            AstNode::EnumDeclaration(_) => NodeKind::EnumDeclaration,
            AstNode::EnumMember(_) => NodeKind::EnumMember,
            AstNode::Expression(e) => match &e.kind {
                ExpressionKind::NumberLiteral(_) => NodeKind::NumberLiteral,
                ExpressionKind::StringLiteral(_) => NodeKind::StringLiteral,
            },
        }
    }

    pub open spec fn spec_kind(&self) -> NodeKind {
        match self {
            AstNode::Program(_) => NodeKind::Program,
            AstNode::EnumDeclaration(_) => NodeKind::EnumDeclaration,
            AstNode::EnumMember(_) => NodeKind::EnumMember,
            AstNode::Expression(e) => match e.kind {
                ExpressionKind::NumberLiteral(_) => NodeKind::NumberLiteral,
                ExpressionKind::StringLiteral(_) => NodeKind::StringLiteral,
            },
        }
    }

    /// The span the node covers in its source buffer.
    pub fn span(&self) -> (s: Span)
        ensures
            s == self.spec_span(),
    {
        match self {
            AstNode::Program(p) => p.span,
            AstNode::EnumDeclaration(d) => d.span,
            AstNode::EnumMember(m) => m.span,
            AstNode::Expression(e) => e.span,
        }
    }

    pub open spec fn spec_span(&self) -> Span {
        match self {
            AstNode::Program(p) => p.span,
            AstNode::EnumDeclaration(d) => d.span,
            AstNode::EnumMember(m) => m.span,
            AstNode::Expression(e) => e.span,
        }
    }
}

} // verus!
