//! The raw expression tree handed to the AST builder.
//!
//! Tokenizing and parsing are delegated to an external parsing collaborator;
//! the collaborator's output is converted (outside this crate) into this
//! self-contained tree of plain values.  Every node carries the source span
//! it came from, so build errors can point at the offending text.

use vstd::prelude::*;
use crate::Span;

verus! {

/// How a path literal is anchored.
#[derive(Debug, Copy, Clone, PartialEq, Eq)]
pub enum RawAnchor {
    /// `/absolute/path`
    Absolute,
    /// `./relative/path`
    Relative,
    /// `~/home/relative/path`
    Home,
    /// `<search-path>` — resolved against a search list only when evaluated.
    Store,
    /// `scheme://uri` — becomes a plain string value.
    Uri,
}

/// A literal token, already classified but not yet converted to a value.
#[derive(Debug)]
pub enum RawLiteral {
    /// An unsigned decimal integer token; conversion may still fail when the
    /// token does not fit the 64-bit signed value range.
    Int(String),
    /// A float token; the value model holds no floating-point numbers, so
    /// conversion always fails with a literal-conversion error.
    Float(String),
    /// A string literal (content, after unescaping).
    Str(String),
    /// A path literal with its anchor.
    Path { anchor: RawAnchor, path: String },
}

/// One segment of an attribute path, as written: `ident` or `"quoted"`.
#[derive(Debug)]
pub enum RawAttrPart {
    Ident(String),
    Quoted(String),
}

/// One binding of a `let` or of a set literal: `<attr-path> = <value>;`.
#[derive(Debug)]
pub struct RawBinding {
    /// The left-hand side; always at least one segment.
    pub attr_path: Vec<RawAttrPart>,
    pub value: RawExpr,
    pub span: Span,
}

/// A raw expression parse tree node.
#[derive(Debug)]
pub enum RawExpr {
    /// A literal value token.
    Literal { lit: RawLiteral, span: Span },
    /// An identifier reference.
    Ident { name: String, span: Span },
    /// `<lambda> <argument>`
    Apply { lambda: Box<RawExpr>, argument: Box<RawExpr>, span: Span },
    /// `assert <condition>; <body>`
    Assert { condition: Box<RawExpr>, body: Box<RawExpr>, span: Span },
    /// `if <cond> then <then> else <els>`
    IfElse { cond: Box<RawExpr>, then: Box<RawExpr>, els: Box<RawExpr>, span: Span },
    /// `<set>.<index>`
    IndexSet { set: Box<RawExpr>, index: RawAttrPart, span: Span },
    /// `<set>.<index> or <default>`
    OrDefault { set: Box<RawExpr>, index: RawAttrPart, default: Box<RawExpr>, span: Span },
    /// `<param>: <body>`
    Lambda { param: String, param_span: Span, body: Box<RawExpr>, span: Span },
    /// `let <bindings> in <body>`
    LetIn { bindings: Vec<RawBinding>, body: Box<RawExpr>, span: Span },
    /// `[ <items> ]`
    List { items: Vec<RawExpr>, span: Span },
    /// `{ <bindings> }`
    AttrSet { bindings: Vec<RawBinding>, span: Span },
    /// `-<operand>`
    Neg { operand: Box<RawExpr>, span: Span },
    /// `<lhs> - <rhs>`
    Sub { lhs: Box<RawExpr>, rhs: Box<RawExpr>, span: Span },
}

impl RawExpr {
    /// The span this node came from.
    pub fn span(&self) -> (s: Span)
        ensures
            s == self.spec_span(),
    {
        match self {
            RawExpr::Literal { span, .. } => *span,
            RawExpr::Ident { span, .. } => *span,
            RawExpr::Apply { span, .. } => *span,
            RawExpr::Assert { span, .. } => *span,
            RawExpr::IfElse { span, .. } => *span,
            RawExpr::IndexSet { span, .. } => *span,
            RawExpr::OrDefault { span, .. } => *span,
            RawExpr::Lambda { span, .. } => *span,
            RawExpr::LetIn { span, .. } => *span,
            RawExpr::List { span, .. } => *span,
            RawExpr::AttrSet { span, .. } => *span,
            RawExpr::Neg { span, .. } => *span,
            RawExpr::Sub { span, .. } => *span,
        }
    }

    /// The span, as a spec-level projection.
    pub open spec fn spec_span(&self) -> Span {
        match self {
            RawExpr::Literal { span, .. } => *span,
            RawExpr::Ident { span, .. } => *span,
            RawExpr::Apply { span, .. } => *span,
            RawExpr::Assert { span, .. } => *span,
            RawExpr::IfElse { span, .. } => *span,
            RawExpr::IndexSet { span, .. } => *span,
            RawExpr::OrDefault { span, .. } => *span,
            RawExpr::Lambda { span, .. } => *span,
            RawExpr::LetIn { span, .. } => *span,
            RawExpr::List { span, .. } => *span,
            RawExpr::AttrSet { span, .. } => *span,
            RawExpr::Neg { span, .. } => *span,
            RawExpr::Sub { span, .. } => *span,
        }
    }
}

} // verus!
