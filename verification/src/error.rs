//! The closed set of build- and evaluation-error kinds.
//!
//! Every error is locally fatal to the expression being built or evaluated
//! and carries enough context (span, name, cause) for a diagnostic renderer.

use vstd::prelude::*;
use crate::Span;
use crate::value::Type;

verus! {

/// A build or evaluation error.
#[derive(Debug)]
pub enum Error {
    /// An invalid literal token (bad integer, unsupported float, ...),
    /// carrying a description of the cause.
    LiteralConversion { span: Span, cause: String },
    /// An identifier not found in any enclosing scope at build time.
    UnresolvedVariable { span: Span, name: String },
    /// A name already declared in the exact same scope.
    Redeclaration { span: Span, name: String },
    /// A value used where a different shape was required.
    TypeMismatch { span: Span, expected: Type, found: Type },
    /// An assertion evaluated to `false`.
    AssertionFailed { span: Span },
    /// An attribute name absent from a set, with no default form applying.
    Lookup { span: Span, name: String },
    /// An angle-bracket path not found in any search entry.
    SearchPathResolution { span: Span, name: String },
    /// A closure demanded while it was already being forced.
    InfiniteRecursion { span: Span },
    /// An expression form outside the evaluated subset (function application).
    Unsupported { span: Span },
    /// The nesting depth bound was exhausted before evaluation finished.
    RecursionLimit { span: Span },
}

/// Mathematical model of an `Error`.
pub enum ErrV {
    LiteralConversion { span: Span, cause: Seq<char> },
    UnresolvedVariable { span: Span, name: Seq<char> },
    Redeclaration { span: Span, name: Seq<char> },
    TypeMismatch { span: Span, expected: Type, found: Type },
    AssertionFailed { span: Span },
    Lookup { span: Span, name: Seq<char> },
    SearchPathResolution { span: Span, name: Seq<char> },
    InfiniteRecursion { span: Span },
    Unsupported { span: Span },
    RecursionLimit { span: Span },
}

impl View for Error {
    type V = ErrV;

    open spec fn view(&self) -> ErrV {
        match self {
            Error::LiteralConversion { span, cause } => ErrV::LiteralConversion {
                span: *span,
                cause: cause@,
            },
            Error::UnresolvedVariable { span, name } => ErrV::UnresolvedVariable {
                span: *span,
                name: name@,
            },
            Error::Redeclaration { span, name } => ErrV::Redeclaration {
                span: *span,
                name: name@,
            },
            Error::TypeMismatch { span, expected, found } => ErrV::TypeMismatch {
                span: *span,
                expected: *expected,
                found: *found,
            },
            Error::AssertionFailed { span } => ErrV::AssertionFailed { span: *span },
            Error::Lookup { span, name } => ErrV::Lookup { span: *span, name: name@ },
            Error::SearchPathResolution { span, name } => ErrV::SearchPathResolution {
                span: *span,
                name: name@,
            },
            Error::InfiniteRecursion { span } => ErrV::InfiniteRecursion { span: *span },
            Error::Unsupported { span } => ErrV::Unsupported { span: *span },
            Error::RecursionLimit { span } => ErrV::RecursionLimit { span: *span },
        }
    }
}

} // verus!
