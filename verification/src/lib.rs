//! A lazily evaluated, dynamically typed configuration-expression language.
//!
//! The crate takes a raw expression tree (produced by an external parser),
//! builds a simplified abstract syntax tree in which every identifier has been
//! resolved to a statically assigned variable slot, and reduces the result to
//! a concrete [`value::Value`] with memoized lazy evaluation.

use vstd::prelude::*;
use crate::ast::{Ast, AstV};
use crate::builder::{build_spec, build_result_matches, home_view, initial_build_state};
use crate::error::Error;
use crate::eval::{EvalContext, SearchEntry, ThunkV, EVAL_DEPTH_LIMIT, eval_spec, res_view};
use crate::raw::RawExpr;
use crate::value::Value;

verus! {

/// A half-open byte range inside one source file, used for diagnostics.
#[derive(Debug, Copy, Clone, PartialEq, Eq, Structural)]
pub struct Span {
    pub lo: u64,
    pub hi: u64,
}

impl Span {
    /// A synthetic span for items with no source location (built-in bindings).
    pub fn synthetic() -> (s: Span)
        ensures
            s.lo == 0 && s.hi == 0,
    {
        Span { lo: 0, hi: 0 }
    }
}

pub mod ast;
pub mod builder;
pub mod error;
pub mod eval;
pub mod literal;
pub mod raw;
pub mod scope;
pub mod util;
pub mod value;

/// Builds and evaluates a raw expression in one fresh session.
///
/// A fresh arena is created, the simplified AST is built with every
/// identifier resolved, one unevaluated closure cell is set up per variable
/// slot, and the root expression is reduced to a value.  Nothing of the
/// session outlives the call; everything is dropped in bulk with it.
pub fn evaluate(
    search_path: String,
    home: Option<String>,
    search_list: Vec<SearchEntry>,
    root: &RawExpr,
) -> (r: Result<Value, Error>)
    ensures
        ({
            let built = build_spec(initial_build_state(search_path@, home_view(home)), *root);
            match built.1 {
                Err(e) => res_view(r) == Err::<crate::value::ValV, crate::error::ErrV>(e),
                Ok(root_id) => {
                    let a = AstV {
                        exprs: built.0.exprs,
                        spans: built.0.spans,
                        vars: built.0.vars,
                        root: root_id,
                    };
                    let stepped = eval_spec(
                        a,
                        search_list@.map(|_i: int, s: SearchEntry| s@),
                        Seq::new(a.vars.len(), |_i: int| ThunkV::Unevaluated),
                        root_id,
                        EVAL_DEPTH_LIMIT as nat,
                    );
                    res_view(r) == stepped.1
                },
            }
        }),
{
    let ghost spv = search_path@;
    let ghost hv = home_view(home);
    let built = Ast::build(search_path, home, root);
    match built {
        Ok(ast) => {
            proof {
                assert(build_result_matches(spv, hv, *root, Ok(ast)));
            }
            let ghost av = ast@;
            let mut cx = EvalContext::new(ast, search_list);
            let out = cx.eval();
            proof {
                let stepped = build_spec(initial_build_state(spv, hv), *root);
                let a = AstV {
                    exprs: stepped.0.exprs,
                    spans: stepped.0.spans,
                    vars: stepped.0.vars,
                    root: stepped.1->Ok_0,
                };
                assert(av =~= a);
            }
            out
        }
        Err(e) => Err(e),
    }
}

} // verus!
