//! The lazy closure (thunk) engine and the tree-walking evaluator.
//!
//! Every variable slot owns one closure cell.  A cell is `Unevaluated` until
//! its value is first demanded, `BeingForced` while its bound expression is
//! being evaluated, and `Evaluated` afterwards — the transition into
//! `Evaluated` happens at most once, and a cell demanded while `BeingForced`
//! reports an infinite-recursion error instead of recursing forever.
//!
//! The entire evaluation is specified by the recursive functions
//! [`eval_spec`] and [`force_spec`]; the executable evaluator is proved to
//! return exactly what they describe.  A fuel parameter bounds the nesting
//! depth (a verified evaluator cannot exhaust the call stack the way an
//! unverified one would); running out of fuel reports a recursion-limit
//! error.

use vstd::prelude::*;
use crate::Span;
use crate::ast::{Ast, AstV, Expr, ExprV, Variable, ast_wf, expr_wf, valv_wf};
use crate::error::{Error, ErrV};
use crate::value::{
    Attrs, ExprId, NixPath, PathV, Type, ValV, Value, attrs_lookup, lemma_attrs_lookup_in_values,
    str_eq, type_of,
};

verus! {

/// The nesting depth the evaluator allows before it reports a
/// recursion-limit error.
pub const EVAL_DEPTH_LIMIT: u64 = 4096;

/// One entry of the ordered search-path list: `<name>` resolves to `path`.
#[derive(Debug)]
pub struct SearchEntry {
    pub name: String,
    pub path: String,
}

impl View for SearchEntry {
    type V = (Seq<char>, Seq<char>);

    open spec fn view(&self) -> (Seq<char>, Seq<char>) {
        (self.name@, self.path@)
    }
}

/// The expression source handed to an evaluation session: either a file
/// (whose directory doubles as the search root) or any other text with an
/// explicit name and search root.  Reading a file is the caller's business;
/// the evaluator itself performs no I/O.
#[derive(Debug)]
pub enum Source {
    /// An expression read from a file at `path`; the name of the source and
    /// the search root both derive from it.
    File { path: String },
    /// An expression from a non-file source (command line, test, ...).
    Other { source: String, name: String, search_path: String },
}

/// A lazy closure cell.
#[derive(Debug)]
pub enum ThunkState {
    /// Not yet demanded.
    Unevaluated,
    /// Currently being forced; a demand in this state is an
    /// infinite-recursion error.
    BeingForced,
    /// Forced before; the stored value is returned without recomputation.
    Evaluated(Value),
}

/// Mathematical model of a closure cell.
pub enum ThunkV {
    Unevaluated,
    BeingForced,
    Evaluated(ValV),
}

impl View for ThunkState {
    type V = ThunkV;

    open spec fn view(&self) -> ThunkV {
        match self {
            ThunkState::Unevaluated => ThunkV::Unevaluated,
            ThunkState::BeingForced => ThunkV::BeingForced,
            ThunkState::Evaluated(v) => ThunkV::Evaluated(v@),
        }
    }
}

/// A closure cell holds only well-formed values.
pub open spec fn thunk_wf(t: ThunkV, nexprs: int) -> bool {
    match t {
        ThunkV::Evaluated(v) => valv_wf(v, nexprs),
        _ => true,
    }
}

/// Two's-complement wraparound into the 64-bit signed range, for inputs
/// within one range-width of it.
pub open spec fn wrap_to_i64(x: int) -> int {
    if x > i64::MAX {
        x - 0x1_0000_0000_0000_0000
    } else if x < i64::MIN {
        x + 0x1_0000_0000_0000_0000
    } else {
        x
    }
}

/// First match in the ordered search-path list.
pub open spec fn search_lookup(sl: Seq<(Seq<char>, Seq<char>)>, name: Seq<char>) -> Option<
    Seq<char>,
>
    decreases sl.len(),
{
    if sl.len() == 0 {
        None
    } else if sl[0].0 == name {
        Some(sl[0].1)
    } else {
        search_lookup(sl.skip(1), name)
    }
}

/// What evaluating node `e` returns and does to the closure store, with a
/// depth budget of `fuel`.
///
/// This is the semantics the executable evaluator is proved against.
/// Node behaviours:
/// - a literal returns a copy of its value;
/// - a variable forces its closure (see [`force_spec`]);
/// - `assert` demands a boolean, fails on `false` without touching the body;
/// - `if` demands a boolean and evaluates exactly one branch;
/// - indexing demands a set and an attribute name; a missing key is a lookup
///   error unless the or-default form supplies a default expression;
/// - `let` bindings were resolved at build time, so the node evaluates its
///   body;
/// - list and set literals return their members unevaluated;
/// - an angle-bracket path resolves against the search list at demand time;
/// - negation and subtraction wrap around the 64-bit signed range;
/// - function application is outside the evaluated subset.
pub open spec fn eval_spec(
    a: AstV,
    sl: Seq<(Seq<char>, Seq<char>)>,
    th: Seq<ThunkV>,
    e: int,
    fuel: nat,
) -> (Seq<ThunkV>, Result<ValV, ErrV>)
    decreases fuel, 1nat,
{
    let sp = a.spans[e];
    if fuel == 0 {
        (th, Err(ErrV::RecursionLimit { span: sp }))
    } else {
        let prev: nat = (fuel - 1) as nat;
        match a.exprs[e] {
            ExprV::Value(v) => (th, Ok(v)),
            ExprV::Variable(x) => force_spec(a, sl, th, x, sp, fuel),
            ExprV::Assert { assertion, then } => {
                let (th1, r) = eval_spec(a, sl, th, assertion, prev);
                match r {
                    Ok(ValV::Bool(b)) => if b {
                        eval_spec(a, sl, th1, then, prev)
                    } else {
                        (th1, Err(ErrV::AssertionFailed { span: sp }))
                    },
                    Ok(v) => (
                        th1,
                        Err(
                            ErrV::TypeMismatch {
                                span: sp,
                                expected: Type::Bool,
                                found: type_of(v),
                            },
                        ),
                    ),
                    Err(er) => (th1, Err(er)),
                }
            }
            ExprV::IfElse { cond, then, els } => {
                let (th1, r) = eval_spec(a, sl, th, cond, prev);
                match r {
                    Ok(ValV::Bool(b)) => if b {
                        eval_spec(a, sl, th1, then, prev)
                    } else {
                        eval_spec(a, sl, th1, els, prev)
                    },
                    Ok(v) => (
                        th1,
                        Err(
                            ErrV::TypeMismatch {
                                span: sp,
                                expected: Type::Bool,
                                found: type_of(v),
                            },
                        ),
                    ),
                    Err(er) => (th1, Err(er)),
                }
            }
            ExprV::IndexSet { set, index } => {
                let (th1, r) = eval_spec(a, sl, th, set, prev);
                match r {
                    Ok(ValV::AttrSet(entries)) => {
                        let (th2, ri) = eval_spec(a, sl, th1, index, prev);
                        match ri {
                            Ok(ValV::Str(name)) => match attrs_lookup(entries, name) {
                                Some(member) => eval_spec(a, sl, th2, member, prev),
                                None => (th2, Err(ErrV::Lookup { span: sp, name })),
                            },
                            Ok(v) => (
                                th2,
                                Err(
                                    ErrV::TypeMismatch {
                                        span: sp,
                                        expected: Type::Str,
                                        found: type_of(v),
                                    },
                                ),
                            ),
                            Err(er) => (th2, Err(er)),
                        }
                    }
                    Ok(v) => (
                        th1,
                        Err(
                            ErrV::TypeMismatch {
                                span: sp,
                                expected: Type::AttrSet,
                                found: type_of(v),
                            },
                        ),
                    ),
                    Err(er) => (th1, Err(er)),
                }
            }
            ExprV::OrDefault { set, index, default } => {
                let (th1, r) = eval_spec(a, sl, th, set, prev);
                match r {
                    Ok(ValV::AttrSet(entries)) => {
                        let (th2, ri) = eval_spec(a, sl, th1, index, prev);
                        match ri {
                            Ok(ValV::Str(name)) => match attrs_lookup(entries, name) {
                                Some(member) => eval_spec(a, sl, th2, member, prev),
                                None => eval_spec(a, sl, th2, default, prev),
                            },
                            Ok(v) => (
                                th2,
                                Err(
                                    ErrV::TypeMismatch {
                                        span: sp,
                                        expected: Type::Str,
                                        found: type_of(v),
                                    },
                                ),
                            ),
                            Err(er) => (th2, Err(er)),
                        }
                    }
                    Ok(v) => (
                        th1,
                        Err(
                            ErrV::TypeMismatch {
                                span: sp,
                                expected: Type::AttrSet,
                                found: type_of(v),
                            },
                        ),
                    ),
                    Err(er) => (th1, Err(er)),
                }
            }
            ExprV::LetIn { bindings: _, body } => eval_spec(a, sl, th, body, prev),
            ExprV::List(items) => (th, Ok(ValV::List(items))),
            ExprV::AttrSet(entries) => (th, Ok(ValV::AttrSet(entries))),
            ExprV::NixPath(name) => match search_lookup(sl, name) {
                Some(p) => (th, Ok(ValV::Path(PathV::Normal(p)))),
                None => (th, Err(ErrV::SearchPathResolution { span: sp, name })),
            },
            ExprV::Neg { operand } => {
                let (th1, r) = eval_spec(a, sl, th, operand, prev);
                match r {
                    Ok(ValV::Int(v)) => (th1, Ok(ValV::Int(wrap_to_i64(-v)))),
                    Ok(v) => (
                        th1,
                        Err(
                            ErrV::TypeMismatch {
                                span: sp,
                                expected: Type::Int,
                                found: type_of(v),
                            },
                        ),
                    ),
                    Err(er) => (th1, Err(er)),
                }
            }
            ExprV::Sub { lhs, rhs } => {
                let (th1, r) = eval_spec(a, sl, th, lhs, prev);
                match r {
                    Ok(ValV::Int(lv)) => {
                        let (th2, rr) = eval_spec(a, sl, th1, rhs, prev);
                        match rr {
                            Ok(ValV::Int(rv)) => (th2, Ok(ValV::Int(wrap_to_i64(lv - rv)))),
                            Ok(v) => (
                                th2,
                                Err(
                                    ErrV::TypeMismatch {
                                        span: sp,
                                        expected: Type::Int,
                                        found: type_of(v),
                                    },
                                ),
                            ),
                            Err(er) => (th2, Err(er)),
                        }
                    }
                    Ok(v) => (
                        th1,
                        Err(
                            ErrV::TypeMismatch {
                                span: sp,
                                expected: Type::Int,
                                found: type_of(v),
                            },
                        ),
                    ),
                    Err(er) => (th1, Err(er)),
                }
            }
            ExprV::Apply { .. } => (th, Err(ErrV::Unsupported { span: sp })),
            ExprV::Lambda { .. } => (th, Err(ErrV::Unsupported { span: sp })),
        }
    }
}

/// What forcing the closure of variable `x` returns and does to the closure
/// store.
///
/// An `Evaluated` cell returns its stored value with no recomputation and no
/// state change; a `BeingForced` cell reports infinite recursion; an
/// `Unevaluated` cell is marked `BeingForced`, its bound expression is
/// evaluated, and on success the cell transitions — exactly once — into
/// `Evaluated`.
pub open spec fn force_spec(
    a: AstV,
    sl: Seq<(Seq<char>, Seq<char>)>,
    th: Seq<ThunkV>,
    x: int,
    sp: Span,
    fuel: nat,
) -> (Seq<ThunkV>, Result<ValV, ErrV>)
    decreases fuel, 0nat,
{
    match th[x] {
        ThunkV::Evaluated(v) => (th, Ok(v)),
        ThunkV::BeingForced => (th, Err(ErrV::InfiniteRecursion { span: sp })),
        ThunkV::Unevaluated => if fuel == 0 {
            (th, Err(ErrV::RecursionLimit { span: sp }))
        } else {
            let th1 = th.update(x, ThunkV::BeingForced);
            let stepped = eval_spec(a, sl, th1, a.vars[x].expr, (fuel - 1) as nat);
            match stepped.1 {
                Ok(v) => (stepped.0.update(x, ThunkV::Evaluated(v)), Ok(v)),
                Err(er) => (stepped.0, Err(er)),
            }
        },
    }
}

/// The model of an evaluation result.
pub open spec fn res_view(r: Result<Value, Error>) -> Result<ValV, ErrV> {
    match r {
        Ok(v) => Ok(v@),
        Err(e) => Err(e@),
    }
}

/// One evaluation session: the built AST, one closure cell per variable
/// slot, and the ordered search-path list.
#[derive(Debug)]
pub struct EvalContext {
    ast: Ast,
    thunks: Vec<ThunkState>,
    search_list: Vec<SearchEntry>,
}

impl EvalContext {
    /// The model of the AST under evaluation.
    pub closed spec fn astv(&self) -> AstV {
        self.ast@
    }

    /// The model of the closure store.
    pub closed spec fn thv(&self) -> Seq<ThunkV> {
        self.thunks@.map(|_i: int, t: ThunkState| t@)
    }

    /// The model of the search-path list.
    pub closed spec fn slv(&self) -> Seq<(Seq<char>, Seq<char>)> {
        self.search_list@.map(|_i: int, s: SearchEntry| s@)
    }

    /// Session validity: the AST is well formed, there is exactly one
    /// closure cell per variable slot, and stored values are well formed.
    pub open spec fn wf(&self) -> bool {
        &&& ast_wf(self.astv())
        &&& self.thv().len() == self.astv().vars.len()
        &&& forall|i: int|
            0 <= i < self.thv().len() ==> thunk_wf(
                #[trigger] self.thv()[i],
                self.astv().exprs.len() as int,
            )
    }

    /// Creates a session for `ast`: one `Unevaluated` closure cell per
    /// variable slot.
    pub fn new(ast: Ast, search_list: Vec<SearchEntry>) -> (r: EvalContext)
        ensures
            r.astv() == ast@,
            r.slv() == search_list@.map(|_i: int, s: SearchEntry| s@),
            r.thv() =~= Seq::new(ast@.vars.len(), |_i: int| ThunkV::Unevaluated),
            ast_wf(ast@) ==> r.wf(),
    {
        let n: usize = ast.var_count();
        let mut thunks: Vec<ThunkState> = Vec::new();
        let mut i: usize = 0;
        while i < n
            invariant
                i <= n,
                thunks@.len() == i,
                forall|j: int| 0 <= j < i ==> #[trigger] thunks@[j]@ == ThunkV::Unevaluated,
            decreases n - i,
        {
            thunks.push(ThunkState::Unevaluated);
            i += 1;
        }
        let r = EvalContext { ast, thunks, search_list };
        proof {
            assert(r.thv() =~= Seq::new(r.astv().vars.len(), |_i: int| ThunkV::Unevaluated));
        }
        r
    }

    /// Evaluates the root expression of the session's AST.
    pub fn eval(&mut self) -> (r: Result<Value, Error>)
        requires
            old(self).wf(),
        ensures
            final(self).wf(),
            final(self).astv() == old(self).astv(),
            final(self).slv() == old(self).slv(),
            ({
                let stepped = eval_spec(
                    old(self).astv(),
                    old(self).slv(),
                    old(self).thv(),
                    old(self).astv().root,
                    EVAL_DEPTH_LIMIT as nat,
                );
                final(self).thv() == stepped.0 && res_view(r) == stepped.1
            }),
            r is Ok ==> valv_wf(res_view(r)->Ok_0, final(self).astv().exprs.len() as int),
    {
        let root: ExprId = self.ast.root();
        self.eval_expr(root, EVAL_DEPTH_LIMIT)
    }

    /// Evaluates the node at `e`; see [`eval_spec`] for the node behaviours.
    pub fn eval_expr(&mut self, e: ExprId, fuel: u64) -> (r: Result<Value, Error>)
        requires
            old(self).wf(),
            (e as int) < old(self).astv().exprs.len(),
        ensures
            final(self).wf(),
            final(self).astv() == old(self).astv(),
            final(self).slv() == old(self).slv(),
            ({
                let stepped = eval_spec(
                    old(self).astv(),
                    old(self).slv(),
                    old(self).thv(),
                    e as int,
                    fuel as nat,
                );
                final(self).thv() == stepped.0 && res_view(r) == stepped.1
            }),
            r is Ok ==> valv_wf(res_view(r)->Ok_0, final(self).astv().exprs.len() as int),
        decreases fuel, 1nat,
    {
        let ghost a = self.astv();
        let ghost sl0 = self.slv();
        let ghost th0 = self.thv();
        let sp: Span = self.ast.span_at(e);
        if fuel == 0 {
            return Err(Error::RecursionLimit { span: sp });
        }
        match self.ast.expr_at(e) {
            Expr::Value(v) => {
                let out = v.duplicate();
                Ok(out)
            }
            Expr::Variable(x) => {
                let xv: Variable = *x;
                self.force(xv, sp, fuel)
            }
            Expr::Assert { assertion, then } => {
                let ea: ExprId = *assertion;
                let et: ExprId = *then;
                let r1 = self.eval_expr(ea, fuel - 1);
                match r1 {
                    Ok(v) => match v.as_bool() {
                        Some(true) => self.eval_expr(et, fuel - 1),
                        Some(false) => Err(Error::AssertionFailed { span: sp }),
                        None => Err(
                            Error::TypeMismatch {
                                span: sp,
                                expected: Type::Bool,
                                found: v.type_(),
                            },
                        ),
                    },
                    Err(er) => Err(er),
                }
            }
            Expr::IfElse { cond, then, els } => {
                let ec: ExprId = *cond;
                let et: ExprId = *then;
                let ee: ExprId = *els;
                let r1 = self.eval_expr(ec, fuel - 1);
                match r1 {
                    Ok(v) => match v.as_bool() {
                        Some(true) => self.eval_expr(et, fuel - 1),
                        Some(false) => self.eval_expr(ee, fuel - 1),
                        None => Err(
                            Error::TypeMismatch {
                                span: sp,
                                expected: Type::Bool,
                                found: v.type_(),
                            },
                        ),
                    },
                    Err(er) => Err(er),
                }
            }
            Expr::IndexSet { set, index } => {
                let es: ExprId = *set;
                let ei: ExprId = *index;
                self.index_set(e, sp, es, ei, None, fuel)
            }
            Expr::OrDefault { set, index, default } => {
                let es: ExprId = *set;
                let ei: ExprId = *index;
                let ed: ExprId = *default;
                self.index_set(e, sp, es, ei, Some(ed), fuel)
            }
            Expr::LetIn { bindings: _, body } => {
                let eb: ExprId = *body;
                self.eval_expr(eb, fuel - 1)
            }
            Expr::List(items) => {
                let mut out: Vec<ExprId> = Vec::new();
                let mut i: usize = 0;
                while i < items.len()
                    invariant
                        i <= items.len(),
                        out@ =~= items@.subrange(0, i as int),
                    decreases items.len() - i,
                {
                    out.push(items[i]);
                    i += 1;
                }
                proof {
                    assert(out@ =~= items@);
                }
                Ok(Value::List(out))
            }
            Expr::AttrSet(entries) => {
                let out = entries.duplicate();
                Ok(Value::AttrSet(out))
            }
            Expr::NixPath(name) => {
                let ghost namev = name@;
                let mut i: usize = 0;
                proof {
                    assert(sl0.skip(0) =~= sl0);
                }
                loop
                    invariant
                        self.wf(),
                        self.astv() == a,
                        self.slv() == sl0,
                        self.thv() == th0,
                        i <= self.search_list.len(),
                        a.exprs[e as int] == ExprV::NixPath(namev),
                        a.spans[e as int] == sp,
                        fuel > 0,
                        (e as int) < a.exprs.len(),
                        name@ == namev,
                        search_lookup(sl0, namev) == search_lookup(sl0.skip(i as int), namev),
                    decreases self.search_list.len() - i,
                {
                    if i >= self.search_list.len() {
                        proof {
                            assert(sl0.skip(i as int).len() == 0);
                        }
                        return Err(Error::SearchPathResolution { span: sp, name: name.clone() });
                    }
                    proof {
                        assert(sl0.skip(i as int)[0] == sl0[i as int]);
                    }
                    let hit: bool = str_eq(self.search_list[i].name.as_str(), name.as_str());
                    if hit {
                        let p: String = self.search_list[i].path.clone();
                        return Ok(Value::Path(NixPath::Normal(p)));
                    }
                    proof {
                        assert(sl0.skip(i as int).skip(1) =~= sl0.skip(i + 1));
                    }
                    i += 1;
                }
            }
            Expr::Neg { operand } => {
                let eo: ExprId = *operand;
                let r1 = self.eval_expr(eo, fuel - 1);
                match r1 {
                    Ok(Value::Int(v)) => {
                        let out: i64 = (0 as i64).wrapping_sub(v);
                        proof {
                            assert(out as int == wrap_to_i64(-(v as int)));
                        }
                        Ok(Value::Int(out))
                    }
                    Ok(v) => Err(
                        Error::TypeMismatch { span: sp, expected: Type::Int, found: v.type_() },
                    ),
                    Err(er) => Err(er),
                }
            }
            Expr::Sub { lhs, rhs } => {
                let el: ExprId = *lhs;
                let er_: ExprId = *rhs;
                let r1 = self.eval_expr(el, fuel - 1);
                match r1 {
                    Ok(Value::Int(lv)) => {
                        let r2 = self.eval_expr(er_, fuel - 1);
                        match r2 {
                            Ok(Value::Int(rv)) => {
                                let out: i64 = lv.wrapping_sub(rv);
                                proof {
                                    assert(out as int == wrap_to_i64(lv as int - rv as int));
                                }
                                Ok(Value::Int(out))
                            }
                            Ok(v) => Err(
                                Error::TypeMismatch {
                                    span: sp,
                                    expected: Type::Int,
                                    found: v.type_(),
                                },
                            ),
                            Err(er) => Err(er),
                        }
                    }
                    Ok(v) => Err(
                        Error::TypeMismatch { span: sp, expected: Type::Int, found: v.type_() },
                    ),
                    Err(er) => Err(er),
                }
            }
            Expr::Apply { .. } => Err(Error::Unsupported { span: sp }),
            Expr::Lambda(_) => Err(Error::Unsupported { span: sp }),
        }
    }

    /// The shared body of set indexing with and without a default form.
    fn index_set(
        &mut self,
        e: ExprId,
        sp: Span,
        set: ExprId,
        index: ExprId,
        default: Option<ExprId>,
        fuel: u64,
    ) -> (r: Result<Value, Error>)
        requires
            old(self).wf(),
            (e as int) < old(self).astv().exprs.len(),
            fuel > 0,
            old(self).astv().spans[e as int] == sp,
            match default {
                None => old(self).astv().exprs[e as int] == (ExprV::IndexSet {
                    set: set as int,
                    index: index as int,
                }),
                Some(d) => old(self).astv().exprs[e as int] == (ExprV::OrDefault {
                    set: set as int,
                    index: index as int,
                    default: d as int,
                }),
            },
        ensures
            final(self).wf(),
            final(self).astv() == old(self).astv(),
            final(self).slv() == old(self).slv(),
            ({
                let stepped = eval_spec(
                    old(self).astv(),
                    old(self).slv(),
                    old(self).thv(),
                    e as int,
                    fuel as nat,
                );
                final(self).thv() == stepped.0 && res_view(r) == stepped.1
            }),
            r is Ok ==> valv_wf(res_view(r)->Ok_0, final(self).astv().exprs.len() as int),
        decreases fuel, 0nat,
    {
        let ghost a = self.astv();
        // `expr_wf` of the node gives the children's bounds.
        proof {
            assert(expr_wf_holds_at(a, e as int)) by {
                assert(ast_wf(a));
            }
        }
        let r1 = self.eval_expr(set, fuel - 1);
        let attrs: Attrs = match r1 {
            Ok(Value::AttrSet(attrs)) => attrs,
            Ok(v) => {
                return Err(
                    Error::TypeMismatch { span: sp, expected: Type::AttrSet, found: v.type_() },
                );
            }
            Err(er) => {
                return Err(er);
            }
        };
        let r2 = self.eval_expr(index, fuel - 1);
        let name: String = match r2 {
            Ok(Value::Str(s)) => s,
            Ok(v) => {
                return Err(Error::TypeMismatch { span: sp, expected: Type::Str, found: v.type_() });
            }
            Err(er) => {
                return Err(er);
            }
        };
        match attrs.get(name.as_str()) {
            Some(member) => {
                proof {
                    lemma_attrs_lookup_in_values(attrs@, name@, member as int);
                }
                self.eval_expr(member, fuel - 1)
            }
            None => match default {
                Some(d) => self.eval_expr(d, fuel - 1),
                None => Err(Error::Lookup { span: sp, name }),
            },
        }
    }

    /// Forces the closure of variable `x`; see [`force_spec`].
    ///
    /// Forcing an `Evaluated` cell performs no evaluation at all: the store
    /// is untouched and the stored value is returned as is (memoization).
    pub fn force(&mut self, x: Variable, sp: Span, fuel: u64) -> (r: Result<Value, Error>)
        requires
            old(self).wf(),
            (x.0 as int) < old(self).astv().vars.len(),
        ensures
            final(self).wf(),
            final(self).astv() == old(self).astv(),
            final(self).slv() == old(self).slv(),
            ({
                let stepped = force_spec(
                    old(self).astv(),
                    old(self).slv(),
                    old(self).thv(),
                    x.0 as int,
                    sp,
                    fuel as nat,
                );
                final(self).thv() == stepped.0 && res_view(r) == stepped.1
            }),
            r is Ok ==> valv_wf(res_view(r)->Ok_0, final(self).astv().exprs.len() as int),
        decreases fuel, 0nat,
    {
        let ghost th0 = self.thv();
        let xi: usize = x.idx();
        let state_tag: u8 = match &self.thunks[xi] {
            ThunkState::Unevaluated => 0,
            ThunkState::BeingForced => 1,
            ThunkState::Evaluated(_) => 2,
        };
        if state_tag == 2 {
            let out = match &self.thunks[xi] {
                ThunkState::Evaluated(v) => v.duplicate(),
                _ => {
                    proof {
                        assert(false);
                    }
                    Value::Null
                }
            };
            return Ok(out);
        }
        if state_tag == 1 {
            return Err(Error::InfiniteRecursion { span: sp });
        }
        if fuel == 0 {
            return Err(Error::RecursionLimit { span: sp });
        }
        self.thunks.set(xi, ThunkState::BeingForced);
        proof {
            assert(self.thv() =~= th0.update(xi as int, ThunkV::BeingForced));
        }
        let body: ExprId = self.ast.var_at(x).expr;
        let r1 = self.eval_expr(body, fuel - 1);
        match r1 {
            Ok(v) => {
                let ghost th2 = self.thv();
                let stored = v.duplicate();
                self.thunks.set(xi, ThunkState::Evaluated(stored));
                proof {
                    assert(self.thv() =~= th2.update(xi as int, ThunkV::Evaluated(v@)));
                }
                Ok(v)
            }
            Err(er) => Err(er),
        }
    }
}


// ---------------------------------------------------------------------------
// Forcing laws
// ---------------------------------------------------------------------------


/// Validity of an evaluation state: a well-formed AST, one closure cell
/// per variable slot, and only well-formed stored values.
pub open spec fn state_wf(a: AstV, th: Seq<ThunkV>) -> bool {
    &&& ast_wf(a)
    &&& th.len() == a.vars.len()
    &&& forall|i: int|
        0 <= i < th.len() ==> thunk_wf(#[trigger] th[i], a.exprs.len() as int)
}

/// Evaluation preserves session validity: the closure store keeps one cell
/// per variable slot, every stored value stays well formed, and a returned
/// value is well formed.
pub proof fn lemma_eval_spec_preserves(
    a: AstV,
    sl: Seq<(Seq<char>, Seq<char>)>,
    th: Seq<ThunkV>,
    e: int,
    fuel: nat,
)
    requires
        state_wf(a, th),
        0 <= e < a.exprs.len(),
    ensures
        ({
            let stepped = eval_spec(a, sl, th, e, fuel);
            &&& stepped.0.len() == th.len()
            &&& state_wf(a, stepped.0)
            &&& (stepped.1 is Ok ==> valv_wf(stepped.1->Ok_0, a.exprs.len() as int))
        }),
    decreases fuel, 1nat,
{
    if fuel > 0 {
        let prev: nat = (fuel - 1) as nat;
        match a.exprs[e] {
            ExprV::Variable(x) => {
                assert(expr_wf(a.exprs[e], a.exprs.len() as int, a.vars.len() as int));
                lemma_force_spec_preserves(a, sl, th, x, a.spans[e], fuel);
            }
            ExprV::Assert { assertion, then } => {
                assert(expr_wf(a.exprs[e], a.exprs.len() as int, a.vars.len() as int));
                lemma_eval_spec_preserves(a, sl, th, assertion, prev);
                let th1 = eval_spec(a, sl, th, assertion, prev).0;
                lemma_eval_spec_preserves(a, sl, th1, then, prev);
            }
            ExprV::IfElse { cond, then, els } => {
                assert(expr_wf(a.exprs[e], a.exprs.len() as int, a.vars.len() as int));
                lemma_eval_spec_preserves(a, sl, th, cond, prev);
                let th1 = eval_spec(a, sl, th, cond, prev).0;
                lemma_eval_spec_preserves(a, sl, th1, then, prev);
                lemma_eval_spec_preserves(a, sl, th1, els, prev);
            }
            ExprV::IndexSet { set, index } => {
                assert(expr_wf(a.exprs[e], a.exprs.len() as int, a.vars.len() as int));
                lemma_eval_spec_preserves(a, sl, th, set, prev);
                let th1 = eval_spec(a, sl, th, set, prev).0;
                lemma_eval_spec_preserves(a, sl, th1, index, prev);
                let th2 = eval_spec(a, sl, th1, index, prev).0;
                match eval_spec(a, sl, th, set, prev).1 {
                    Ok(ValV::AttrSet(entries)) => {
                        match eval_spec(a, sl, th1, index, prev).1 {
                            Ok(ValV::Str(name)) => match attrs_lookup(entries, name) {
                                Some(member) => {
                                    lemma_attrs_lookup_in_values(entries, name, member);
                                    lemma_eval_spec_preserves(a, sl, th2, member, prev);
                                }
                                None => {}
                            },
                            _ => {}
                        }
                    }
                    _ => {}
                }
            }
            ExprV::OrDefault { set, index, default } => {
                assert(expr_wf(a.exprs[e], a.exprs.len() as int, a.vars.len() as int));
                lemma_eval_spec_preserves(a, sl, th, set, prev);
                let th1 = eval_spec(a, sl, th, set, prev).0;
                lemma_eval_spec_preserves(a, sl, th1, index, prev);
                let th2 = eval_spec(a, sl, th1, index, prev).0;
                lemma_eval_spec_preserves(a, sl, th2, default, prev);
                match eval_spec(a, sl, th, set, prev).1 {
                    Ok(ValV::AttrSet(entries)) => {
                        match eval_spec(a, sl, th1, index, prev).1 {
                            Ok(ValV::Str(name)) => match attrs_lookup(entries, name) {
                                Some(member) => {
                                    lemma_attrs_lookup_in_values(entries, name, member);
                                    lemma_eval_spec_preserves(a, sl, th2, member, prev);
                                }
                                None => {}
                            },
                            _ => {}
                        }
                    }
                    _ => {}
                }
            }
            ExprV::LetIn { bindings: _, body } => {
                assert(expr_wf(a.exprs[e], a.exprs.len() as int, a.vars.len() as int));
                lemma_eval_spec_preserves(a, sl, th, body, prev);
            }
            ExprV::List(items) => {
                assert(expr_wf(a.exprs[e], a.exprs.len() as int, a.vars.len() as int));
            }
            ExprV::AttrSet(entries) => {
                assert(expr_wf(a.exprs[e], a.exprs.len() as int, a.vars.len() as int));
            }
            ExprV::Value(v) => {
                assert(expr_wf(a.exprs[e], a.exprs.len() as int, a.vars.len() as int));
            }
            ExprV::Neg { operand } => {
                assert(expr_wf(a.exprs[e], a.exprs.len() as int, a.vars.len() as int));
                lemma_eval_spec_preserves(a, sl, th, operand, prev);
            }
            ExprV::Sub { lhs, rhs } => {
                assert(expr_wf(a.exprs[e], a.exprs.len() as int, a.vars.len() as int));
                lemma_eval_spec_preserves(a, sl, th, lhs, prev);
                let th1 = eval_spec(a, sl, th, lhs, prev).0;
                lemma_eval_spec_preserves(a, sl, th1, rhs, prev);
            }
            _ => {}
        }
    }
}

/// Forcing preserves session validity.
pub proof fn lemma_force_spec_preserves(
    a: AstV,
    sl: Seq<(Seq<char>, Seq<char>)>,
    th: Seq<ThunkV>,
    x: int,
    sp: Span,
    fuel: nat,
)
    requires
        state_wf(a, th),
        0 <= x < a.vars.len(),
    ensures
        ({
            let stepped = force_spec(a, sl, th, x, sp, fuel);
            &&& stepped.0.len() == th.len()
            &&& state_wf(a, stepped.0)
            &&& (stepped.1 is Ok ==> valv_wf(stepped.1->Ok_0, a.exprs.len() as int))
        }),
    decreases fuel, 0nat,
{
    match th[x] {
        ThunkV::Unevaluated => {
            if fuel > 0 {
                let th1 = th.update(x, ThunkV::BeingForced);
                assert(state_wf(a, th1)) by {
                    assert(forall|i: int|
                        0 <= i < th1.len() && i != x ==> th1[i] == th[i]);
                }
                lemma_eval_spec_preserves(a, sl, th1, a.vars[x].expr, (fuel - 1) as nat);
                let stepped = eval_spec(a, sl, th1, a.vars[x].expr, (fuel - 1) as nat);
                match stepped.1 {
                    Ok(v) => {
                        let th2 = stepped.0.update(x, ThunkV::Evaluated(v));
                        assert(state_wf(a, th2)) by {
                            assert(forall|i: int|
                                0 <= i < th2.len() && i != x ==> th2[i] == stepped.0[i]);
                        }
                    }
                    Err(_) => {}
                }
            }
        }
        _ => {}
    }
}

/// Memoized forcing: forcing a closure that was forced successfully before
/// performs no evaluation at all — whatever span, fuel, or search list the
/// second demand carries, the store is untouched and the same value comes
/// back.
pub proof fn lemma_force_memoized(
    a: AstV,
    sl: Seq<(Seq<char>, Seq<char>)>,
    sl2: Seq<(Seq<char>, Seq<char>)>,
    th: Seq<ThunkV>,
    x: int,
    sp: Span,
    sp2: Span,
    fuel: nat,
    fuel2: nat,
)
    requires
        state_wf(a, th),
        0 <= x < a.vars.len(),
        force_spec(a, sl, th, x, sp, fuel).1 is Ok,
    ensures
        ({
            let stepped = force_spec(a, sl, th, x, sp, fuel);
            force_spec(a, sl2, stepped.0, x, sp2, fuel2) == (stepped.0, stepped.1)
        }),
{
    let stepped = force_spec(a, sl, th, x, sp, fuel);
    match th[x] {
        ThunkV::Evaluated(v) => {
            assert(stepped.0[x] == ThunkV::Evaluated(v));
        }
        ThunkV::BeingForced => {}
        ThunkV::Unevaluated => {
            let v = stepped.1->Ok_0;
            if fuel > 0 {
                let th1 = th.update(x, ThunkV::BeingForced);
                assert(state_wf(a, th1)) by {
                    assert(forall|i: int|
                        0 <= i < th1.len() && i != x ==> th1[i] == th[i]);
                }
                lemma_eval_spec_preserves(a, sl, th1, a.vars[x].expr, (fuel - 1) as nat);
            }
            assert(stepped.0[x] == ThunkV::Evaluated(v));
        }
    }
}

/// A closure that is already `Evaluated` returns its stored value with the
/// store unchanged, whatever the fuel: no recomputation, no re-validation.
pub proof fn lemma_force_evaluated(
    a: AstV,
    sl: Seq<(Seq<char>, Seq<char>)>,
    th: Seq<ThunkV>,
    x: int,
    v: ValV,
    sp: Span,
    fuel: nat,
)
    requires
        0 <= x < th.len(),
        th[x] == ThunkV::Evaluated(v),
    ensures
        force_spec(a, sl, th, x, sp, fuel) == (th, Ok::<ValV, ErrV>(v)),
{
}

/// Self-reference cycle detection: a closure whose bound expression demands
/// the closure itself is reported as infinite recursion — never silently
/// re-entered.
pub proof fn lemma_self_reference_detected(
    a: AstV,
    sl: Seq<(Seq<char>, Seq<char>)>,
    th: Seq<ThunkV>,
    x: int,
    sp: Span,
    fuel: nat,
)
    requires
        0 <= x < th.len(),
        0 <= x < a.vars.len(),
        0 <= a.vars[x].expr < a.exprs.len(),
        a.exprs[a.vars[x].expr] == ExprV::Variable(x),
        th[x] == ThunkV::Unevaluated,
        fuel >= 2,
    ensures
        force_spec(a, sl, th, x, sp, fuel).1 == Err::<ValV, ErrV>(
            ErrV::InfiniteRecursion { span: a.spans[a.vars[x].expr] },
        ),
{
    let e = a.vars[x].expr;
    let th1 = th.update(x, ThunkV::BeingForced);
    let inner = eval_spec(a, sl, th1, e, (fuel - 1) as nat);
    assert(th1[x] == ThunkV::BeingForced);
    assert(inner == force_spec(a, sl, th1, x, a.spans[e], (fuel - 1) as nat));
}


/// The position of the last path separator, or -1 when there is none.
pub open spec fn last_slash(p: Seq<char>) -> int
    decreases p.len(),
{
    if p.len() == 0 {
        -1
    } else if p.last() == '/' {
        p.len() - 1
    } else {
        last_slash(p.drop_last())
    }
}

/// The directory containing a path: everything before the last separator,
/// or `.` for a bare file name.
pub open spec fn dir_of(p: Seq<char>) -> Seq<char> {
    if last_slash(p) >= 0 {
        p.subrange(0, last_slash(p))
    } else {
        "."@
    }
}

proof fn lemma_last_slash_at(p: Seq<char>, j: int)
    requires
        0 <= j < p.len(),
        p[j] == '/',
        forall|k: int| j < k < p.len() ==> p[k] != '/',
    ensures
        last_slash(p) == j,
    decreases p.len(),
{
    if p.len() > 0 && p.last() != '/' {
        assert(j < p.len() - 1);
        assert(forall|k: int| j < k < p.drop_last().len() ==> p.drop_last()[k] != '/');
        lemma_last_slash_at(p.drop_last(), j);
    }
}

proof fn lemma_last_slash_none(p: Seq<char>)
    requires
        forall|k: int| 0 <= k < p.len() ==> p[k] != '/',
    ensures
        last_slash(p) == -1,
    decreases p.len(),
{
    if p.len() > 0 {
        lemma_last_slash_none(p.drop_last());
    }
}

impl Source {
    /// The name of the source, for diagnostics.
    pub fn name(&self) -> (r: String)
        ensures
            r@ == match self {
                Source::File { path } => path@,
                Source::Other { name, .. } => name@,
            },
    {
        match self {
            Source::File { path } => path.clone(),
            Source::Other { name, .. } => name.clone(),
        }
    }

    /// The search root file references are resolved against: the directory
    /// holding a file source, or the explicit root of any other source.
    pub fn search_root(&self) -> (r: String)
        ensures
            r@ == match self {
                Source::File { path } => dir_of(path@),
                Source::Other { search_path, .. } => search_path@,
            },
    {
        match self {
            Source::Other { search_path, .. } => search_path.clone(),
            Source::File { path } => {
                let p: &str = path.as_str();
                let n: usize = p.unicode_len();
                let mut i: usize = n;
                while i > 0
                    invariant
                        i <= n,
                        n == p@.len(),
                        self matches Source::File { path } && p@ == path@,
                        forall|k: int| i <= k < p@.len() ==> p@[k] != '/',
                    decreases i,
                {
                    let c: char = p.get_char(i - 1);
                    if c == '/' {
                        let prefix: &str = p.substring_char(0, i - 1);
                        let owned: String = prefix.to_owned();
                        proof {
                            lemma_last_slash_at(p@, i - 1);
                            assert(last_slash(p@) == i - 1);
                            assert(prefix@ == p@.subrange(0, i - 1));
                            assert(owned@ == p@.subrange(0, i - 1));
                            assert(dir_of(p@) == p@.subrange(0, i - 1));
                        }
                        return owned;
                    }
                    i -= 1;
                }
                proof {
                    lemma_last_slash_none(p@);
                }
                ".".to_owned()
            }
        }
    }
}

/// Short-circuiting assertions: when the assertion evaluates to `false`,
/// the result is the assertion failure and the `then` expression
/// contributes nothing — it is never evaluated.
pub proof fn lemma_assert_short_circuits(
    a: AstV,
    sl: Seq<(Seq<char>, Seq<char>)>,
    th: Seq<ThunkV>,
    e: int,
    assertion: int,
    then: int,
    fuel: nat,
)
    requires
        fuel > 0,
        a.exprs[e] == (ExprV::Assert { assertion, then }),
        eval_spec(a, sl, th, assertion, (fuel - 1) as nat).1 == Ok::<ValV, ErrV>(
            ValV::Bool(false),
        ),
    ensures
        eval_spec(a, sl, th, e, fuel) == (
            eval_spec(a, sl, th, assertion, (fuel - 1) as nat).0,
            Err::<ValV, ErrV>(ErrV::AssertionFailed { span: a.spans[e] }),
        ),
{
}

/// Every attribute-set value evaluation produces enumerates its keys in
/// sorted order, whatever the declaration order was.
pub proof fn lemma_eval_sets_sorted(
    a: AstV,
    sl: Seq<(Seq<char>, Seq<char>)>,
    th: Seq<ThunkV>,
    e: int,
    fuel: nat,
    entries: Seq<(Seq<char>, int)>,
)
    requires
        state_wf(a, th),
        0 <= e < a.exprs.len(),
        eval_spec(a, sl, th, e, fuel).1 == Ok::<ValV, ErrV>(ValV::AttrSet(entries)),
    ensures
        crate::value::attrs_sorted(entries),
{
    lemma_eval_spec_preserves(a, sl, th, e, fuel);
}

/// Cycle detection is not limited to direct self-reference: two closures
/// that unconditionally demand each other are also reported as infinite
/// recursion rather than re-entered.
pub proof fn lemma_mutual_reference_detected(
    a: AstV,
    sl: Seq<(Seq<char>, Seq<char>)>,
    th: Seq<ThunkV>,
    x: int,
    y: int,
    sp: Span,
    fuel: nat,
)
    requires
        0 <= x < th.len(),
        0 <= y < th.len(),
        x != y,
        0 <= x < a.vars.len(),
        0 <= y < a.vars.len(),
        0 <= a.vars[x].expr < a.exprs.len(),
        0 <= a.vars[y].expr < a.exprs.len(),
        a.exprs[a.vars[x].expr] == ExprV::Variable(y),
        a.exprs[a.vars[y].expr] == ExprV::Variable(x),
        th[x] == ThunkV::Unevaluated,
        th[y] == ThunkV::Unevaluated,
        fuel >= 3,
    ensures
        force_spec(a, sl, th, x, sp, fuel).1 matches Err(e) && e matches
            ErrV::InfiniteRecursion { .. },
{
    let ex = a.vars[x].expr;
    let ey = a.vars[y].expr;
    let th1 = th.update(x, ThunkV::BeingForced);
    assert(th1[y] == ThunkV::Unevaluated);
    let th2 = th1.update(y, ThunkV::BeingForced);
    assert(th2[x] == ThunkV::BeingForced);
    let f1: nat = (fuel - 1) as nat;
    let f2: nat = (fuel - 2) as nat;
    assert(eval_spec(a, sl, th2, ey, f2) == force_spec(a, sl, th2, x, a.spans[ey], f2));
    assert(force_spec(a, sl, th2, x, a.spans[ey], f2).1 == Err::<ValV, ErrV>(
        ErrV::InfiniteRecursion { span: a.spans[ey] },
    ));
    assert(force_spec(a, sl, th1, y, a.spans[ex], f1).1 == Err::<ValV, ErrV>(
        ErrV::InfiniteRecursion { span: a.spans[ey] },
    ));
    assert(eval_spec(a, sl, th1, ex, f1) == force_spec(a, sl, th1, y, a.spans[ex], f1));
}

/// The node at `i` satisfies its well-formedness conditions.
pub open spec fn expr_wf_holds_at(a: AstV, i: int) -> bool {
    crate::ast::expr_wf(a.exprs[i], a.exprs.len() as int, a.vars.len() as int)
}

} // verus!
