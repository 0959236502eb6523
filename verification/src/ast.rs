//! The simplified, arena-owned abstract syntax tree.
//!
//! The builder (see `build`) turns a raw parse tree into this form, resolving
//! every identifier to a statically assigned variable slot.  Nodes live in a
//! session arena and refer to each other by dense indices; metadata (spans,
//! variable information) lives in side tables outside the tree.  The arena is
//! append-only: an index, once handed out, stays valid and its node is never
//! renumbered or replaced.

use vstd::prelude::*;
use crate::Span;
use crate::value::{Attrs, ExprId, ValV, Value, attrs_sorted};

verus! {

/// A resolved local variable: a dense integer identifying one lexical
/// binding.  Ids are unique per evaluation session and monotonically
/// increasing in declaration order; the id itself carries no scope
/// information.
#[derive(Debug, Copy, Clone, PartialEq, Eq)]
pub struct Variable(pub u32);

impl Variable {
    /// The id as a table index.
    pub fn idx(self) -> (i: usize)
        ensures
            i == self.0 as usize,
    {
        self.0 as usize
    }
}

/// Information about one local variable, kept in a side table indexed by the
/// variable id.
#[derive(Debug)]
pub struct VarInfo {
    /// The span of the name at the declaration site.
    pub decl_span: Span,
    /// The variable name (distinct variables may share a name).
    pub name: String,
    /// The expression bound to the variable.
    pub expr: ExprId,
}

/// Mathematical model of a `VarInfo`.
pub struct VarInfoV {
    pub decl_span: Span,
    pub name: Seq<char>,
    pub expr: int,
}

impl View for VarInfo {
    type V = VarInfoV;

    open spec fn view(&self) -> VarInfoV {
        VarInfoV { decl_span: self.decl_span, name: self.name@, expr: self.expr as int }
    }
}

/// The parameter pattern of a lambda.
#[derive(Debug, Copy, Clone)]
pub enum LambdaParameter {
    /// A single named parameter, bound to one variable slot.
    Ident(Variable),
}

/// An instantiable function literal.
#[derive(Debug)]
pub struct Lambda {
    /// Flattened captured variables: the transitive free variables of the
    /// body that are declared outside this lambda.  Flattening means a
    /// closure never reaches through an intermediate closure chain to find a
    /// capture.
    pub captures: Vec<Variable>,
    /// The parameter the lambda expects; `None` for generated "transparent"
    /// lambdas that only defer evaluation.
    pub param: Option<LambdaParameter>,
    /// The expression the lambda evaluates to when called.
    pub body: ExprId,
}

/// An attribute or variable path after resolution: the head segment is the
/// declared variable, the remaining segments are plain attribute names.
///
/// A multi-segment left-hand side is desugared into a single variable bound
/// to nested set literals: `a.b = 0;` becomes `a = { b = 0; };`.
#[derive(Debug)]
pub struct Attr {
    /// Always holds at least one element, and the first is a `Variable`.
    pub parts: Vec<AttrPart>,
}

/// A segment of an attribute path.
#[derive(Debug)]
pub enum AttrPart {
    /// `unquoted_variable` (the declared head of a binding path)
    Variable(Variable),
    /// `"quoted string"` (a following attribute name)
    Str(String),
}

/// A simplified expression node.  Child nodes are arena indices.
#[derive(Debug)]
pub enum Expr {
    /// `<lambda> <argument>`: calls a lambda with an argument.
    Apply { lambda: ExprId, argument: ExprId },
    /// `assert <assertion>; <then>`: `assertion` must be a boolean; when it
    /// is `false`, evaluation aborts and `then` is never evaluated.
    Assert { assertion: ExprId, then: ExprId },
    /// `if <cond> then <then> else <els>`: `cond` must be a boolean; exactly
    /// one branch is evaluated.
    IfElse { cond: ExprId, then: ExprId, els: ExprId },
    /// `<set>.<index>`: `index` evaluates to an attribute name that is looked
    /// up in `set`; a missing key is a lookup error.
    IndexSet { set: ExprId, index: ExprId },
    /// `<set>.<index> or <default>`: like `IndexSet`, but a missing key
    /// evaluates `default` instead of erroring.
    OrDefault { set: ExprId, index: ExprId, default: ExprId },
    /// A function literal.
    Lambda(Lambda),
    /// `let <bindings> in <body>`: the bindings were turned into variable
    /// slots at build time, so evaluating the node evaluates `body`.
    LetIn { bindings: Vec<Variable>, body: ExprId },
    /// `[ <items> ]`: a list literal; elements stay unevaluated.
    List(Vec<ExprId>),
    /// `{ <bindings> }`: a set literal; members stay unevaluated.
    AttrSet(Attrs),
    /// An angle-bracket path, resolved against the search list on demand.
    NixPath(String),
    /// A literal value (always a scalar; lists and sets have their own
    /// node forms).
    Value(Value),
    /// A resolved local variable; evaluation forces its closure.
    Variable(Variable),
    /// `-<operand>`: integer negation with wraparound.
    Neg { operand: ExprId },
    /// `<lhs> - <rhs>`: integer subtraction with wraparound.
    Sub { lhs: ExprId, rhs: ExprId },
}

/// Mathematical model of an `Expr`.
pub enum ExprV {
    Apply { lambda: int, argument: int },
    Assert { assertion: int, then: int },
    IfElse { cond: int, then: int, els: int },
    IndexSet { set: int, index: int },
    OrDefault { set: int, index: int, default: int },
    Lambda { captures: Seq<int>, param: Option<int>, body: int },
    LetIn { bindings: Seq<int>, body: int },
    List(Seq<int>),
    AttrSet(Seq<(Seq<char>, int)>),
    NixPath(Seq<char>),
    Value(ValV),
    Variable(int),
    Neg { operand: int },
    Sub { lhs: int, rhs: int },
}

impl View for Expr {
    type V = ExprV;

    open spec fn view(&self) -> ExprV {
        match self {
            Expr::Apply { lambda, argument } => ExprV::Apply {
                lambda: *lambda as int,
                argument: *argument as int,
            },
            Expr::Assert { assertion, then } => ExprV::Assert {
                assertion: *assertion as int,
                then: *then as int,
            },
            Expr::IfElse { cond, then, els } => ExprV::IfElse {
                cond: *cond as int,
                then: *then as int,
                els: *els as int,
            },
            Expr::IndexSet { set, index } => ExprV::IndexSet {
                set: *set as int,
                index: *index as int,
            },
            Expr::OrDefault { set, index, default } => ExprV::OrDefault {
                set: *set as int,
                index: *index as int,
                default: *default as int,
            },
            Expr::Lambda(l) => ExprV::Lambda {
                captures: l.captures@.map(|_i: int, v: Variable| v.0 as int),
                param: match l.param {
                    Some(LambdaParameter::Ident(v)) => Some(v.0 as int),
                    None => None,
                },
                body: l.body as int,
            },
            Expr::LetIn { bindings, body } => ExprV::LetIn {
                bindings: bindings@.map(|_i: int, v: Variable| v.0 as int),
                body: *body as int,
            },
            Expr::List(items) => ExprV::List(items@.map(|_i: int, e: ExprId| e as int)),
            Expr::AttrSet(a) => ExprV::AttrSet(a@),
            Expr::NixPath(p) => ExprV::NixPath(p@),
            Expr::Value(v) => ExprV::Value(v@),
            Expr::Variable(x) => ExprV::Variable(x.0 as int),
            Expr::Neg { operand } => ExprV::Neg { operand: *operand as int },
            Expr::Sub { lhs, rhs } => ExprV::Sub { lhs: *lhs as int, rhs: *rhs as int },
        }
    }
}

/// A literal value node may only hold a scalar; lists and sets are their own
/// node forms, so that their members stay unevaluated arena references.
pub open spec fn val_scalar(v: ValV) -> bool {
    match v {
        ValV::List(_) => false,
        ValV::AttrSet(_) => false,
        _ => true,
    }
}

/// Every index held by the node is in bounds (expressions below `nexprs`,
/// variables below `nvars`), and literal members are well shaped.
pub open spec fn expr_wf(e: ExprV, nexprs: int, nvars: int) -> bool {
    match e {
        ExprV::Apply { lambda, argument } => 0 <= lambda < nexprs && 0 <= argument < nexprs,
        ExprV::Assert { assertion, then } => 0 <= assertion < nexprs && 0 <= then < nexprs,
        ExprV::IfElse { cond, then, els } => 0 <= cond < nexprs && 0 <= then < nexprs && 0 <= els
            < nexprs,
        ExprV::IndexSet { set, index } => 0 <= set < nexprs && 0 <= index < nexprs,
        ExprV::OrDefault { set, index, default } => 0 <= set < nexprs && 0 <= index < nexprs && 0
            <= default < nexprs,
        ExprV::Lambda { captures, param, body } => 0 <= body < nexprs && (forall|i: int|
            0 <= i < captures.len() ==> 0 <= #[trigger] captures[i] < nvars) && match param {
            Some(p) => 0 <= p < nvars,
            None => true,
        },
        ExprV::LetIn { bindings, body } => 0 <= body < nexprs && (forall|i: int|
            0 <= i < bindings.len() ==> 0 <= #[trigger] bindings[i] < nvars),
        ExprV::List(items) => forall|i: int|
            0 <= i < items.len() ==> 0 <= #[trigger] items[i] < nexprs,
        ExprV::AttrSet(entries) => attrs_sorted(entries) && (forall|i: int|
            0 <= i < entries.len() ==> 0 <= (#[trigger] entries[i]).1 < nexprs),
        ExprV::NixPath(_) => true,
        ExprV::Value(v) => val_scalar(v),
        ExprV::Variable(x) => 0 <= x < nvars,
        ExprV::Neg { operand } => 0 <= operand < nexprs,
        ExprV::Sub { lhs, rhs } => 0 <= lhs < nexprs && 0 <= rhs < nexprs,
    }
}

// ---------------------------------------------------------------------------
// The session arena
// ---------------------------------------------------------------------------

/// The backing store for the AST of one evaluation session.
///
/// Nodes and their spans live in two parallel append-only pools; everything
/// is dropped in bulk with the arena at the end of the session.  There is no
/// compaction and no partial release.
#[derive(Debug)]
pub struct Arenas {
    exprs: Vec<Expr>,
    spans: Vec<Span>,
}

/// Mathematical model of the arena pools.
pub struct ArenasV {
    pub exprs: Seq<ExprV>,
    pub spans: Seq<Span>,
}

impl View for Arenas {
    type V = ArenasV;

    closed spec fn view(&self) -> ArenasV {
        ArenasV { exprs: self.exprs@.map(|_i: int, e: Expr| e@), spans: self.spans@ }
    }
}

impl Arenas {
    /// The two pools stay parallel.
    pub open spec fn wf(&self) -> bool {
        self@.exprs.len() == self@.spans.len()
    }

    pub fn new() -> (r: Arenas)
        ensures
            r@.exprs =~= Seq::<ExprV>::empty(),
            r@.spans =~= Seq::<Span>::empty(),
            r.wf(),
    {
        Arenas { exprs: Vec::new(), spans: Vec::new() }
    }

    pub fn len(&self) -> (n: usize)
        ensures
            n == self@.exprs.len(),
    {
        self.exprs.len()
    }

    /// Places a node in the arena and returns its index.  Existing entries
    /// are never moved or changed.
    pub fn alloc_expr(&mut self, e: Expr, span: Span) -> (id: ExprId)
        requires
            old(self).wf(),
        ensures
            final(self).wf(),
            id as int == old(self)@.exprs.len(),
            final(self)@.exprs =~= old(self)@.exprs.push(e@),
            final(self)@.spans =~= old(self)@.spans.push(span),
    {
        let id: ExprId = self.exprs.len();
        self.exprs.push(e);
        self.spans.push(span);
        id
    }

    /// The node at `id`.
    pub fn expr_at(&self, id: ExprId) -> (e: &Expr)
        requires
            (id as int) < self@.exprs.len(),
        ensures
            e@ == self@.exprs[id as int],
    {
        &self.exprs[id]
    }

    /// The span of the node at `id`.
    pub fn span_at(&self, id: ExprId) -> (s: Span)
        requires
            (id as int) < self@.spans.len(),
        ensures
            s == self@.spans[id as int],
    {
        self.spans[id]
    }
}

// ---------------------------------------------------------------------------
// The built AST
// ---------------------------------------------------------------------------

/// A fully built AST: the arena, the variable side table, and the root.
#[derive(Debug)]
pub struct Ast {
    pub(crate) arena: Arenas,
    pub(crate) vars: Vec<VarInfo>,
    pub(crate) root: ExprId,
}

/// Mathematical model of an `Ast`.
#[verifier::ext_equal]
pub struct AstV {
    pub exprs: Seq<ExprV>,
    pub spans: Seq<Span>,
    pub vars: Seq<VarInfoV>,
    pub root: int,
}

impl View for Ast {
    type V = AstV;

    closed spec fn view(&self) -> AstV {
        AstV {
            exprs: self.arena@.exprs,
            spans: self.arena@.spans,
            vars: self.vars@.map(|_i: int, v: VarInfo| v@),
            root: self.root as int,
        }
    }
}

/// A produced value holds only in-bounds member indices, and its attribute
/// entries enumerate in sorted key order.
pub open spec fn valv_wf(v: ValV, nexprs: int) -> bool {
    match v {
        ValV::List(items) => forall|i: int|
            0 <= i < items.len() ==> 0 <= #[trigger] items[i] < nexprs,
        ValV::AttrSet(entries) => attrs_sorted(entries) && (forall|i: int|
            0 <= i < entries.len() ==> 0 <= (#[trigger] entries[i]).1 < nexprs),
        _ => true,
    }
}

/// Every node and every variable-table entry holds only in-bounds indices,
/// the pools are parallel, and the root is in bounds.
pub open spec fn ast_wf(a: AstV) -> bool {
    &&& a.exprs.len() == a.spans.len()
    &&& 0 <= a.root < a.exprs.len()
    &&& forall|i: int|
        0 <= i < a.exprs.len() ==> expr_wf(#[trigger] a.exprs[i], a.exprs.len() as int, a.vars.len() as int)
    &&& forall|i: int| 0 <= i < a.vars.len() ==> 0 <= (#[trigger] a.vars[i]).expr < a.exprs.len()
}

impl Ast {
    /// Assembles an AST from a filled arena, its variable table, and the
    /// root index.
    pub(crate) fn assemble(arena: Arenas, vars: Vec<VarInfo>, root: ExprId) -> (r: Ast)
        ensures
            r@.exprs == arena@.exprs,
            r@.spans == arena@.spans,
            r@.vars =~= vars@.map(|_i: int, v: VarInfo| v@),
            r@.root == root as int,
    {
        Ast { arena, vars, root }
    }

    /// The root expression of this AST.
    pub fn root(&self) -> (r: ExprId)
        ensures
            r as int == self@.root,
    {
        self.root
    }

    /// The number of variable slots the build pass assigned.
    pub fn var_count(&self) -> (n: usize)
        ensures
            n == self@.vars.len(),
    {
        self.vars.len()
    }

    /// The node at `id`, for callers that walk the tree.
    pub fn expr_at(&self, id: ExprId) -> (e: &Expr)
        requires
            (id as int) < self@.exprs.len(),
        ensures
            e@ == self@.exprs[id as int],
    {
        self.arena.expr_at(id)
    }

    /// The span of the node at `id`.
    pub fn span_at(&self, id: ExprId) -> (s: Span)
        requires
            (id as int) < self@.spans.len(),
        ensures
            s == self@.spans[id as int],
    {
        self.arena.span_at(id)
    }

    /// The side-table entry of variable `x`.
    pub fn var_at(&self, x: Variable) -> (v: &VarInfo)
        requires
            (x.0 as int) < self@.vars.len(),
        ensures
            v@ == self@.vars[x.0 as int],
    {
        &self.vars[x.0 as usize]
    }
}

} // verus!
