//! The scope resolver / AST builder.
//!
//! One recursive descent over the raw tree allocates simplified nodes into
//! the arena, resolves every identifier against the scope stack, converts
//! literals eagerly where legal, desugars attribute-path bindings, and
//! computes the flattened capture set of every lambda.
//!
//! The whole pass is specified by [`build_spec`] and its helpers; the
//! executable builder is proved to produce exactly the state they describe.

use vstd::prelude::*;
use crate::Span;
use crate::ast::{
    Arenas, Ast, AstV, Expr, ExprV, Lambda, LambdaParameter, VarInfo, VarInfoV, Variable, ast_wf,
    expr_wf,
};
use crate::error::{Error, ErrV};
use crate::raw::{RawAnchor, RawAttrPart, RawBinding, RawExpr, RawLiteral};
use crate::scope::{Scope, cache_step, chain_lookup, lemma_chain_lookup_found};
use crate::literal::{digits_val, is_digits, parse_int_token, IntTokenError};
use crate::value::{Attrs, ExprId, NixPath, PathV, ValV, Value, attrs_insert, attrs_lookup};
use vstd::string::StringExecFns;

verus! {

broadcast use vstd::std_specs::vec::axiom_vec_index_decreases, vstd::std_specs::vec::axiom_vec_decreases_to_view, vstd::seq::axiom_seq_index_decreases;

/// One lambda currently being built: every variable resolved while the
/// frame is active whose id is below `start` (declared outside the lambda)
/// is one of its captures.
#[derive(Debug)]
pub struct Frame {
    /// The first variable id belonging to the lambda's own scope.
    pub start: u32,
    /// The captures recorded so far, each exactly once.
    pub captures: Vec<Variable>,
}

/// Mathematical model of a `Frame`.
pub struct FrameV {
    pub start: int,
    pub captures: Seq<int>,
}

impl View for Frame {
    type V = FrameV;

    open spec fn view(&self) -> FrameV {
        FrameV {
            start: self.start as int,
            captures: self.captures@.map(|_i: int, v: Variable| v.0 as int),
        }
    }
}

/// Mathematical model of the whole builder state.
#[verifier::ext_equal]
pub struct BuildSt {
    pub exprs: Seq<ExprV>,
    pub spans: Seq<Span>,
    pub vars: Seq<VarInfoV>,
    pub scopes: Seq<Map<Seq<char>, int>>,
    pub frames: Seq<FrameV>,
    pub search_path: Seq<char>,
    pub home: Option<Seq<char>>,
}

/// Ids stored in a scope refer to declared variables.
pub open spec fn scope_ids_ok(m: Map<Seq<char>, int>, nvars: int) -> bool {
    forall|k: Seq<char>| #[trigger] m.contains_key(k) ==> 0 <= m[k] < nvars
}

/// Builder-state validity: parallel pools, the placeholder node present, at
/// least the root scope open, every stored index in bounds, and every
/// capture below its frame's start.
pub open spec fn builder_wf(st: BuildSt) -> bool {
    &&& st.exprs.len() == st.spans.len()
    &&& st.exprs.len() >= 1
    &&& st.scopes.len() >= 1
    &&& st.vars.len() <= u32::MAX
    &&& forall|i: int|
        0 <= i < st.exprs.len() ==> expr_wf(
            #[trigger] st.exprs[i],
            st.exprs.len() as int,
            st.vars.len() as int,
        )
    &&& forall|i: int| 0 <= i < st.vars.len() ==> 0 <= (#[trigger] st.vars[i]).expr < st.exprs.len()
    &&& forall|i: int|
        0 <= i < st.scopes.len() ==> scope_ids_ok(#[trigger] st.scopes[i], st.vars.len() as int)
    &&& forall|i: int|
        0 <= i < st.frames.len() ==> frame_ok(#[trigger] st.frames[i], st.vars.len() as int)
}

/// A frame's start and captures refer to declared variables, and captures
/// lie below the start.
pub open spec fn frame_ok(f: FrameV, nvars: int) -> bool {
    0 <= f.start <= nvars && forall|j: int|
        0 <= j < f.captures.len() ==> 0 <= #[trigger] f.captures[j] < f.start
}

/// The frames after resolving variable `id`: every frame whose own scope
/// started after `id` was declared captures it (once).
pub open spec fn record_captures(frames: Seq<FrameV>, id: int) -> Seq<FrameV> {
    frames.map(
        |_i: int, f: FrameV|
            if id < f.start && !f.captures.contains(id) {
                FrameV { start: f.start, captures: f.captures.push(id) }
            } else {
                f
            },
    )
}

/// What resolving `name` returns and does to the builder state: the
/// innermost-first chain lookup decides the slot; on success the result is
/// cached in the innermost scope and recorded as a capture of every
/// enclosing lambda declared after the slot.
pub open spec fn resolve_spec(st: BuildSt, name: Seq<char>, sp: Span) -> (BuildSt, Result<
    int,
    ErrV,
>) {
    match chain_lookup(st.scopes, name) {
        None => (st, Err(ErrV::UnresolvedVariable { span: sp, name })),
        Some(id) => (
            BuildSt {
                scopes: cache_step(st.scopes, name),
                frames: record_captures(st.frames, id),
                ..st
            },
            Ok(id),
        ),
    }
}

/// What declaring `name` returns and does to the builder state: an entry
/// already in the innermost scope — declared there or cached there — fails;
/// otherwise the next sequential id is assigned, entered into the innermost
/// scope only, and described in the variable side table.
pub open spec fn declare_spec(st: BuildSt, name: Seq<char>, sp: Span, expr: int) -> (
    BuildSt,
    Result<int, ErrV>,
) {
    if st.scopes.last().contains_key(name) {
        (st, Err(ErrV::Redeclaration { span: sp, name }))
    } else if st.vars.len() >= u32::MAX {
        (st, Err(ErrV::LiteralConversion { span: sp, cause: "too many variables"@ }))
    } else {
        let id = st.vars.len() as int;
        (
            BuildSt {
                scopes: st.scopes.update(
                    st.scopes.len() - 1,
                    st.scopes.last().insert(name, id),
                ),
                vars: st.vars.push(VarInfoV { decl_span: sp, name, expr }),
                ..st
            },
            Ok(id),
        )
    }
}

/// The model of a resolution result.
pub open spec fn var_res_view(r: Result<Variable, Error>) -> Result<int, ErrV> {
    match r {
        Ok(v) => Ok(v.0 as int),
        Err(e) => Err(e@),
    }
}

/// The AST builder: the arena being filled, the variable side table, the
/// scope stack of the build pass, the lambda frames, and the path context
/// for anchoring path literals.
#[derive(Debug)]
pub struct Builder {
    arena: Arenas,
    vars: Vec<VarInfo>,
    scopes: Vec<Scope>,
    frames: Vec<Frame>,
    search_path: String,
    home: Option<String>,
}

impl Builder {
    /// The model of the builder state.
    pub closed spec fn stv(&self) -> BuildSt {
        BuildSt {
            exprs: self.arena@.exprs,
            spans: self.arena@.spans,
            vars: self.vars@.map(|_i: int, v: VarInfo| v@),
            scopes: self.scopes@.map(|_i: int, s: Scope| s@),
            frames: self.frames@.map(|_i: int, f: Frame| f@),
            search_path: self.search_path@,
            home: match &self.home {
                Some(h) => Some(h@),
                None => None,
            },
        }
    }

    /// Scope entry lists hold each name once.
    pub closed spec fn scopes_unique(&self) -> bool {
        forall|i: int| 0 <= i < self.scopes@.len() ==> (#[trigger] self.scopes@[i]).wf()
    }

    pub open spec fn wf(&self) -> bool {
        builder_wf(self.stv()) && self.scopes_unique()
    }

    /// Places a node in the arena.
    fn alloc_node(&mut self, e: Expr, span: Span) -> (id: ExprId)
        requires
            old(self).wf(),
            expr_wf(e@, old(self).stv().exprs.len() as int, old(self).stv().vars.len() as int),
        ensures
            final(self).wf(),
            id as int == old(self).stv().exprs.len(),
            final(self).stv() =~= (BuildSt {
                exprs: old(self).stv().exprs.push(e@),
                spans: old(self).stv().spans.push(span),
                ..old(self).stv()
            }),
    {
        let ghost st0 = self.stv();
        let id: ExprId = self.arena.alloc_expr(e, span);
        proof {
            let st1 = self.stv();
            assert(st1.exprs =~= st0.exprs.push(e@));
            assert(st1.spans =~= st0.spans.push(span));
            assert forall|i: int| 0 <= i < st1.exprs.len() implies expr_wf(
                #[trigger] st1.exprs[i],
                st1.exprs.len() as int,
                st1.vars.len() as int,
            ) by {
                if i < st0.exprs.len() {
                    assert(expr_wf(st0.exprs[i], st0.exprs.len() as int, st0.vars.len() as int));
                    lemma_expr_wf_mono(
                        st0.exprs[i],
                        st0.exprs.len() as int,
                        st0.vars.len() as int,
                        st1.exprs.len() as int,
                        st1.vars.len() as int,
                    );
                } else {
                    lemma_expr_wf_mono(
                        e@,
                        st0.exprs.len() as int,
                        st0.vars.len() as int,
                        st1.exprs.len() as int,
                        st1.vars.len() as int,
                    );
                }
            }
        }
        id
    }

    /// Records variable `id` as a capture of every active lambda frame whose
    /// own scope began after `id` was declared.
    fn note_use(&mut self, id: Variable)
        requires
            old(self).wf(),
            (id.0 as int) < old(self).stv().vars.len(),
        ensures
            final(self).wf(),
            final(self).stv() =~= (BuildSt {
                frames: record_captures(old(self).stv().frames, id.0 as int),
                ..old(self).stv()
            }),
    {
        let ghost st0 = self.stv();
        let ghost rf = record_captures(st0.frames, id.0 as int);
        let mut fi: usize = 0;
        while fi < self.frames.len()
            invariant
                old(self).wf(),
                fi <= self.frames@.len(),
                self.frames@.len() == st0.frames.len(),
                st0 == old(self).stv(),
                rf == record_captures(st0.frames, id.0 as int),
                (id.0 as int) < st0.vars.len(),
                self.arena == old(self).arena,
                self.vars == old(self).vars,
                self.scopes == old(self).scopes,
                self.search_path == old(self).search_path,
                self.home == old(self).home,
                forall|j: int| 0 <= j < fi ==> (#[trigger] self.frames@[j])@ == rf[j],
                forall|j: int|
                    fi <= j < self.frames@.len() ==> (#[trigger] self.frames@[j])@ == st0.frames[j],
            decreases self.frames@.len() - fi,
        {
            let start: u32 = self.frames[fi].start;
            if id.0 < start {
                let mut present: bool = false;
                let mut ci: usize = 0;
                let ghost caps = self.frames@[fi as int]@.captures;
                while ci < self.frames[fi].captures.len()
                    invariant
                        fi < self.frames@.len(),
                        ci <= self.frames@[fi as int].captures@.len(),
                        caps == self.frames@[fi as int]@.captures,
                        present == exists|j: int|
                            0 <= j < ci && #[trigger] caps[j] == id.0 as int,
                    decreases self.frames@[fi as int].captures@.len() - ci,
                {
                    let cv: Variable = self.frames[fi].captures[ci];
                    proof {
                        assert(caps[ci as int] == cv.0 as int);
                    }
                    if cv.0 == id.0 {
                        present = true;
                    }
                    ci += 1;
                }
                if !present {
                    let mut caps2: Vec<Variable> = Vec::new();
                    let mut k: usize = 0;
                    while k < self.frames[fi].captures.len()
                        invariant
                            fi < self.frames@.len(),
                            k <= self.frames@[fi as int].captures@.len(),
                            caps2@.len() == k,
                            forall|j: int|
                                0 <= j < k ==> #[trigger] caps2@[j]
                                    == self.frames@[fi as int].captures@[j],
                        decreases self.frames@[fi as int].captures@.len() - k,
                    {
                        let v: Variable = self.frames[fi].captures[k];
                        caps2.push(v);
                        k += 1;
                    }
                    caps2.push(id);
                    let nf = Frame { start, captures: caps2 };
                    proof {
                        assert(nf@.captures =~= caps.push(id.0 as int));
                        assert(!caps.contains(id.0 as int));
                        assert(nf@ == rf[fi as int]);
                    }
                    self.frames.set(fi, nf);
                } else {
                    proof {
                        assert(caps.contains(id.0 as int));
                        assert(self.frames@[fi as int]@ == rf[fi as int]);
                    }
                }
            } else {
                proof {
                    assert(self.frames@[fi as int]@ == rf[fi as int]);
                }
            }
            fi += 1;
        }
        proof {
            let st1 = self.stv();
            assert(st1.frames =~= rf);
            assert(st1 =~= (BuildSt { frames: rf, ..st0 }));
            assert forall|i: int| 0 <= i < st1.frames.len() implies frame_ok(
                #[trigger] st1.frames[i],
                st1.vars.len() as int,
            ) by {
                assert(frame_ok(st0.frames[i], st0.vars.len() as int));
            }
        }
    }

    /// Resolves a named variable: looks it up in the innermost scope, then
    /// walks the outer scopes; a hit from an outer scope is cached in the
    /// innermost one.  See [`resolve_spec`].
    fn resolve(&mut self, name: &str, sp: Span) -> (r: Result<Variable, Error>)
        requires
            old(self).wf(),
        ensures
            final(self).wf(),
            ({
                let stepped = resolve_spec(old(self).stv(), name@, sp);
                final(self).stv() =~= stepped.0 && var_res_view(r) == stepped.1
            }),
    {
        let ghost st0 = self.stv();
        let ghost sv = st0.scopes;
        let top: usize = self.scopes.len() - 1;
        // Fast path: the innermost scope already has an entry (declared
        // there, or cached there by an earlier lookup).
        let in_top: Option<u32> = self.scopes[top].get(name);
        if let Some(id) = in_top {
            proof {
                assert(sv.last() == sv[top as int]);
                assert(chain_lookup(sv, name@) == Some(id as int));
                assert(cache_step(sv, name@) == sv);
            }
            let v = Variable(id);
            self.note_use(v);
            proof {
                assert(self.stv() =~= (BuildSt {
                    frames: record_captures(st0.frames, id as int),
                    ..st0
                }));
            }
            return Ok(v);
        }
        // Slow path: walk the outer scopes from innermost to outermost.
        let mut j: usize = top;
        let mut found: Option<u32> = None;
        while j > 0 && found.is_none()
            invariant
                old(self).wf(),
                self == old(self),
                j <= top,
                top as int == sv.len() - 1,
                sv == old(self).stv().scopes,
                st0 == old(self).stv(),
                match found {
                    Some(id) => chain_lookup(sv, name@) == Some(id as int),
                    None => chain_lookup(sv, name@) == chain_lookup(
                        sv.subrange(0, j as int),
                        name@,
                    ),
                },
            decreases j,
        {
            j -= 1;
            let here: Option<u32> = self.scopes[j].get(name);
            proof {
                assert(sv.subrange(0, j + 1).last() == sv[j as int]);
                assert(sv.subrange(0, j + 1).drop_last() =~= sv.subrange(0, j as int));
            }
            found = here;
        }
        match found {
            None => {
                proof {
                    assert(sv.subrange(0, 0).len() == 0);
                    assert(chain_lookup(sv, name@) is None);
                    assert(cache_step(sv, name@) == sv);
                }
                Err(Error::UnresolvedVariable { span: sp, name: name.to_owned() })
            }
            Some(id) => {
                // Cache the outer hit in the innermost scope.
                let v = Variable(id);
                proof {
                    assert(chain_lookup(sv, name@) == Some(id as int));
                    lemma_chain_lookup_found(sv, name@, id as int);
                    assert((id as int) < st0.vars.len());
                }
                let mut top_scope: Scope = match self.scopes.pop() {
                    Some(s) => s,
                    None => {
                        proof {
                            assert(false);
                        }
                        Scope::new()
                    }
                };
                top_scope.put(name.to_owned(), id);
                self.scopes.push(top_scope);
                proof {
                    let sv1 = self.stv().scopes;
                    assert(sv1 =~= sv.update(
                        sv.len() - 1,
                        sv.last().insert(name@, id as int),
                    ));
                    assert(sv1 =~= cache_step(sv, name@));
                }
                self.note_use(v);
                proof {
                    assert(self.stv() =~= (BuildSt {
                        scopes: cache_step(st0.scopes, name@),
                        frames: record_captures(st0.frames, id as int),
                        ..st0
                    }));
                }
                Ok(v)
            }
        }
    }

    /// Declares a new variable in the innermost scope, bound to `expr`.
    /// See [`declare_spec`].
    fn declare(&mut self, name: String, decl_span: Span, expr: ExprId) -> (r: Result<
        Variable,
        Error,
    >)
        requires
            old(self).wf(),
            (expr as int) < old(self).stv().exprs.len(),
        ensures
            final(self).wf(),
            ({
                let stepped = declare_spec(old(self).stv(), name@, decl_span, expr as int);
                final(self).stv() =~= stepped.0 && var_res_view(r) == stepped.1
            }),
    {
        let ghost st0 = self.stv();
        let top: usize = self.scopes.len() - 1;
        proof {
            assert(st0.scopes.last() == st0.scopes[top as int]);
        }
        let present: Option<u32> = self.scopes[top].get(name.as_str());
        if present.is_some() {
            return Err(Error::Redeclaration { span: decl_span, name });
        }
        if self.vars.len() >= (u32::MAX as usize) {
            return Err(
                Error::LiteralConversion { span: decl_span, cause: "too many variables".to_owned() },
            );
        }
        let id: u32 = self.vars.len() as u32;
        let mut top_scope: Scope = match self.scopes.pop() {
            Some(s) => s,
            None => {
                proof {
                    assert(false);
                }
                Scope::new()
            }
        };
        top_scope.put(name.clone(), id);
        self.scopes.push(top_scope);
        self.vars.push(VarInfo { decl_span, name, expr });
        proof {
            let st1 = self.stv();
            assert(st1.scopes =~= st0.scopes.update(
                st0.scopes.len() - 1,
                st0.scopes.last().insert(name@, id as int),
            ));
            assert(st1.vars =~= st0.vars.push(
                VarInfoV { decl_span, name: name@, expr: expr as int },
            ));
            assert(st1 =~= declare_spec(st0, name@, decl_span, expr as int).0);
            lemma_builder_wf_grow(st0, st1);
        }
        Ok(Variable(id))
    }

    /// Redirects variable `x` to `expr` — used to patch a binding declared
    /// ahead of its right-hand side.
    fn set_var_expr(&mut self, x: Variable, expr: ExprId)
        requires
            old(self).wf(),
            (x.0 as int) < old(self).stv().vars.len(),
            (expr as int) < old(self).stv().exprs.len(),
        ensures
            final(self).wf(),
            final(self).stv() =~= (BuildSt {
                vars: old(self).stv().vars.update(
                    x.0 as int,
                    VarInfoV {
                        decl_span: old(self).stv().vars[x.0 as int].decl_span,
                        name: old(self).stv().vars[x.0 as int].name,
                        expr: expr as int,
                    },
                ),
                ..old(self).stv()
            }),
    {
        let ghost st0 = self.stv();
        let xi: usize = x.idx();
        let decl_span: Span = self.vars[xi].decl_span;
        let name: String = self.vars[xi].name.clone();
        self.vars.set(xi, VarInfo { decl_span, name, expr });
        proof {
            let st1 = self.stv();
            assert(st1.vars =~= st0.vars.update(
                x.0 as int,
                VarInfoV {
                    decl_span: st0.vars[x.0 as int].decl_span,
                    name: st0.vars[x.0 as int].name,
                    expr: expr as int,
                },
            ));
        }
    }

    /// Opens a new scope.
    fn push_scope(&mut self)
        requires
            old(self).wf(),
        ensures
            final(self).wf(),
            final(self).stv() =~= (BuildSt {
                scopes: old(self).stv().scopes.push(Map::empty()),
                ..old(self).stv()
            }),
    {
        let s = Scope::new();
        self.scopes.push(s);
        proof {
            assert(self.stv().scopes =~= old(self).stv().scopes.push(Map::empty()));
        }
    }

    /// Closes the innermost scope.
    fn pop_scope(&mut self)
        requires
            old(self).wf(),
            old(self).stv().scopes.len() >= 2,
        ensures
            final(self).wf(),
            final(self).stv() =~= (BuildSt {
                scopes: old(self).stv().scopes.drop_last(),
                ..old(self).stv()
            }),
    {
        let _ = self.scopes.pop();
        proof {
            assert(self.stv().scopes =~= old(self).stv().scopes.drop_last());
        }
    }
}

/// Node well-formedness only constrains indices from above, so it survives
/// growth of either pool.
proof fn lemma_expr_wf_mono(e: ExprV, ne0: int, nv0: int, ne1: int, nv1: int)
    requires
        expr_wf(e, ne0, nv0),
        ne0 <= ne1,
        nv0 <= nv1,
    ensures
        expr_wf(e, ne1, nv1),
{
}

/// Builder validity survives appending a variable whose expression is in
/// bounds, with the innermost scope extended to it.
proof fn lemma_builder_wf_grow(st0: BuildSt, st1: BuildSt)
    requires
        builder_wf(st0),
        st1.exprs == st0.exprs,
        st1.spans == st0.spans,
        st1.frames == st0.frames,
        st1.vars.len() == st0.vars.len() + 1,
        st1.vars.len() <= u32::MAX,
        forall|i: int| 0 <= i < st0.vars.len() ==> st1.vars[i] == st0.vars[i],
        0 <= st1.vars.last().expr < st1.exprs.len(),
        st1.scopes.len() == st0.scopes.len(),
        forall|i: int| 0 <= i < st0.scopes.len() - 1 ==> st1.scopes[i] == st0.scopes[i],
        st1.scopes.last() =~= st0.scopes.last().insert(
            st1.vars[st0.vars.len() as int].name,
            st0.vars.len() as int,
        ),
    ensures
        builder_wf(st1),
{
    assert forall|i: int| 0 <= i < st1.exprs.len() implies expr_wf(
        #[trigger] st1.exprs[i],
        st1.exprs.len() as int,
        st1.vars.len() as int,
    ) by {
        assert(expr_wf(st0.exprs[i], st0.exprs.len() as int, st0.vars.len() as int));
        lemma_expr_wf_mono(
            st0.exprs[i],
            st0.exprs.len() as int,
            st0.vars.len() as int,
            st1.exprs.len() as int,
            st1.vars.len() as int,
        );
    }
    assert forall|i: int| 0 <= i < st1.scopes.len() implies scope_ids_ok(
        #[trigger] st1.scopes[i],
        st1.vars.len() as int,
    ) by {
        assert(scope_ids_ok(st0.scopes[i], st0.vars.len() as int));
        if i == st1.scopes.len() - 1 {
            assert(st1.scopes[i] == st1.scopes.last());
        }
    }
    assert forall|i: int| 0 <= i < st1.frames.len() implies frame_ok(
        #[trigger] st1.frames[i],
        st1.vars.len() as int,
    ) by {
        assert(frame_ok(st0.frames[i], st0.vars.len() as int));
    }
}


// ---------------------------------------------------------------------------
// The build-pass specification
// ---------------------------------------------------------------------------

/// The state after placing one node.
pub open spec fn st_push(st: BuildSt, e: ExprV, span: Span) -> BuildSt {
    BuildSt { exprs: st.exprs.push(e), spans: st.spans.push(span), ..st }
}

/// The name a path segment denotes.
pub open spec fn part_name(p: RawAttrPart) -> Seq<char> {
    match p {
        RawAttrPart::Ident(s) => s@,
        RawAttrPart::Quoted(s) => s@,
    }
}

/// The head name of a binding's left-hand side, if the path is non-empty.
pub open spec fn binding_head_name(b: RawBinding) -> Option<Seq<char>> {
    if b.attr_path@.len() == 0 {
        None
    } else {
        Some(part_name(b.attr_path@[0]))
    }
}

/// What converting one literal token returns and does to the state; see the
/// module `literal` for the integer token rules.  Path literals are
/// anchored here: an absolute path stands as is, a relative one is prefixed
/// with the search root, a home-relative one with the resolved home
/// directory, a URI becomes a plain string, and an angle-bracket path
/// becomes a deferred node resolved only at evaluation time.
pub open spec fn build_literal_spec(st: BuildSt, lit: RawLiteral, span: Span) -> (
    BuildSt,
    Result<int, ErrV>,
) {
    match lit {
        RawLiteral::Int(tok) => if !is_digits(tok@) {
            (st, Err(ErrV::LiteralConversion { span, cause: "invalid integer"@ }))
        } else if digits_val(tok@) > i64::MAX {
            (st, Err(ErrV::LiteralConversion { span, cause: "integer out of range"@ }))
        } else {
            (
                st_push(st, ExprV::Value(ValV::Int(digits_val(tok@))), span),
                Ok(st.exprs.len() as int),
            )
        },
        RawLiteral::Float(_) => (
            st,
            Err(ErrV::LiteralConversion { span, cause: "unsupported float literal"@ }),
        ),
        RawLiteral::Str(s) => (
            st_push(st, ExprV::Value(ValV::Str(s@)), span),
            Ok(st.exprs.len() as int),
        ),
        RawLiteral::Path { anchor, path } => match anchor {
            RawAnchor::Absolute => (
                st_push(st, ExprV::Value(ValV::Path(PathV::Normal(path@))), span),
                Ok(st.exprs.len() as int),
            ),
            RawAnchor::Relative => (
                st_push(
                    st,
                    ExprV::Value(ValV::Path(PathV::Normal(st.search_path + "/"@ + path@))),
                    span,
                ),
                Ok(st.exprs.len() as int),
            ),
            RawAnchor::Home => match st.home {
                Some(h) => (
                    st_push(st, ExprV::Value(ValV::Path(PathV::Normal(h + "/"@ + path@))), span),
                    Ok(st.exprs.len() as int),
                ),
                None => (
                    st,
                    Err(
                        ErrV::LiteralConversion {
                            span,
                            cause: "cannot resolve home directory"@,
                        },
                    ),
                ),
            },
            RawAnchor::Uri => (
                st_push(st, ExprV::Value(ValV::Str(path@)), span),
                Ok(st.exprs.len() as int),
            ),
            RawAnchor::Store => (
                st_push(st, ExprV::NixPath(path@), span),
                Ok(st.exprs.len() as int),
            ),
        },
    }
}

/// Wraps a built right-hand side into nested one-entry set literals, one per
/// trailing path segment, innermost first: `a.b.c = v;` builds
/// `{ c = v; }`, then `{ b = { c = v; }; }`.
pub open spec fn wrap_segments_spec(
    st: BuildSt,
    parts: Vec<RawAttrPart>,
    seg: int,
    built: int,
    span: Span,
) -> (BuildSt, int)
    decreases seg,
{
    if seg < 1 {
        (st, built)
    } else {
        let node = ExprV::AttrSet(seq![(part_name(parts@[seg]), built)]);
        wrap_segments_spec(st_push(st, node, span), parts, seg - 1, st.exprs.len() as int, span)
    }
}

/// Declares the head of every binding of a `let`, in order, each bound to
/// the placeholder node until its right-hand side is built.
pub open spec fn let_decl_spec(st: BuildSt, bindings: Vec<RawBinding>, k: int) -> (
    BuildSt,
    Result<Seq<int>, ErrV>,
)
    decreases bindings@.len() - k,
{
    if k < 0 || k >= bindings@.len() {
        (st, Ok(Seq::empty()))
    } else {
        let b = bindings@[k];
        match binding_head_name(b) {
            None => (
                st,
                Err(ErrV::LiteralConversion { span: b.span, cause: "empty attribute path"@ }),
            ),
            Some(name) => {
                let stepped = declare_spec(st, name, b.span, 0);
                match stepped.1 {
                    Ok(id) => {
                        let rest = let_decl_spec(stepped.0, bindings, k + 1);
                        match rest.1 {
                            Ok(ids) => (rest.0, Ok(seq![id] + ids)),
                            Err(e) => (rest.0, Err(e)),
                        }
                    }
                    Err(e) => (stepped.0, Err(e)),
                }
            }
        }
    }
}

/// Builds the right-hand side of every binding of a `let`, desugars its
/// attribute path, and redirects the declared variable to the result.
pub open spec fn let_values_spec(
    st: BuildSt,
    bindings: Vec<RawBinding>,
    bvars: Seq<int>,
    k: int,
) -> (BuildSt, Result<(), ErrV>)
    decreases bindings, bindings@.len() - k,
{
    if k < 0 || k >= bindings@.len() {
        (st, Ok(()))
    } else {
        let b = bindings@[k];
        let stepped = build_spec(st, b.value);
        match stepped.1 {
            Ok(vid) => {
                let wrapped = wrap_segments_spec(
                    stepped.0,
                    b.attr_path,
                    b.attr_path@.len() - 1,
                    vid,
                    b.span,
                );
                let x = bvars[k];
                let patched = BuildSt {
                    vars: wrapped.0.vars.update(
                        x,
                        VarInfoV {
                            decl_span: wrapped.0.vars[x].decl_span,
                            name: wrapped.0.vars[x].name,
                            expr: wrapped.1,
                        },
                    ),
                    ..wrapped.0
                };
                let_values_spec(patched, bindings, bvars, k + 1)
            }
            Err(e) => (stepped.0, Err(e)),
        }
    }
}

/// Builds every element of a list literal, in order.
pub open spec fn list_items_spec(st: BuildSt, items: Vec<RawExpr>, k: int) -> (
    BuildSt,
    Result<Seq<int>, ErrV>,
)
    decreases items, items@.len() - k,
{
    if k < 0 || k >= items@.len() {
        (st, Ok(Seq::empty()))
    } else {
        let stepped = build_spec(st, items@[k]);
        match stepped.1 {
            Ok(id) => {
                let rest = list_items_spec(stepped.0, items, k + 1);
                match rest.1 {
                    Ok(ids) => (rest.0, Ok(seq![id] + ids)),
                    Err(e) => (rest.0, Err(e)),
                }
            }
            Err(e) => (stepped.0, Err(e)),
        }
    }
}

/// Builds every member of a set literal: the key comes from the binding's
/// head segment, a key already present fails, and the entries end up in
/// sorted key order whatever the declaration order.
pub open spec fn set_bindings_spec(
    st: BuildSt,
    bindings: Vec<RawBinding>,
    entries: Seq<(Seq<char>, int)>,
    k: int,
) -> (BuildSt, Result<Seq<(Seq<char>, int)>, ErrV>)
    decreases bindings, bindings@.len() - k,
{
    if k < 0 || k >= bindings@.len() {
        (st, Ok(entries))
    } else {
        let b = bindings@[k];
        match binding_head_name(b) {
            None => (
                st,
                Err(ErrV::LiteralConversion { span: b.span, cause: "empty attribute path"@ }),
            ),
            Some(key) => if attrs_lookup(entries, key) is Some {
                (st, Err(ErrV::Redeclaration { span: b.span, name: key }))
            } else {
                let stepped = build_spec(st, b.value);
                match stepped.1 {
                    Ok(vid) => {
                        let wrapped = wrap_segments_spec(
                            stepped.0,
                            b.attr_path,
                            b.attr_path@.len() - 1,
                            vid,
                            b.span,
                        );
                        set_bindings_spec(
                            wrapped.0,
                            bindings,
                            attrs_insert(entries, key, wrapped.1),
                            k + 1,
                        )
                    }
                    Err(e) => (stepped.0, Err(e)),
                }
            },
        }
    }
}

/// What building one raw node returns and does to the builder state: the
/// single source of truth for the whole build pass.  Identifiers resolve
/// through [`resolve_spec`]; binding constructs push a scope, declare their
/// names, build their children and pop the scope; a lambda additionally
/// opens a capture frame whose collected captures become the lambda's
/// flattened capture list.  An error aborts the build of the enclosing
/// expression and propagates.
pub open spec fn build_spec(st: BuildSt, raw: RawExpr) -> (BuildSt, Result<int, ErrV>)
    decreases raw, 0int,
{
    match raw {
        RawExpr::Literal { lit, span } => build_literal_spec(st, lit, span),
        RawExpr::Ident { name, span } => {
            let stepped = resolve_spec(st, name@, span);
            match stepped.1 {
                Ok(id) => (
                    st_push(stepped.0, ExprV::Variable(id), span),
                    Ok(stepped.0.exprs.len() as int),
                ),
                Err(e) => (stepped.0, Err(e)),
            }
        }
        RawExpr::Apply { lambda, argument, span } => {
            let s1 = build_spec(st, *lambda);
            match s1.1 {
                Ok(l) => {
                    let s2 = build_spec(s1.0, *argument);
                    match s2.1 {
                        Ok(a) => (
                            st_push(s2.0, ExprV::Apply { lambda: l, argument: a }, span),
                            Ok(s2.0.exprs.len() as int),
                        ),
                        Err(e) => (s2.0, Err(e)),
                    }
                }
                Err(e) => (s1.0, Err(e)),
            }
        }
        RawExpr::Assert { condition, body, span } => {
            let s1 = build_spec(st, *condition);
            match s1.1 {
                Ok(c) => {
                    let s2 = build_spec(s1.0, *body);
                    match s2.1 {
                        Ok(b) => (
                            st_push(s2.0, ExprV::Assert { assertion: c, then: b }, span),
                            Ok(s2.0.exprs.len() as int),
                        ),
                        Err(e) => (s2.0, Err(e)),
                    }
                }
                Err(e) => (s1.0, Err(e)),
            }
        }
        RawExpr::IfElse { cond, then, els, span } => {
            let s1 = build_spec(st, *cond);
            match s1.1 {
                Ok(c) => {
                    let s2 = build_spec(s1.0, *then);
                    match s2.1 {
                        Ok(t) => {
                            let s3 = build_spec(s2.0, *els);
                            match s3.1 {
                                Ok(e2) => (
                                    st_push(
                                        s3.0,
                                        ExprV::IfElse { cond: c, then: t, els: e2 },
                                        span,
                                    ),
                                    Ok(s3.0.exprs.len() as int),
                                ),
                                Err(e) => (s3.0, Err(e)),
                            }
                        }
                        Err(e) => (s2.0, Err(e)),
                    }
                }
                Err(e) => (s1.0, Err(e)),
            }
        }
        RawExpr::IndexSet { set, index, span } => {
            let s1 = build_spec(st, *set);
            match s1.1 {
                Ok(s) => {
                    let ix = s1.0.exprs.len() as int;
                    let s2 = st_push(s1.0, ExprV::Value(ValV::Str(part_name(index))), span);
                    (
                        st_push(s2, ExprV::IndexSet { set: s, index: ix }, span),
                        Ok(s2.exprs.len() as int),
                    )
                }
                Err(e) => (s1.0, Err(e)),
            }
        }
        RawExpr::OrDefault { set, index, default, span } => {
            let s1 = build_spec(st, *set);
            match s1.1 {
                Ok(s) => {
                    let ix = s1.0.exprs.len() as int;
                    let s2 = st_push(s1.0, ExprV::Value(ValV::Str(part_name(index))), span);
                    let s3 = build_spec(s2, *default);
                    match s3.1 {
                        Ok(d) => (
                            st_push(s3.0, ExprV::OrDefault { set: s, index: ix, default: d }, span),
                            Ok(s3.0.exprs.len() as int),
                        ),
                        Err(e) => (s3.0, Err(e)),
                    }
                }
                Err(e) => (s1.0, Err(e)),
            }
        }
        RawExpr::Lambda { param, param_span, body, span } => {
            let opened = BuildSt {
                scopes: st.scopes.push(Map::empty()),
                frames: st.frames.push(
                    FrameV { start: st.vars.len() as int, captures: Seq::empty() },
                ),
                ..st
            };
            let declared = declare_spec(opened, param@, param_span, 0);
            match declared.1 {
                Ok(pid) => {
                    let s2 = build_spec(declared.0, *body);
                    match s2.1 {
                        Ok(b) => {
                            let caps = s2.0.frames.last().captures;
                            let closed = BuildSt {
                                scopes: s2.0.scopes.drop_last(),
                                frames: s2.0.frames.drop_last(),
                                ..s2.0
                            };
                            (
                                st_push(
                                    closed,
                                    ExprV::Lambda { captures: caps, param: Some(pid), body: b },
                                    span,
                                ),
                                Ok(closed.exprs.len() as int),
                            )
                        }
                        Err(e) => (s2.0, Err(e)),
                    }
                }
                Err(e) => (declared.0, Err(e)),
            }
        }
        RawExpr::LetIn { bindings, body, span } => {
            let opened = BuildSt { scopes: st.scopes.push(Map::empty()), ..st };
            let declared = let_decl_spec(opened, bindings, 0);
            match declared.1 {
                Ok(bvars) => {
                    let filled = let_values_spec(declared.0, bindings, bvars, 0);
                    match filled.1 {
                        Ok(_) => {
                            let s3 = build_spec(filled.0, *body);
                            match s3.1 {
                                Ok(b) => {
                                    let closed = BuildSt {
                                        scopes: s3.0.scopes.drop_last(),
                                        ..s3.0
                                    };
                                    (
                                        st_push(
                                            closed,
                                            ExprV::LetIn { bindings: bvars, body: b },
                                            span,
                                        ),
                                        Ok(closed.exprs.len() as int),
                                    )
                                }
                                Err(e) => (s3.0, Err(e)),
                            }
                        }
                        Err(e) => (filled.0, Err(e)),
                    }
                }
                Err(e) => (declared.0, Err(e)),
            }
        }
        RawExpr::List { items, span } => {
            let s1 = list_items_spec(st, items, 0);
            match s1.1 {
                Ok(ids) => (
                    st_push(s1.0, ExprV::List(ids), span),
                    Ok(s1.0.exprs.len() as int),
                ),
                Err(e) => (s1.0, Err(e)),
            }
        }
        RawExpr::AttrSet { bindings, span } => {
            let s1 = set_bindings_spec(st, bindings, Seq::empty(), 0);
            match s1.1 {
                Ok(entries) => (
                    st_push(s1.0, ExprV::AttrSet(entries), span),
                    Ok(s1.0.exprs.len() as int),
                ),
                Err(e) => (s1.0, Err(e)),
            }
        }
        RawExpr::Neg { operand, span } => {
            let s1 = build_spec(st, *operand);
            match s1.1 {
                Ok(o) => (
                    st_push(s1.0, ExprV::Neg { operand: o }, span),
                    Ok(s1.0.exprs.len() as int),
                ),
                Err(e) => (s1.0, Err(e)),
            }
        }
        RawExpr::Sub { lhs, rhs, span } => {
            let s1 = build_spec(st, *lhs);
            match s1.1 {
                Ok(l) => {
                    let s2 = build_spec(s1.0, *rhs);
                    match s2.1 {
                        Ok(r) => (
                            st_push(s2.0, ExprV::Sub { lhs: l, rhs: r }, span),
                            Ok(s2.0.exprs.len() as int),
                        ),
                        Err(e) => (s2.0, Err(e)),
                    }
                }
                Err(e) => (s1.0, Err(e)),
            }
        }
    }
}


// ---------------------------------------------------------------------------
// The executable builder
// ---------------------------------------------------------------------------

/// The model of an optional home directory.
pub open spec fn home_view(h: Option<String>) -> Option<Seq<char>> {
    match h {
        Some(s) => Some(s@),
        None => None,
    }
}

/// The builder state before the root expression is visited: the placeholder
/// node, the built-in `true` and `false` bindings with synthetic
/// declaration spans, and the pre-seeded outermost scope.
pub open spec fn initial_build_state(search_path: Seq<char>, home: Option<Seq<char>>) -> BuildSt {
    BuildSt {
        exprs: seq![
            ExprV::Value(ValV::Null),
            ExprV::Value(ValV::Bool(true)),
            ExprV::Value(ValV::Bool(false)),
        ],
        spans: seq![
            Span { lo: 0, hi: 0 },
            Span { lo: 0, hi: 0 },
            Span { lo: 0, hi: 0 },
        ],
        vars: seq![
            VarInfoV { decl_span: Span { lo: 0, hi: 0 }, name: "true"@, expr: 1 },
            VarInfoV { decl_span: Span { lo: 0, hi: 0 }, name: "false"@, expr: 2 },
        ],
        scopes: seq![Map::empty().insert("true"@, 0int).insert("false"@, 1int)],
        frames: Seq::empty(),
        search_path: search_path,
        home: home,
    }
}

/// The model of a build result.
pub open spec fn id_res_view(r: Result<ExprId, Error>) -> Result<int, ErrV> {
    match r {
        Ok(id) => Ok(id as int),
        Err(e) => Err(e@),
    }
}

impl Builder {
    /// Creates a builder whose outermost scope holds the built-in bindings.
    ///
    /// `search_path` anchors relative path literals (the directory holding
    /// the source, or the working directory); `home` anchors home-relative
    /// ones, where the caller could resolve it.
    pub fn new(search_path: String, home: Option<String>) -> (r: Builder)
        ensures
            r.wf(),
            r.stv() =~= initial_build_state(search_path@, home_view(home)),
    {
        let mut arena = Arenas::new();
        let _n = arena.alloc_expr(Expr::Value(Value::Null), Span::synthetic());
        let _t = arena.alloc_expr(Expr::Value(Value::Bool(true)), Span::synthetic());
        let _f = arena.alloc_expr(Expr::Value(Value::Bool(false)), Span::synthetic());
        let mut root_scope = Scope::new();
        proof {
            reveal_strlit("true");
            reveal_strlit("false");
            assert("true"@.len() == 4);
            assert("false"@.len() == 5);
            assert("true"@ != "false"@);
        }
        root_scope.put("true".to_owned(), 0);
        root_scope.put("false".to_owned(), 1);
        let mut scopes: Vec<Scope> = Vec::new();
        scopes.push(root_scope);
        let mut vars: Vec<VarInfo> = Vec::new();
        vars.push(VarInfo { decl_span: Span::synthetic(), name: "true".to_owned(), expr: 1 });
        vars.push(VarInfo { decl_span: Span::synthetic(), name: "false".to_owned(), expr: 2 });
        let r = Builder { arena, vars, scopes, frames: Vec::new(), search_path, home };
        proof {
            let st = r.stv();
            let want = initial_build_state(r.search_path@, home_view(r.home));
            assert(st.exprs =~= want.exprs);
            assert(st.spans =~= want.spans);
            assert(st.vars =~= want.vars);
            assert(st.scopes =~= want.scopes);
            assert(st.frames =~= want.frames);
            assert(st =~= want);
            assert(builder_wf(st)) by {
                assert(forall|i: int|
                    0 <= i < st.exprs.len() ==> expr_wf(
                        #[trigger] st.exprs[i],
                        st.exprs.len() as int,
                        st.vars.len() as int,
                    ));
                assert(scope_ids_ok(st.scopes[0], st.vars.len() as int)) by {
                    assert forall|k: Seq<char>| #[trigger]
                        st.scopes[0].contains_key(k) implies 0 <= st.scopes[0][k] < 2 by {
                        assert(k == "true"@ || k == "false"@);
                    }
                }
            }
        }
        r
    }

    /// Opens a capture frame for a lambda about to be built.
    fn push_frame(&mut self)
        requires
            old(self).wf(),
        ensures
            final(self).wf(),
            final(self).stv() =~= (BuildSt {
                frames: old(self).stv().frames.push(
                    FrameV { start: old(self).stv().vars.len() as int, captures: Seq::empty() },
                ),
                ..old(self).stv()
            }),
    {
        let start: u32 = self.vars.len() as u32;
        let caps: Vec<Variable> = Vec::new();
        proof {
            assert(caps@.map(|_i: int, v: Variable| v.0 as int) =~= Seq::<int>::empty());
        }
        self.frames.push(Frame { start, captures: caps });
        proof {
            let st1 = self.stv();
            let st0 = old(self).stv();
            assert(st1.frames =~= st0.frames.push(
                FrameV { start: st0.vars.len() as int, captures: Seq::empty() },
            ));
            assert forall|i: int| 0 <= i < st1.frames.len() implies frame_ok(
                #[trigger] st1.frames[i],
                st1.vars.len() as int,
            ) by {
                if i < st0.frames.len() {
                    assert(frame_ok(st0.frames[i], st0.vars.len() as int));
                }
            }
        }
    }

    /// Closes the innermost capture frame and hands its captures back.
    fn pop_frame(&mut self) -> (f: Frame)
        requires
            old(self).wf(),
            old(self).stv().frames.len() >= 1,
        ensures
            final(self).wf(),
            f@ == old(self).stv().frames.last(),
            final(self).stv() =~= (BuildSt {
                frames: old(self).stv().frames.drop_last(),
                ..old(self).stv()
            }),
    {
        match self.frames.pop() {
            Some(f) => {
                proof {
                    assert(self.stv().frames =~= old(self).stv().frames.drop_last());
                }
                f
            }
            None => {
                proof {
                    assert(false);
                }
                Frame { start: 0, captures: Vec::new() }
            }
        }
    }

    /// Wraps a built right-hand side in one nested single-member set literal
    /// per trailing path segment; see [`wrap_segments_spec`].
    fn wrap_segments(&mut self, parts: &Vec<RawAttrPart>, built: ExprId, span: Span) -> (r: ExprId)
        requires
            old(self).wf(),
            (built as int) < old(self).stv().exprs.len(),
            parts@.len() >= 1,
        ensures
            final(self).wf(),
            ({
                let stepped = wrap_segments_spec(
                    old(self).stv(),
                    *parts,
                    parts@.len() - 1,
                    built as int,
                    span,
                );
                final(self).stv() =~= stepped.0 && r as int == stepped.1
            }),
            (r as int) < final(self).stv().exprs.len(),
            final(self).stv().exprs.len() >= old(self).stv().exprs.len(),
            final(self).stv().vars.len() == old(self).stv().vars.len(),
            final(self).stv().scopes.len() == old(self).stv().scopes.len(),
            final(self).stv().frames.len() == old(self).stv().frames.len(),
    {
        let ghost st0 = self.stv();
        let mut seg: usize = parts.len() - 1;
        let mut cur: ExprId = built;
        while seg >= 1
            invariant
                self.wf(),
                seg < parts@.len(),
                (cur as int) < self.stv().exprs.len(),
                self.stv().exprs.len() >= st0.exprs.len(),
                self.stv().vars.len() == st0.vars.len(),
                self.stv().scopes.len() == st0.scopes.len(),
                self.stv().frames.len() == st0.frames.len(),
                wrap_segments_spec(st0, *parts, parts@.len() - 1, built as int, span)
                    == wrap_segments_spec(self.stv(), *parts, seg as int, cur as int, span),
            decreases seg,
        {
            let name: String = match &parts[seg] {
                RawAttrPart::Ident(s) => s.clone(),
                RawAttrPart::Quoted(s) => s.clone(),
            };
            let mut attrs = Attrs::new();
            let ir = attrs.insert(name, cur);
            match ir {
                Ok(()) => (),
                Err(()) => {
                    proof {
                        assert(false);
                    }
                }
            }
            let e = Expr::AttrSet(attrs);
            proof {
                assert(e@ == ExprV::AttrSet(seq![(part_name(parts@[seg as int]), cur as int)]))
                    by {
                    assert(e->AttrSet_0@ =~= seq![(part_name(parts@[seg as int]), cur as int)]);
                }
            }
            let nid = self.alloc_node(e, span);
            cur = nid;
            seg -= 1;
        }
        cur
    }

    /// Builds one raw node into the arena; see [`build_spec`].
    pub fn build_expr(&mut self, raw: &RawExpr) -> (r: Result<ExprId, Error>)
        requires
            old(self).wf(),
        ensures
            final(self).wf(),
            ({
                let stepped = build_spec(old(self).stv(), *raw);
                final(self).stv() =~= stepped.0 && id_res_view(r) == stepped.1
            }),
            r is Ok ==> (r->Ok_0 as int) < final(self).stv().exprs.len(),
            final(self).stv().exprs.len() >= old(self).stv().exprs.len(),
            final(self).stv().vars.len() >= old(self).stv().vars.len(),
            r is Ok ==> final(self).stv().scopes.len() == old(self).stv().scopes.len(),
            r is Ok ==> final(self).stv().frames.len() == old(self).stv().frames.len(),
        decreases *raw, 1int,
    {
        let ghost st0 = self.stv();
        match raw {
            RawExpr::Literal { lit, span } => self.build_literal(lit, *span),
            RawExpr::Ident { name, span } => {
                let sp: Span = *span;
                let rr = self.resolve(name.as_str(), sp);
                match rr {
                    Ok(v) => {
                        proof {
                            lemma_chain_lookup_found(st0.scopes, name@, v.0 as int);
                        }
                        Ok(self.alloc_node(Expr::Variable(v), sp))
                    }
                    Err(e) => Err(e),
                }
            }
            RawExpr::Apply { lambda, argument, span } => {
                let sp: Span = *span;
                let r1 = self.build_expr(lambda);
                match r1 {
                    Ok(l) => {
                        let r2 = self.build_expr(argument);
                        match r2 {
                            Ok(a2) => Ok(
                                self.alloc_node(Expr::Apply { lambda: l, argument: a2 }, sp),
                            ),
                            Err(e) => Err(e),
                        }
                    }
                    Err(e) => Err(e),
                }
            }
            RawExpr::Assert { condition, body, span } => {
                let sp: Span = *span;
                let r1 = self.build_expr(condition);
                match r1 {
                    Ok(c) => {
                        let r2 = self.build_expr(body);
                        match r2 {
                            Ok(b) => Ok(
                                self.alloc_node(Expr::Assert { assertion: c, then: b }, sp),
                            ),
                            Err(e) => Err(e),
                        }
                    }
                    Err(e) => Err(e),
                }
            }
            RawExpr::IfElse { cond, then, els, span } => {
                let sp: Span = *span;
                let r1 = self.build_expr(cond);
                match r1 {
                    Ok(c) => {
                        let r2 = self.build_expr(then);
                        match r2 {
                            Ok(t) => {
                                let r3 = self.build_expr(els);
                                match r3 {
                                    Ok(e3) => Ok(
                                        self.alloc_node(
                                            Expr::IfElse { cond: c, then: t, els: e3 },
                                            sp,
                                        ),
                                    ),
                                    Err(e) => Err(e),
                                }
                            }
                            Err(e) => Err(e),
                        }
                    }
                    Err(e) => Err(e),
                }
            }
            RawExpr::IndexSet { set, index, span } => {
                let sp: Span = *span;
                let r1 = self.build_expr(set);
                match r1 {
                    Ok(s) => {
                        let name: String = match index {
                            RawAttrPart::Ident(n) => n.clone(),
                            RawAttrPart::Quoted(n) => n.clone(),
                        };
                        let ix = self.alloc_node(Expr::Value(Value::Str(name)), sp);
                        Ok(self.alloc_node(Expr::IndexSet { set: s, index: ix }, sp))
                    }
                    Err(e) => Err(e),
                }
            }
            RawExpr::OrDefault { set, index, default, span } => {
                let sp: Span = *span;
                let r1 = self.build_expr(set);
                match r1 {
                    Ok(s) => {
                        let name: String = match index {
                            RawAttrPart::Ident(n) => n.clone(),
                            RawAttrPart::Quoted(n) => n.clone(),
                        };
                        let ix = self.alloc_node(Expr::Value(Value::Str(name)), sp);
                        let r2 = self.build_expr(default);
                        match r2 {
                            Ok(d) => Ok(
                                self.alloc_node(
                                    Expr::OrDefault { set: s, index: ix, default: d },
                                    sp,
                                ),
                            ),
                            Err(e) => Err(e),
                        }
                    }
                    Err(e) => Err(e),
                }
            }
            RawExpr::Lambda { param, param_span, body, span } => self.build_lambda(
                raw,
                param,
                *param_span,
                body,
                *span,
            ),
            RawExpr::LetIn { bindings, body, span } => self.build_letin(raw, bindings, body, *span),
            RawExpr::List { items, span } => self.build_list(raw, items, *span),
            RawExpr::AttrSet { bindings, span } => self.build_attrset(raw, bindings, *span),
            RawExpr::Neg { operand, span } => {
                let sp: Span = *span;
                let r1 = self.build_expr(operand);
                match r1 {
                    Ok(o) => Ok(self.alloc_node(Expr::Neg { operand: o }, sp)),
                    Err(e) => Err(e),
                }
            }
            RawExpr::Sub { lhs, rhs, span } => {
                let sp: Span = *span;
                let r1 = self.build_expr(lhs);
                match r1 {
                    Ok(l) => {
                        let r2 = self.build_expr(rhs);
                        match r2 {
                            Ok(r3) => Ok(self.alloc_node(Expr::Sub { lhs: l, rhs: r3 }, sp)),
                            Err(e) => Err(e),
                        }
                    }
                    Err(e) => Err(e),
                }
            }
        }
    }

    /// Converts one literal token into a node; see [`build_literal_spec`].
    fn build_literal(&mut self, lit: &RawLiteral, sp: Span) -> (r: Result<ExprId, Error>)
        requires
            old(self).wf(),
        ensures
            final(self).wf(),
            ({
                let stepped = build_literal_spec(old(self).stv(), *lit, sp);
                final(self).stv() =~= stepped.0 && id_res_view(r) == stepped.1
            }),
            r is Ok ==> (r->Ok_0 as int) < final(self).stv().exprs.len(),
            final(self).stv().exprs.len() >= old(self).stv().exprs.len(),
            final(self).stv().vars.len() >= old(self).stv().vars.len(),
            final(self).stv().scopes.len() == old(self).stv().scopes.len(),
            final(self).stv().frames.len() == old(self).stv().frames.len(),
    {
        let ghost st0 = self.stv();
        match lit {
            RawLiteral::Int(tok) => match parse_int_token(tok.as_str()) {
                Ok(v) => Ok(self.alloc_node(Expr::Value(Value::Int(v)), sp)),
                Err(IntTokenError::Invalid) => Err(
                    Error::LiteralConversion {
                        span: sp,
                        cause: "invalid integer".to_owned(),
                    },
                ),
                Err(IntTokenError::OutOfRange) => Err(
                    Error::LiteralConversion {
                        span: sp,
                        cause: "integer out of range".to_owned(),
                    },
                ),
            },
            RawLiteral::Float(_) => Err(
                Error::LiteralConversion {
                    span: sp,
                    cause: "unsupported float literal".to_owned(),
                },
            ),
            RawLiteral::Str(s) => Ok(
                self.alloc_node(Expr::Value(Value::Str(s.clone())), sp),
            ),
            RawLiteral::Path { anchor, path } => match anchor {
                RawAnchor::Absolute => Ok(
                    self.alloc_node(
                        Expr::Value(Value::Path(NixPath::Normal(path.clone()))),
                        sp,
                    ),
                ),
                RawAnchor::Relative => {
                    let mut full: String = self.search_path.clone();
                    full.append("/");
                    full.append(path.as_str());
                    Ok(self.alloc_node(Expr::Value(Value::Path(NixPath::Normal(full))), sp))
                }
                RawAnchor::Home => {
                    let resolved: Option<String> = match &self.home {
                        Some(h) => Some(h.clone()),
                        None => None,
                    };
                    match resolved {
                        Some(h) => {
                            let mut full: String = h;
                            full.append("/");
                            full.append(path.as_str());
                            Ok(
                                self.alloc_node(
                                    Expr::Value(Value::Path(NixPath::Normal(full))),
                                    sp,
                                ),
                            )
                        }
                        None => Err(
                            Error::LiteralConversion {
                                span: sp,
                                cause: "cannot resolve home directory".to_owned(),
                            },
                        ),
                    }
                }
                RawAnchor::Uri => Ok(
                    self.alloc_node(Expr::Value(Value::Str(path.clone())), sp),
                ),
                RawAnchor::Store => Ok(self.alloc_node(Expr::NixPath(path.clone()), sp)),
            },
        }
    }

    /// Builds a lambda: a fresh scope and capture frame, the declared
    /// parameter, the body, and a node carrying the flattened captures.
    fn build_lambda(
        &mut self,
        raw: &RawExpr,
        param: &String,
        psp: Span,
        body: &Box<RawExpr>,
        sp: Span,
    ) -> (r: Result<ExprId, Error>)
        requires
            old(self).wf(),
            *raw == (RawExpr::Lambda { param: *param, param_span: psp, body: *body, span: sp }),
        ensures
            final(self).wf(),
            ({
                let stepped = build_spec(old(self).stv(), *raw);
                final(self).stv() =~= stepped.0 && id_res_view(r) == stepped.1
            }),
            r is Ok ==> (r->Ok_0 as int) < final(self).stv().exprs.len(),
            final(self).stv().exprs.len() >= old(self).stv().exprs.len(),
            final(self).stv().vars.len() >= old(self).stv().vars.len(),
            r is Ok ==> final(self).stv().scopes.len() == old(self).stv().scopes.len(),
            r is Ok ==> final(self).stv().frames.len() == old(self).stv().frames.len(),
        decreases *raw, 0int,
    {
        let ghost st0 = self.stv();
        self.push_scope();
        self.push_frame();
        proof {
            assert(self.stv() =~= (BuildSt {
                scopes: st0.scopes.push(Map::empty()),
                frames: st0.frames.push(
                    FrameV { start: st0.vars.len() as int, captures: Seq::empty() },
                ),
                ..st0
            }));
        }
        let rd = self.declare(param.clone(), psp, 0);
        match rd {
            Ok(pv) => {
                let ghost st_decl = self.stv();
                let rb = self.build_expr(body);
                match rb {
                    Ok(b) => {
                        let fr = self.pop_frame();
                        self.pop_scope();
                        let node = Expr::Lambda(
                            Lambda {
                                captures: fr.captures,
                                param: Some(LambdaParameter::Ident(pv)),
                                body: b,
                            },
                        );
                        proof {
                            assert(frame_ok(fr@, self.stv().vars.len() as int));
                        }
                        Ok(self.alloc_node(node, sp))
                    }
                    Err(e) => Err(e),
                }
            }
            Err(e) => Err(e),
        }
    }

    /// Builds a `let`: declares every binding head, builds and patches every
    /// right-hand side, then builds the body in the extended scope.
    fn build_letin(
        &mut self,
        raw: &RawExpr,
        bindings: &Vec<RawBinding>,
        body: &Box<RawExpr>,
        sp: Span,
    ) -> (r: Result<ExprId, Error>)
        requires
            old(self).wf(),
            *raw == (RawExpr::LetIn { bindings: *bindings, body: *body, span: sp }),
        ensures
            final(self).wf(),
            ({
                let stepped = build_spec(old(self).stv(), *raw);
                final(self).stv() =~= stepped.0 && id_res_view(r) == stepped.1
            }),
            r is Ok ==> (r->Ok_0 as int) < final(self).stv().exprs.len(),
            final(self).stv().exprs.len() >= old(self).stv().exprs.len(),
            final(self).stv().vars.len() >= old(self).stv().vars.len(),
            r is Ok ==> final(self).stv().scopes.len() == old(self).stv().scopes.len(),
            r is Ok ==> final(self).stv().frames.len() == old(self).stv().frames.len(),
        decreases *raw, 0int,
    {
        let ghost st0 = self.stv();
        self.push_scope();
        let ghost opened = self.stv();
        let mut bvars: Vec<Variable> = Vec::new();
        let mut k: usize = 0;
        while k < bindings.len()
            invariant
                self.wf(),
                k <= bindings@.len(),
                bvars@.len() == k,
                st0 == old(self).stv(),
                opened == (BuildSt { scopes: st0.scopes.push(Map::empty()), ..st0 }),
                *raw == (RawExpr::LetIn { bindings: *bindings, body: *body, span: sp }),
                opened.scopes.len() >= 2,
                self.stv().scopes.len() == opened.scopes.len(),
                self.stv().frames.len() == st0.frames.len(),
                self.stv().exprs.len() >= st0.exprs.len(),
                self.stv().vars.len() >= st0.vars.len(),
                forall|i: int|
                    0 <= i < k ==> (#[trigger] bindings@[i]).attr_path@.len() >= 1,
                forall|i: int|
                    0 <= i < k ==> ((#[trigger] bvars@[i]).0 as int) < self.stv().vars.len(),
                ({
                    let full = let_decl_spec(opened, *bindings, 0);
                    let rest = let_decl_spec(self.stv(), *bindings, k as int);
                    full.0 == rest.0 && (match rest.1 {
                        Ok(ids) => full.1 == Ok::<Seq<int>, ErrV>(
                            bvars@.map(|_i: int, v: Variable| v.0 as int) + ids,
                        ),
                        Err(e) => full.1 == Err::<Seq<int>, ErrV>(e),
                    })
                }),
            decreases bindings@.len() - k,
        {
            let blen: usize = bindings[k].attr_path.len();
            if blen == 0 {
                let bsp: Span = bindings[k].span;
                return Err(
                    Error::LiteralConversion {
                        span: bsp,
                        cause: "empty attribute path".to_owned(),
                    },
                );
            }
            let name: String = match &bindings[k].attr_path[0] {
                RawAttrPart::Ident(s) => s.clone(),
                RawAttrPart::Quoted(s) => s.clone(),
            };
            let bsp: Span = bindings[k].span;
            let ghost prev = bvars@.map(|_i: int, v2: Variable| v2.0 as int);
            let rd = self.declare(name, bsp, 0);
            match rd {
                Ok(v) => {
                    bvars.push(v);
                    proof {
                        let cur = bvars@.map(|_i: int, v2: Variable| v2.0 as int);
                        assert(cur =~= prev.push(v.0 as int));
                        let rest1 = let_decl_spec(self.stv(), *bindings, k + 1);
                        match rest1.1 {
                            Ok(ids) => {
                                assert(prev + (seq![v.0 as int] + ids) =~= cur + ids);
                            }
                            Err(_) => {}
                        }
                    }
                }
                Err(e) => {
                    return Err(e);
                }
            }
            k += 1;
        }
        let ghost st_decl = self.stv();
        let ghost bvars_v = bvars@.map(|_i: int, v: Variable| v.0 as int);
        proof {
            assert(let_decl_spec(st_decl, *bindings, k as int).1 == Ok::<Seq<int>, ErrV>(
                Seq::empty(),
            ));
            assert(bvars_v + Seq::<int>::empty() =~= bvars_v);
        }
        let mut k2: usize = 0;
        while k2 < bindings.len()
            invariant
                self.wf(),
                k2 <= bindings@.len(),
                bvars@.len() == bindings@.len(),
                bvars_v == bvars@.map(|_i: int, v: Variable| v.0 as int),
                st0 == old(self).stv(),
                opened == (BuildSt { scopes: st0.scopes.push(Map::empty()), ..st0 }),
                let_decl_spec(opened, *bindings, 0) == (
                    st_decl,
                    Ok::<Seq<int>, ErrV>(bvars_v),
                ),
                *raw == (RawExpr::LetIn { bindings: *bindings, body: *body, span: sp }),
                forall|i: int|
                    0 <= i < bindings@.len() ==> (#[trigger] bindings@[i]).attr_path@.len()
                        >= 1,
                self.stv().exprs.len() >= st0.exprs.len(),
                self.stv().vars.len() >= st0.vars.len(),
                self.stv().scopes.len() == opened.scopes.len(),
                self.stv().frames.len() == st0.frames.len(),
                self.stv().scopes.len() >= 2,
                forall|i: int|
                    0 <= i < bvars@.len() ==> 0 <= ((#[trigger] bvars@[i]).0 as int)
                        < self.stv().vars.len(),
                let_values_spec(st_decl, *bindings, bvars_v, 0) == let_values_spec(
                    self.stv(),
                    *bindings,
                    bvars_v,
                    k2 as int,
                ),
            decreases bindings@.len() - k2,
        {
            proof {
                assert(decreases_to!(*raw => *bindings));
                assert(decreases_to!(*bindings => bindings@[k2 as int]));
                assert(decreases_to!(bindings@[k2 as int] => bindings@[k2 as int].value));
            }
            let rv = self.build_expr(&bindings[k2].value);
            match rv {
                Ok(vid) => {
                    let bsp: Span = bindings[k2].span;
                    let built = self.wrap_segments(&bindings[k2].attr_path, vid, bsp);
                    self.set_var_expr(bvars[k2], built);
                }
                Err(e) => {
                    return Err(e);
                }
            }
            k2 += 1;
        }
        let rb = self.build_expr(body);
        match rb {
            Ok(b) => {
                self.pop_scope();
                proof {
                    assert forall|i: int| 0 <= i < bvars@.len() implies 0 <= ((
                    #[trigger] bvars@[i]).0 as int) < self.stv().vars.len() by {}
                }
                Ok(self.alloc_node(Expr::LetIn { bindings: bvars, body: b }, sp))
            }
            Err(e) => Err(e),
        }
    }

    /// Builds a list literal, keeping the elements unevaluated.
    fn build_list(&mut self, raw: &RawExpr, items: &Vec<RawExpr>, sp: Span) -> (r: Result<
        ExprId,
        Error,
    >)
        requires
            old(self).wf(),
            *raw == (RawExpr::List { items: *items, span: sp }),
        ensures
            final(self).wf(),
            ({
                let stepped = build_spec(old(self).stv(), *raw);
                final(self).stv() =~= stepped.0 && id_res_view(r) == stepped.1
            }),
            r is Ok ==> (r->Ok_0 as int) < final(self).stv().exprs.len(),
            final(self).stv().exprs.len() >= old(self).stv().exprs.len(),
            final(self).stv().vars.len() >= old(self).stv().vars.len(),
            r is Ok ==> final(self).stv().scopes.len() == old(self).stv().scopes.len(),
            r is Ok ==> final(self).stv().frames.len() == old(self).stv().frames.len(),
        decreases *raw, 0int,
    {
        let ghost st0 = self.stv();
        let mut ids: Vec<ExprId> = Vec::new();
        let mut k: usize = 0;
        while k < items.len()
            invariant
                self.wf(),
                k <= items@.len(),
                ids@.len() == k,
                st0 == old(self).stv(),
                *raw == (RawExpr::List { items: *items, span: sp }),
                self.stv().exprs.len() >= st0.exprs.len(),
                self.stv().vars.len() >= st0.vars.len(),
                self.stv().scopes.len() == st0.scopes.len(),
                self.stv().frames.len() == st0.frames.len(),
                forall|i: int|
                    0 <= i < k ==> ((#[trigger] ids@[i]) as int) < self.stv().exprs.len(),
                ({
                    let full = list_items_spec(st0, *items, 0);
                    let rest = list_items_spec(self.stv(), *items, k as int);
                    full.0 == rest.0 && (match rest.1 {
                        Ok(t) => full.1 == Ok::<Seq<int>, ErrV>(
                            ids@.map(|_i: int, e: ExprId| e as int) + t,
                        ),
                        Err(e) => full.1 == Err::<Seq<int>, ErrV>(e),
                    })
                }),
            decreases items@.len() - k,
        {
            proof {
                assert(decreases_to!(*raw => *items));
                assert(decreases_to!(*items => items@[k as int]));
            }
            let ghost prev = ids@.map(|_i: int, e: ExprId| e as int);
            let rv = self.build_expr(&items[k]);
            match rv {
                Ok(id) => {
                    ids.push(id);
                    proof {
                        let cur = ids@.map(|_i: int, e: ExprId| e as int);
                        assert(cur =~= prev.push(id as int));
                        let rest1 = list_items_spec(self.stv(), *items, k + 1);
                        match rest1.1 {
                            Ok(t) => {
                                assert(prev + (seq![id as int] + t) =~= cur + t);
                            }
                            Err(_) => {}
                        }
                    }
                }
                Err(e) => {
                    return Err(e);
                }
            }
            k += 1;
        }
        proof {
            assert(list_items_spec(self.stv(), *items, k as int).1 == Ok::<
                Seq<int>,
                ErrV,
            >(Seq::empty()));
            assert(ids@.map(|_i: int, e: ExprId| e as int) + Seq::<int>::empty() =~= ids@.map(
                |_i: int, e: ExprId| e as int,
            ));
        }
        let node = Expr::List(ids);
        Ok(self.alloc_node(node, sp))
    }

    /// Builds a set literal: sorted unique keys, members unevaluated.
    fn build_attrset(&mut self, raw: &RawExpr, bindings: &Vec<RawBinding>, sp: Span) -> (r: Result<
        ExprId,
        Error,
    >)
        requires
            old(self).wf(),
            *raw == (RawExpr::AttrSet { bindings: *bindings, span: sp }),
        ensures
            final(self).wf(),
            ({
                let stepped = build_spec(old(self).stv(), *raw);
                final(self).stv() =~= stepped.0 && id_res_view(r) == stepped.1
            }),
            r is Ok ==> (r->Ok_0 as int) < final(self).stv().exprs.len(),
            final(self).stv().exprs.len() >= old(self).stv().exprs.len(),
            final(self).stv().vars.len() >= old(self).stv().vars.len(),
            r is Ok ==> final(self).stv().scopes.len() == old(self).stv().scopes.len(),
            r is Ok ==> final(self).stv().frames.len() == old(self).stv().frames.len(),
        decreases *raw, 0int,
    {
        let ghost st0 = self.stv();
        let mut attrs = Attrs::new();
        let mut k: usize = 0;
        proof {
            assert(attrs@ =~= Seq::<(Seq<char>, int)>::empty());
        }
        while k < bindings.len()
            invariant
                self.wf(),
                attrs.wf(),
                k <= bindings@.len(),
                st0 == old(self).stv(),
                *raw == (RawExpr::AttrSet { bindings: *bindings, span: sp }),
                self.stv().exprs.len() >= st0.exprs.len(),
                self.stv().vars.len() >= st0.vars.len(),
                self.stv().scopes.len() == st0.scopes.len(),
                self.stv().frames.len() == st0.frames.len(),
                forall|i: int|
                    0 <= i < attrs@.len() ==> 0 <= (#[trigger] attrs@[i]).1
                        < self.stv().exprs.len(),
                set_bindings_spec(st0, *bindings, Seq::empty(), 0) == set_bindings_spec(
                    self.stv(),
                    *bindings,
                    attrs@,
                    k as int,
                ),
            decreases bindings@.len() - k,
        {
            let blen: usize = bindings[k].attr_path.len();
            if blen == 0 {
                let bsp: Span = bindings[k].span;
                return Err(
                    Error::LiteralConversion {
                        span: bsp,
                        cause: "empty attribute path".to_owned(),
                    },
                );
            }
            let key: String = match &bindings[k].attr_path[0] {
                RawAttrPart::Ident(s) => s.clone(),
                RawAttrPart::Quoted(s) => s.clone(),
            };
            let bsp: Span = bindings[k].span;
            let already: Option<ExprId> = attrs.get(key.as_str());
            if already.is_some() {
                return Err(Error::Redeclaration { span: bsp, name: key });
            }
            proof {
                assert(decreases_to!(*raw => *bindings));
                assert(decreases_to!(*bindings => bindings@[k as int]));
                assert(decreases_to!(bindings@[k as int] => bindings@[k as int].value));
            }
            let rv = self.build_expr(&bindings[k].value);
            match rv {
                Ok(vid) => {
                    let ghost prev_entries = attrs@;
                    let built = self.wrap_segments(&bindings[k].attr_path, vid, bsp);
                    let ir = attrs.insert(key, built);
                    match ir {
                        Ok(()) => {
                            proof {
                                crate::value::lemma_attrs_insert_members(
                                    prev_entries,
                                    key@,
                                    built as int,
                                );
                            }
                        }
                        Err(()) => {
                            proof {
                                assert(false);
                            }
                        }
                    }
                }
                Err(e) => {
                    return Err(e);
                }
            }
            k += 1;
        }
        let node = Expr::AttrSet(attrs);
        Ok(self.alloc_node(node, sp))
    }

}

/// How a finished AST relates to one run of the build pass.
pub open spec fn build_result_matches(
    search_path: Seq<char>,
    home: Option<Seq<char>>,
    root: RawExpr,
    r: Result<Ast, Error>,
) -> bool {
    let stepped = build_spec(initial_build_state(search_path, home), root);
    match r {
        Ok(ast) => {
            &&& stepped.1 is Ok
            &&& ast@.exprs == stepped.0.exprs
            &&& ast@.spans == stepped.0.spans
            &&& ast@.vars == stepped.0.vars
            &&& ast@.root == stepped.1->Ok_0
            &&& ast_wf(ast@)
        },
        Err(e) => stepped.1 == Err::<int, ErrV>(e@),
    }
}

impl Ast {
    /// Builds a resolved AST from a raw expression tree.
    ///
    /// The outermost scope is pre-seeded with the built-in bindings `true`
    /// and `false`; `search_path` anchors relative path literals and `home`,
    /// where the caller resolved one, home-relative ones.
    pub fn build(search_path: String, home: Option<String>, root: &RawExpr) -> (r: Result<
        Ast,
        Error,
    >)
        ensures
            build_result_matches(search_path@, home_view(home), *root, r),
            r is Ok ==> ast_wf(r->Ok_0@),
    {
        let mut b = Builder::new(search_path, home);
        let ghost st0 = b.stv();
        match b.build_expr(root) {
            Ok(id) => {
                let ghost bf = b.stv();
                let ast = Ast::assemble(b.arena, b.vars, id);
                proof {
                    assert(ast@.vars =~= bf.vars);
                    assert(ast_wf(ast@));
                }
                Ok(ast)
            }
            Err(e) => Err(e),
        }
    }
}


// ---------------------------------------------------------------------------
// Declaration laws
// ---------------------------------------------------------------------------

/// Declare-once: a name with an entry in the innermost scope — declared
/// there, or cached there — cannot be declared again in that scope.
pub proof fn lemma_declare_once(st: BuildSt, name: Seq<char>, sp: Span, expr: int)
    requires
        st.scopes.len() >= 1,
        st.scopes.last().contains_key(name),
    ensures
        declare_spec(st, name, sp, expr) == (st, Err::<int, ErrV>(
            ErrV::Redeclaration { span: sp, name },
        )),
{
}

/// Declaring a name in a nested scope succeeds — whatever outer scopes hold
/// — and shadows: from then on the name resolves to the new slot.
pub proof fn lemma_declare_shadows(st: BuildSt, name: Seq<char>, sp: Span, expr: int)
    requires
        st.scopes.len() >= 1,
        !st.scopes.last().contains_key(name),
        st.vars.len() < u32::MAX,
    ensures
        declare_spec(st, name, sp, expr).1 == Ok::<int, ErrV>(st.vars.len() as int),
        chain_lookup(declare_spec(st, name, sp, expr).0.scopes, name) == Some(
            st.vars.len() as int,
        ),
{
    let after = declare_spec(st, name, sp, expr).0;
    assert(after.scopes.last() == st.scopes.last().insert(name, st.vars.len() as int));
    assert(after.scopes.last().contains_key(name));
}

/// Resolution is insensitive to repetition: after one successful
/// resolution of `name`, resolving it again — whatever span the second use
/// carries — finds the identical variable slot and changes nothing, neither
/// in the scope stack nor in any capture frame.
pub proof fn lemma_resolve_spec_repeat(st: BuildSt, name: Seq<char>, sp: Span, sp2: Span)
    ensures
        ({
            let first = resolve_spec(st, name, sp);
            let second = resolve_spec(first.0, name, sp2);
            first.1 is Ok ==> second == (first.0, first.1)
        }),
{
    let first = resolve_spec(st, name, sp);
    if first.1 is Ok {
        let id = chain_lookup(st.scopes, name)->Some_0;
        crate::scope::lemma_resolve_idempotent(st.scopes, name);
        let rf = record_captures(st.frames, id);
        assert(record_captures(rf, id) =~= rf) by {
            assert forall|j: int| 0 <= j < rf.len() implies record_captures(rf, id)[j] == rf[j] by {
                let f = st.frames[j];
                if id < f.start && !f.captures.contains(id) {
                    assert(rf[j].captures == f.captures.push(id));
                    assert(rf[j].captures[f.captures.len() as int] == id);
                    assert(rf[j].captures.contains(id));
                } else {
                    assert(rf[j] == f);
                }
            }
        }
    }
}

/// Relies on directories::BaseDirs::new, which reads the process
/// environment to locate the user's home directory.  The result depends on
/// the environment, so nothing is promised of it.
#[verifier::external_body]
fn env_home_dir() -> (r: Option<String>)
{
    directories::BaseDirs::new().map(|b| b.home_dir().to_string_lossy().into_owned())
}

impl Ast {
    /// Builds like [`Ast::build`], taking the home directory for
    /// `~`-anchored path literals from the process environment.  The home
    /// directory depends on the environment, so the contract holds for
    /// whichever value was found (or not found).
    pub fn build_with_env_home(search_path: String, root: &RawExpr) -> (r: Result<Ast, Error>)
        ensures
            exists|home: Option<Seq<char>>|
                build_result_matches(search_path@, home, *root, r),
            r is Ok ==> ast_wf(r->Ok_0@),
    {
        let home: Option<String> = env_home_dir();
        let ghost hv = home_view(home);
        let out = Ast::build(search_path, home, root);
        proof {
            assert(build_result_matches(search_path@, hv, *root, out));
        }
        out
    }
}

} // verus!
