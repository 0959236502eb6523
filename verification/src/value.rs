//! Dynamically typed expression values and the attribute-set model.
//!
//! A `Value` is the result of evaluating an expression.  Lists and attribute
//! sets hold *unevaluated* member expressions (arena indices), so that one
//! demand forces one member independently of the others.  Attribute sets
//! enumerate their keys in sorted (lexicographic) order, not insertion order:
//! that ordering is part of the external contract of the value model.

use vstd::prelude::*;

verus! {

/// Index of an expression node in the session arena.
pub type ExprId = usize;

/// The shape of a `Value`, used for type-mismatch diagnostics.
#[derive(Debug, Copy, Clone, PartialEq, Eq)]
pub enum Type {
    Str,
    Int,
    Path,
    Bool,
    Null,
    List,
    AttrSet,
}

/// A filesystem path value.
#[derive(Debug)]
pub enum NixPath {
    /// A relative, home-relative or absolute path, expanded to an absolute
    /// path at build time.  Such a path may refer to a file that does not
    /// exist; that is not an evaluation error.
    Normal(String),
    /// An angle-bracket path, resolved against the search list only when
    /// evaluated.
    Store(String),
}

/// Mathematical model of a `NixPath`.
pub enum PathV {
    Normal(Seq<char>),
    Store(Seq<char>),
}

impl View for NixPath {
    type V = PathV;

    open spec fn view(&self) -> PathV {
        match self {
            NixPath::Normal(s) => PathV::Normal(s@),
            NixPath::Store(s) => PathV::Store(s@),
        }
    }
}

/// The value an expression was evaluated to.
#[derive(Debug)]
pub enum Value {
    /// A string or URI; an unquoted URI is just a string.
    Str(String),
    /// A signed 64-bit integer with two's-complement wraparound arithmetic.
    Int(i64),
    /// A path; see [`NixPath`].
    Path(NixPath),
    Bool(bool),
    Null,
    /// An ordered sequence of unevaluated element expressions.
    List(Vec<ExprId>),
    /// A mapping from attribute name to unevaluated member expression,
    /// keys unique and enumerated in sorted key order.
    AttrSet(Attrs),
}

/// Mathematical model of a `Value`.
pub enum ValV {
    Str(Seq<char>),
    Int(int),
    Path(PathV),
    Bool(bool),
    Null,
    List(Seq<int>),
    AttrSet(Seq<(Seq<char>, int)>),
}

impl View for Value {
    type V = ValV;

    open spec fn view(&self) -> ValV {
        match self {
            Value::Str(s) => ValV::Str(s@),
            Value::Int(i) => ValV::Int(*i as int),
            Value::Path(p) => ValV::Path(p@),
            Value::Bool(b) => ValV::Bool(*b),
            Value::Null => ValV::Null,
            Value::List(v) => ValV::List(v@.map(|_i: int, e: ExprId| e as int)),
            Value::AttrSet(a) => ValV::AttrSet(a@),
        }
    }
}

/// The type tag of a model value.
pub open spec fn type_of(v: ValV) -> Type {
    match v {
        ValV::Str(_) => Type::Str,
        ValV::Int(_) => Type::Int,
        ValV::Path(_) => Type::Path,
        ValV::Bool(_) => Type::Bool,
        ValV::Null => Type::Null,
        ValV::List(_) => Type::List,
        ValV::AttrSet(_) => Type::AttrSet,
    }
}

impl Value {
    /// The type tag of this value.
    pub fn type_(&self) -> (t: Type)
        ensures
            t == type_of(self@),
    {
        match self {
            Value::Str(_) => Type::Str,
            Value::Int(_) => Type::Int,
            Value::Path(_) => Type::Path,
            Value::Bool(_) => Type::Bool,
            Value::Null => Type::Null,
            Value::List(_) => Type::List,
            Value::AttrSet(_) => Type::AttrSet,
        }
    }

    /// If this value is a boolean, returns it; otherwise returns `None`
    /// rather than failing, so callers decide whether a mismatch is an error.
    pub fn as_bool(&self) -> (r: Option<bool>)
        ensures
            match r {
                Some(b) => self@ == ValV::Bool(b),
                None => forall|b: bool| self@ != ValV::Bool(b),
            },
    {
        if let Value::Bool(b) = self {
            Some(*b)
        } else {
            None
        }
    }

    /// A structural copy; the model value is preserved exactly.
    pub fn duplicate(&self) -> (r: Value)
        ensures
            r@ == self@,
    {
        match self {
            Value::Str(s) => Value::Str(s.clone()),
            Value::Int(i) => Value::Int(*i),
            Value::Path(NixPath::Normal(s)) => Value::Path(NixPath::Normal(s.clone())),
            Value::Path(NixPath::Store(s)) => Value::Path(NixPath::Store(s.clone())),
            Value::Bool(b) => Value::Bool(*b),
            Value::Null => Value::Null,
            Value::List(v) => {
                let mut out: Vec<ExprId> = Vec::new();
                let mut i: usize = 0;
                while i < v.len()
                    invariant
                        i <= v.len(),
                        out@ =~= v@.subrange(0, i as int),
                    decreases v.len() - i,
                {
                    out.push(v[i]);
                    i += 1;
                }
                proof {
                    assert(out@ =~= v@);
                }
                Value::List(out)
            }
            Value::AttrSet(a) => Value::AttrSet(a.duplicate()),
        }
    }
}

// ---------------------------------------------------------------------------
// Lexicographic order on strings (by Unicode code point)
// ---------------------------------------------------------------------------

/// Strict lexicographic order on character sequences, by code point.
pub open spec fn lex_lt(a: Seq<char>, b: Seq<char>) -> bool
    decreases a.len(),
{
    if b.len() == 0 {
        false
    } else if a.len() == 0 {
        true
    } else if a[0] == b[0] {
        lex_lt(a.skip(1), b.skip(1))
    } else {
        (a[0] as u32) < (b[0] as u32)
    }
}

/// Characters with equal code points are equal.
proof fn lemma_char_code_eq(x: char, y: char)
    requires
        x as u32 == y as u32,
    ensures
        x == y,
{
}

pub proof fn lemma_lex_lt_irrefl(a: Seq<char>)
    ensures
        !lex_lt(a, a),
    decreases a.len(),
{
    if a.len() > 0 {
        lemma_lex_lt_irrefl(a.skip(1));
    }
}

/// Two sequences not ordered either way are equal.
pub proof fn lemma_lex_lt_connected(a: Seq<char>, b: Seq<char>)
    requires
        !lex_lt(a, b),
        !lex_lt(b, a),
    ensures
        a == b,
    decreases a.len(),
{
    if a.len() == 0 && b.len() == 0 {
        assert(a =~= b);
    } else if a.len() > 0 && b.len() > 0 {
        if a[0] == b[0] {
            lemma_lex_lt_connected(a.skip(1), b.skip(1));
            assert(a =~= b) by {
                assert(forall|i: int|
                    1 <= i < a.len() ==> a[i] == a.skip(1)[i - 1] && b[i] == b.skip(1)[i - 1]);
            }
        } else {
            // Impossible: the heads differ, yet neither code point is below
            // the other.
            let x: char = a[0];
            let y: char = b[0];
            assert(x as u32 == y as u32);
            lemma_char_code_eq(x, y);
        }
    }
}

pub proof fn lemma_lex_lt_trans(a: Seq<char>, b: Seq<char>, c: Seq<char>)
    requires
        lex_lt(a, b),
        lex_lt(b, c),
    ensures
        lex_lt(a, c),
    decreases a.len(),
{
    if a.len() > 0 && b.len() > 0 && c.len() > 0 {
        if a[0] == b[0] && b[0] == c[0] {
            lemma_lex_lt_trans(a.skip(1), b.skip(1), c.skip(1));
        }
    }
}

/// Distinct sequences are ordered one way or the other.
pub proof fn lemma_lex_lt_total(a: Seq<char>, b: Seq<char>)
    requires
        a != b,
    ensures
        lex_lt(a, b) || lex_lt(b, a),
{
    if !lex_lt(a, b) && !lex_lt(b, a) {
        lemma_lex_lt_connected(a, b);
    }
}

/// Executable comparison deciding `lex_lt`.
pub fn str_lt(a: &str, b: &str) -> (r: bool)
    ensures
        r == lex_lt(a@, b@),
{
    let alen: usize = a.unicode_len();
    let blen: usize = b.unicode_len();
    let mut i: usize = 0;
    proof {
        assert(a@.skip(0) =~= a@);
        assert(b@.skip(0) =~= b@);
    }
    loop
        invariant
            i <= alen,
            i <= blen,
            alen == a@.len(),
            blen == b@.len(),
            lex_lt(a@, b@) == lex_lt(a@.skip(i as int), b@.skip(i as int)),
        decreases alen - i,
    {
        if i >= blen {
            proof {
                assert(b@.skip(i as int).len() == 0);
            }
            return false;
        }
        if i >= alen {
            proof {
                assert(a@.skip(i as int).len() == 0);
                assert(b@.skip(i as int).len() > 0);
            }
            return true;
        }
        let ca: char = a.get_char(i);
        let cb: char = b.get_char(i);
        if ca == cb {
            proof {
                assert(a@.skip(i as int)[0] == a@[i as int]);
                assert(b@.skip(i as int)[0] == b@[i as int]);
                assert(a@.skip(i as int).skip(1) =~= a@.skip(i + 1));
                assert(b@.skip(i as int).skip(1) =~= b@.skip(i + 1));
            }
            i += 1;
        } else {
            proof {
                assert(a@.skip(i as int)[0] == a@[i as int]);
                assert(b@.skip(i as int)[0] == b@[i as int]);
            }
            return (ca as u32) < (cb as u32);
        }
    }
}

/// Executable equality on string slices.
pub fn str_eq(a: &str, b: &str) -> (r: bool)
    ensures
        r == (a@ == b@),
{
    let lt_ab: bool = str_lt(a, b);
    let lt_ba: bool = str_lt(b, a);
    proof {
        if !lt_ab && !lt_ba {
            lemma_lex_lt_connected(a@, b@);
        }
        if a@ == b@ {
            lemma_lex_lt_irrefl(a@);
        }
    }
    !lt_ab && !lt_ba
}

// ---------------------------------------------------------------------------
// Sorted attribute maps
// ---------------------------------------------------------------------------

/// First-match lookup in a sequence of (key, member) entries.
pub open spec fn attrs_lookup(s: Seq<(Seq<char>, int)>, k: Seq<char>) -> Option<int>
    decreases s.len(),
{
    if s.len() == 0 {
        None
    } else if s[0].0 == k {
        Some(s[0].1)
    } else {
        attrs_lookup(s.skip(1), k)
    }
}

/// Entries strictly sorted by key.
pub open spec fn attrs_sorted(s: Seq<(Seq<char>, int)>) -> bool {
    forall|i: int, j: int| 0 <= i < j < s.len() ==> lex_lt(s[i].0, s[j].0)
}

/// A mapping from attribute name to unevaluated member expression.
///
/// Keys are unique and the entries are kept strictly sorted by key, so that
/// display and iteration are deterministic and lexicographic regardless of
/// declaration order.
#[derive(Debug)]
pub struct Attrs {
    entries: Vec<(String, ExprId)>,
}

impl View for Attrs {
    type V = Seq<(Seq<char>, int)>;

    closed spec fn view(&self) -> Seq<(Seq<char>, int)> {
        self.entries@.map(|_i: int, e: (String, ExprId)| (e.0@, e.1 as int))
    }
}

impl Attrs {
    /// Sortedness of the entry sequence; an invariant of every `Attrs` built
    /// through `new` and `insert`.
    pub open spec fn wf(&self) -> bool {
        attrs_sorted(self@)
    }

    pub fn new() -> (r: Attrs)
        ensures
            r@ =~= Seq::<(Seq<char>, int)>::empty(),
            r.wf(),
    {
        Attrs { entries: Vec::new() }
    }

    pub fn len(&self) -> (n: usize)
        ensures
            n == self@.len(),
    {
        self.entries.len()
    }

    /// The key of the entry at enumeration position `i`.
    pub fn key_at(&self, i: usize) -> (k: &String)
        requires
            i < self@.len(),
        ensures
            k@ == self@[i as int].0,
    {
        &self.entries[i].0
    }

    /// The member expression of the entry at enumeration position `i`.
    pub fn member_at(&self, i: usize) -> (e: ExprId)
        requires
            i < self@.len(),
        ensures
            e as int == self@[i as int].1,
    {
        self.entries[i].1
    }

    /// Looks an attribute name up.
    pub fn get(&self, k: &str) -> (r: Option<ExprId>)
        ensures
            match r {
                Some(e) => attrs_lookup(self@, k@) == Some(e as int),
                None => attrs_lookup(self@, k@) is None,
            },
    {
        let ghost s = self@;
        let mut i: usize = 0;
        proof {
            assert(s.skip(0) =~= s);
        }
        loop
            invariant
                i <= self@.len(),
                s == self@,
                attrs_lookup(s, k@) == attrs_lookup(s.skip(i as int), k@),
            decreases self@.len() - i,
        {
            if i >= self.entries.len() {
                proof {
                    assert(s.skip(i as int).len() == 0);
                }
                return None;
            }
            let hit: bool = str_eq(self.entries[i].0.as_str(), k);
            proof {
                assert(s.skip(i as int)[0] == s[i as int]);
            }
            if hit {
                return Some(self.entries[i].1);
            }
            proof {
                assert(s.skip(i as int).skip(1) =~= s.skip(i + 1));
            }
            i += 1;
        }
    }

    /// Inserts a new entry, keeping the entries sorted.  Fails (leaving the
    /// map unchanged) when the key is already present.
    pub fn insert(&mut self, k: String, e: ExprId) -> (r: Result<(), ()>)
        requires
            old(self).wf(),
        ensures
            final(self).wf(),
            match r {
                Ok(()) => attrs_lookup(old(self)@, k@) is None && final(self)@ =~= attrs_insert(
                    old(self)@,
                    k@,
                    e as int,
                ),
                Err(()) => attrs_lookup(old(self)@, k@) is Some && final(self)@ == old(self)@,
            },
    {
        let ghost s = self@;
        let mut i: usize = 0;
        let mut stop: bool = false;
        while !stop
            invariant
                i <= self@.len(),
                s == self@,
                self.wf(),
                forall|j: int| 0 <= j < i ==> lex_lt(s[j].0, k@),
                stop ==> i == self@.len() || !lex_lt(s[i as int].0, k@),
            decreases self@.len() - i + (if stop { 0int } else { 1int }),
        {
            if i >= self.entries.len() {
                stop = true;
            } else {
                let further: bool = str_lt(self.entries[i].0.as_str(), &k);
                if further {
                    i += 1;
                } else {
                    stop = true;
                }
            }
        }
        // `i` is the first position whose key is not below `k`.
        let dup: bool = if i < self.entries.len() {
            str_eq(self.entries[i].0.as_str(), k.as_str())
        } else {
            false
        };
        if dup {
            proof {
                lemma_attrs_lookup_at(s, i as int);
            }
            return Err(());
        }
        proof {
            if i < s.len() {
                lemma_lex_lt_connected_at(s, i as int, k@);
            } else {
                assert forall|j: int| 0 <= j < s.len() implies s[j].0 != k@ by {
                    if s[j].0 == k@ {
                        lemma_lex_lt_irrefl(k@);
                    }
                }
            }
            lemma_attrs_lookup_none(s, k@);
        }
        self.entries.insert(i, (k, e));
        proof {
            let ii = i as int;
            let t = self@;
            assert(t =~= s.insert(ii, (k@, e as int)));
            lemma_attrs_insert_at(s, k@, e as int, ii);
            if ii < s.len() {
                lemma_lex_lt_total(s[ii].0, k@);
            }
            assert forall|x: int, y: int| 0 <= x < y < t.len() implies lex_lt(
                t[x].0,
                t[y].0,
            ) by {
                if x == ii && y > ii {
                    if y - 1 > ii {
                        lemma_lex_lt_trans(k@, s[ii].0, s[y - 1].0);
                    }
                }
            }
        }
        Ok(())
    }

    /// A structural copy; the model value is preserved exactly.
    pub fn duplicate(&self) -> (r: Attrs)
        ensures
            r@ == self@,
    {
        let mut out: Vec<(String, ExprId)> = Vec::new();
        let mut i: usize = 0;
        while i < self.entries.len()
            invariant
                i <= self.entries.len(),
                out@.len() == i,
                forall|j: int|
                    0 <= j < i ==> out@[j].0@ == self.entries@[j].0@ && out@[j].1
                        == self.entries@[j].1,
            decreases self.entries.len() - i,
        {
            let name: String = self.entries[i].0.clone();
            let member: ExprId = self.entries[i].1;
            out.push((name, member));
            i += 1;
        }
        let r = Attrs { entries: out };
        proof {
            assert(r@ =~= self@);
        }
        r
    }
}

/// Insertion into a sorted entry sequence, before the first key not below `k`.
pub open spec fn attrs_insert(s: Seq<(Seq<char>, int)>, k: Seq<char>, e: int) -> Seq<
    (Seq<char>, int),
>
    decreases s.len(),
{
    if s.len() == 0 {
        seq![(k, e)]
    } else if lex_lt(s[0].0, k) {
        seq![s[0]] + attrs_insert(s.skip(1), k, e)
    } else {
        seq![(k, e)] + s
    }
}

proof fn lemma_attrs_insert_at(s: Seq<(Seq<char>, int)>, k: Seq<char>, e: int, i: int)
    requires
        attrs_sorted(s),
        0 <= i <= s.len(),
        forall|j: int| 0 <= j < i ==> lex_lt(s[j].0, k),
        i < s.len() ==> !lex_lt(s[i].0, k),
    ensures
        attrs_insert(s, k, e) =~= s.insert(i, (k, e)),
    decreases s.len(),
{
    if s.len() == 0 {
        assert(attrs_insert(s, k, e) =~= s.insert(0, (k, e)));
    } else if lex_lt(s[0].0, k) {
        assert(i >= 1) by {
            if i == 0 {
                assert(!lex_lt(s[0].0, k));
            }
        }
        assert(attrs_sorted(s.skip(1))) by {
            assert(forall|x: int, y: int|
                0 <= x < y < s.skip(1).len() ==> lex_lt(s.skip(1)[x].0, s.skip(1)[y].0));
        }
        lemma_attrs_insert_at(s.skip(1), k, e, i - 1);
        assert(seq![s[0]] + attrs_insert(s.skip(1), k, e) =~= s.insert(i, (k, e)));
    } else {
        assert(i == 0) by {
            if i > 0 {
                assert(lex_lt(s[0].0, k));
            }
        }
        assert(seq![(k, e)] + s =~= s.insert(0, (k, e)));
    }
}

/// In a sorted sequence, position `i` witnesses a successful lookup of its key.
proof fn lemma_attrs_lookup_at(s: Seq<(Seq<char>, int)>, i: int)
    requires
        attrs_sorted(s),
        0 <= i < s.len(),
    ensures
        attrs_lookup(s, s[i].0) == Some(s[i].1),
    decreases i,
{
    if i == 0 {
    } else {
        assert(s[0].0 != s[i].0) by {
            assert(lex_lt(s[0].0, s[i].0));
            lemma_lex_lt_irrefl(s[0].0);
        }
        assert(attrs_sorted(s.skip(1))) by {
            assert(forall|x: int, y: int|
                0 <= x < y < s.skip(1).len() ==> lex_lt(s.skip(1)[x].0, s.skip(1)[y].0));
        }
        lemma_attrs_lookup_at(s.skip(1), i - 1);
        assert(s.skip(1)[i - 1] == s[i]);
    }
}

/// A key held by no entry is not found.
proof fn lemma_attrs_lookup_none(s: Seq<(Seq<char>, int)>, k: Seq<char>)
    requires
        forall|j: int| 0 <= j < s.len() ==> s[j].0 != k,
    ensures
        attrs_lookup(s, k) is None,
    decreases s.len(),
{
    if s.len() > 0 {
        assert(forall|j: int| 0 <= j < s.skip(1).len() ==> s.skip(1)[j] == s[j + 1]);
        lemma_attrs_lookup_none(s.skip(1), k);
    }
}

/// In a sorted sequence, once every key before `i` is below `k` and the key
/// at `i` is neither below nor equal to `k`, no entry at all holds `k`.
proof fn lemma_lex_lt_connected_at(s: Seq<(Seq<char>, int)>, i: int, k: Seq<char>)
    requires
        attrs_sorted(s),
        0 <= i < s.len(),
        forall|j: int| 0 <= j < i ==> lex_lt(s[j].0, k),
        !lex_lt(s[i].0, k),
        s[i].0 != k,
    ensures
        forall|j: int| 0 <= j < s.len() ==> s[j].0 != k,
{
    assert(lex_lt(k, s[i].0)) by {
        if !lex_lt(k, s[i].0) {
            lemma_lex_lt_connected(s[i].0, k);
        }
    }
    assert forall|j: int| 0 <= j < s.len() implies s[j].0 != k by {
        if j < i {
            if s[j].0 == k {
                lemma_lex_lt_irrefl(k);
            }
        } else if j > i {
            assert(lex_lt(s[i].0, s[j].0));
            lemma_lex_lt_trans(k, s[i].0, s[j].0);
            if s[j].0 == k {
                lemma_lex_lt_irrefl(k);
            }
        }
    }
}

/// A successful lookup returns one of the stored members.
pub proof fn lemma_attrs_lookup_in_values(s: Seq<(Seq<char>, int)>, k: Seq<char>, m: int)
    requires
        attrs_lookup(s, k) == Some(m),
    ensures
        exists|i: int| 0 <= i < s.len() && (#[trigger] s[i]).1 == m,
    decreases s.len(),
{
    if s.len() > 0 {
        if s[0].0 == k {
            assert(s[0].1 == m);
        } else {
            lemma_attrs_lookup_in_values(s.skip(1), k, m);
            let i = choose|i: int| 0 <= i < s.skip(1).len() && (#[trigger] s.skip(1)[i]).1 == m;
            assert(s[i + 1].1 == m);
        }
    }
}

/// Every entry of an insertion result is an old entry or the new pair.
pub proof fn lemma_attrs_insert_members(s: Seq<(Seq<char>, int)>, k: Seq<char>, e: int)
    ensures
        forall|i: int|
            0 <= i < attrs_insert(s, k, e).len() ==> (exists|j: int|
                0 <= j < s.len() && s[j] == #[trigger] attrs_insert(s, k, e)[i]) || attrs_insert(
                s,
                k,
                e,
            )[i] == (k, e),
    decreases s.len(),
{
    if s.len() == 0 {
    } else if lex_lt(s[0].0, k) {
        lemma_attrs_insert_members(s.skip(1), k, e);
        let t = attrs_insert(s, k, e);
        assert forall|i: int|
            0 <= i < t.len() implies (exists|j: int| 0 <= j < s.len() && s[j] == #[trigger] t[i])
            || t[i] == (k, e) by {
            if i == 0 {
                assert(s[0] == t[0]);
            } else {
                let ti = attrs_insert(s.skip(1), k, e);
                assert(t[i] == ti[i - 1]);
                if exists|j: int| 0 <= j < s.skip(1).len() && s.skip(1)[j] == ti[i - 1] {
                    let j = choose|j: int| 0 <= j < s.skip(1).len() && s.skip(1)[j] == ti[i - 1];
                    assert(s[j + 1] == ti[i - 1]);
                }
            }
        }
    } else {
        let t = attrs_insert(s, k, e);
        assert forall|i: int|
            0 <= i < t.len() implies (exists|j: int| 0 <= j < s.len() && s[j] == #[trigger] t[i])
            || t[i] == (k, e) by {
            if i > 0 {
                assert(s[i - 1] == t[i]);
            }
        }
    }
}

/// Sorted entries have unique keys: lookups are unambiguous, and equal key
/// sets with equal members mean equal sequences.
pub proof fn lemma_attrs_keys_unique(s: Seq<(Seq<char>, int)>)
    requires
        attrs_sorted(s),
    ensures
        forall|i: int, j: int| 0 <= i < j < s.len() ==> s[i].0 != s[j].0,
{
    assert forall|i: int, j: int| 0 <= i < j < s.len() implies s[i].0 != s[j].0 by {
        assert(lex_lt(s[i].0, s[j].0));
        lemma_lex_lt_irrefl(s[i].0);
    }
}


/// In a sorted sequence whose keys all lie strictly above `k`, `k` is not
/// found.
proof fn lemma_attrs_lookup_below(s: Seq<(Seq<char>, int)>, k: Seq<char>)
    requires
        forall|j: int| 0 <= j < s.len() ==> lex_lt(k, (#[trigger] s[j]).0),
    ensures
        attrs_lookup(s, k) is None,
{
    assert forall|j: int| 0 <= j < s.len() implies s[j].0 != k by {
        if s[j].0 == k {
            lemma_lex_lt_irrefl(k);
        }
    }
    lemma_attrs_lookup_none(s, k);
}

/// The canonical-representation law: a sorted attribute map is determined
/// by what its lookups find.  Two sorted entry sequences that agree on the
/// lookup of every key are the same sequence — so enumeration (and display)
/// order cannot depend on how the set was put together.
pub proof fn lemma_attrs_extensional(a: Seq<(Seq<char>, int)>, b: Seq<(Seq<char>, int)>)
    requires
        attrs_sorted(a),
        attrs_sorted(b),
        forall|k: Seq<char>| #[trigger] attrs_lookup(a, k) == attrs_lookup(b, k),
    ensures
        a == b,
    decreases a.len(),
{
    if a.len() == 0 && b.len() == 0 {
        assert(a =~= b);
    } else if a.len() == 0 {
        lemma_attrs_lookup_at(b, 0);
        assert(attrs_lookup(a, b[0].0) is None);
    } else if b.len() == 0 {
        lemma_attrs_lookup_at(a, 0);
        assert(attrs_lookup(b, a[0].0) is None);
    } else {
        let ka = a[0].0;
        let kb = b[0].0;
        lemma_attrs_lookup_at(a, 0);
        lemma_attrs_lookup_at(b, 0);
        assert(ka == kb) by {
            if lex_lt(ka, kb) {
                assert forall|j: int| 0 <= j < b.len() implies lex_lt(ka, (#[trigger] b[j]).0) by {
                    if j > 0 {
                        lemma_lex_lt_trans(ka, kb, b[j].0);
                    }
                }
                lemma_attrs_lookup_below(b, ka);
            } else if lex_lt(kb, ka) {
                assert forall|j: int| 0 <= j < a.len() implies lex_lt(kb, (#[trigger] a[j]).0) by {
                    if j > 0 {
                        lemma_lex_lt_trans(kb, ka, a[j].0);
                    }
                }
                lemma_attrs_lookup_below(a, kb);
            } else {
                lemma_lex_lt_connected(ka, kb);
            }
        }
        assert(a[0] == b[0]);
        let ta = a.skip(1);
        let tb = b.skip(1);
        assert(attrs_sorted(ta)) by {
            assert(forall|x: int, y: int|
                0 <= x < y < ta.len() ==> lex_lt((#[trigger] ta[x]).0, (#[trigger] ta[y]).0));
        }
        assert(attrs_sorted(tb)) by {
            assert(forall|x: int, y: int|
                0 <= x < y < tb.len() ==> lex_lt((#[trigger] tb[x]).0, (#[trigger] tb[y]).0));
        }
        assert forall|k: Seq<char>| #[trigger] attrs_lookup(ta, k) == attrs_lookup(tb, k) by {
            if k == ka {
                lemma_attrs_keys_unique(a);
                lemma_attrs_keys_unique(b);
                assert(forall|j: int| 0 <= j < ta.len() ==> (#[trigger] ta[j]).0 != k);
                assert(forall|j: int| 0 <= j < tb.len() ==> (#[trigger] tb[j]).0 != k);
                lemma_attrs_lookup_none(ta, k);
                lemma_attrs_lookup_none(tb, k);
            } else {
                assert(attrs_lookup(a, k) == attrs_lookup(ta, k));
                assert(attrs_lookup(b, k) == attrs_lookup(tb, k));
            }
        }
        lemma_attrs_extensional(ta, tb);
        assert(a =~= b) by {
            assert(forall|i: int| 1 <= i < a.len() ==> a[i] == ta[i - 1] && b[i] == tb[i - 1]);
        }
    }
}

// ---------------------------------------------------------------------------
// Deterministic display
// ---------------------------------------------------------------------------

/// The decimal digit character for `d`.
pub open spec fn digit_char(d: int) -> char {
    "0123456789"@[d]
}

/// The decimal rendering of a non-negative number.
pub open spec fn dec_digits(n: int) -> Seq<char>
    decreases n,
{
    if n < 10 {
        seq![digit_char(n)]
    } else {
        dec_digits(n / 10).push(digit_char(n % 10))
    }
}

/// The decimal rendering of a signed number.
pub open spec fn render_int(i: int) -> Seq<char> {
    if i < 0 {
        seq!['-'] + dec_digits(-i)
    } else {
        dec_digits(i)
    }
}

/// The member placeholders of a displayed list: one `...` per member, since
/// display must not trigger evaluation of pending member expressions.
pub open spec fn list_blob(n: int) -> Seq<char>
    decreases n,
{
    if n <= 0 {
        Seq::empty()
    } else {
        " ..."@ + list_blob(n - 1)
    }
}

/// The entries of a displayed set, in their (sorted) enumeration order,
/// members shown as pending.
pub open spec fn set_blob(entries: Seq<(Seq<char>, int)>) -> Seq<char>
    decreases entries.len(),
{
    if entries.len() == 0 {
        Seq::empty()
    } else {
        " "@ + entries[0].0 + " = ...;"@ + set_blob(entries.skip(1))
    }
}

/// What displaying a value produces.  Scalars render in full; list and set
/// members stay unevaluated and are shown as pending, never forced for
/// display purposes.  Set entries appear in sorted key order, so display is
/// deterministic whatever the declaration order was.
pub open spec fn render_val(v: ValV) -> Seq<char> {
    match v {
        ValV::Str(s) => seq!['"'] + s + seq!['"'],
        ValV::Int(i) => render_int(i),
        ValV::Path(PathV::Normal(p)) => p,
        ValV::Path(PathV::Store(p)) => seq!['<'] + p + seq!['>'],
        ValV::Bool(b) => if b {
            "true"@
        } else {
            "false"@
        },
        ValV::Null => "null"@,
        ValV::List(items) => "["@ + list_blob(items.len() as int) + " ]"@,
        ValV::AttrSet(entries) => "{"@ + set_blob(entries) + " }"@,
    }
}

/// Renders a non-negative number in decimal.
fn u64_dec(n: u64) -> (r: String)
    ensures
        r@ == dec_digits(n as int),
    decreases n,
{
    let digits: &str = "0123456789";
    proof {
        reveal_strlit("0123456789");
    }
    let d: usize = (n % 10) as usize;
    let unit: &str = digits.substring_char(d, d + 1);
    proof {
        assert(unit@ =~= seq![digit_char(n as int % 10)]);
    }
    if n < 10 {
        unit.to_owned()
    } else {
        let mut s = u64_dec(n / 10);
        s.append(unit);
        s
    }
}

/// Renders a signed number in decimal.
fn i64_dec(i: i64) -> (r: String)
    ensures
        r@ == render_int(i as int),
{
    if i >= 0 {
        u64_dec(i as u64)
    } else {
        let mag: u64 = ((-(i + 1)) as u64) + 1;
        proof {
            assert(mag as int == -(i as int));
        }
        let mut s = "-".to_owned();
        proof {
            reveal_strlit("-");
            assert(s@ =~= seq!['-']);
        }
        let tail = u64_dec(mag);
        s.append(tail.as_str());
        s
    }
}

impl Value {
    /// Renders this value for display.
    ///
    /// Formatting operates on whatever representation it is handed: pending
    /// member expressions of lists and sets are shown as placeholders, never
    /// silently evaluated.  See [`render_val`] for the exact result.
    pub fn render(&self) -> (r: String)
        ensures
            r@ == render_val(self@),
    {
        match self {
            Value::Str(s) => {
                let mut out = "\"".to_owned();
                proof {
                    reveal_strlit("\"");
                    assert(out@ =~= seq!['"']);
                }
                out.append(s.as_str());
                out.append("\"");
                out
            }
            Value::Int(i) => i64_dec(*i),
            Value::Path(NixPath::Normal(p)) => p.clone(),
            Value::Path(NixPath::Store(p)) => {
                let mut out = "<".to_owned();
                proof {
                    reveal_strlit("<");
                    reveal_strlit(">");
                    assert(out@ =~= seq!['<']);
                    assert(">"@ =~= seq!['>']);
                }
                out.append(p.as_str());
                out.append(">");
                out
            }
            Value::Bool(b) => {
                if *b {
                    "true".to_owned()
                } else {
                    "false".to_owned()
                }
            }
            Value::Null => "null".to_owned(),
            Value::List(items) => {
                let mut out = "[".to_owned();
                let mut i: usize = 0;
                while i < items.len()
                    invariant
                        i <= items@.len(),
                        out@ == "["@ + list_blob(i as int),
                    decreases items@.len() - i,
                {
                    out.append(" ...");
                    proof {
                        lemma_list_blob_step(i as int);
                        assert(out@ =~= "["@ + list_blob(i + 1));
                    }
                    i += 1;
                }
                out.append(" ]");
                out
            }
            Value::AttrSet(attrs) => {
                let ghost entries = attrs@;
                let mut out = "{".to_owned();
                let mut i: usize = 0;
                proof {
                    assert(entries.skip(0) =~= entries);
                }
                while i < attrs.len()
                    invariant
                        i <= attrs@.len(),
                        entries == attrs@,
                        out@ + set_blob(entries.skip(i as int)) == "{"@ + set_blob(entries),
                    decreases attrs@.len() - i,
                {
                    out.append(" ");
                    out.append(attrs.key_at(i).as_str());
                    out.append(" = ...;");
                    proof {
                        let rest = entries.skip(i as int);
                        assert(rest[0] == entries[i as int]);
                        assert(rest.skip(1) =~= entries.skip(i + 1));
                        assert(out@ + set_blob(entries.skip(i + 1)) =~= "{"@ + set_blob(entries));
                    }
                    i += 1;
                }
                proof {
                    assert(entries.skip(attrs@.len() as int) =~= Seq::<(Seq<char>, int)>::empty());
                    assert(out@ =~= "{"@ + set_blob(entries));
                }
                out.append(" }");
                out
            }
        }
    }
}

/// One more pending member extends the member placeholders on the right.
proof fn lemma_list_blob_step(n: int)
    requires
        n >= 0,
    ensures
        list_blob(n + 1) == list_blob(n) + " ..."@,
    decreases n,
{
    if n > 0 {
        lemma_list_blob_step(n - 1);
        assert(list_blob(n + 1) =~= list_blob(n) + " ..."@);
    } else {
        assert(list_blob(1) =~= list_blob(0) + " ..."@);
    }
}

} // verus!
