//! Ephemeral scope frames used during the build pass.
//!
//! A scope maps interned names to variable slots.  An entry exists either
//! because the name was declared in that scope, or as a memoized result of a
//! lookup that resolved to an outer scope — after caching the two are
//! indistinguishable, by design.  Caching is a performance device only:
//! [`lemma_cache_step_transparent`] proves that it never changes what any
//! later lookup finds.

use vstd::prelude::*;

verus! {

/// A variable scope: a mapping from name to variable slot.
#[derive(Debug)]
pub struct Scope {
    entries: Vec<(String, u32)>,
}

impl View for Scope {
    type V = Map<Seq<char>, int>;

    closed spec fn view(&self) -> Map<Seq<char>, int> {
        scope_map(self.entsv())
    }
}

/// The mapping an entry list denotes; later entries would override earlier
/// ones, but scopes never hold a name twice.
pub open spec fn scope_map(s: Seq<(Seq<char>, int)>) -> Map<Seq<char>, int>
    decreases s.len(),
{
    if s.len() == 0 {
        Map::empty()
    } else {
        scope_map(s.drop_last()).insert(s.last().0, s.last().1)
    }
}

proof fn lemma_scope_map_contains(s: Seq<(Seq<char>, int)>, k: Seq<char>)
    ensures
        scope_map(s).contains_key(k) <==> exists|i: int| 0 <= i < s.len() && (#[trigger] s[i]).0 == k,
    decreases s.len(),
{
    if s.len() > 0 {
        lemma_scope_map_contains(s.drop_last(), k);
        if scope_map(s).contains_key(k) {
            if s.last().0 != k {
                let i = choose|i: int| 0 <= i < s.drop_last().len() && (#[trigger] s.drop_last()[i]).0 == k;
                assert(s[i].0 == k);
            } else {
                assert(s[s.len() - 1].0 == k);
            }
        }
        if exists|i: int| 0 <= i < s.len() && (#[trigger] s[i]).0 == k {
            let i = choose|i: int| 0 <= i < s.len() && (#[trigger] s[i]).0 == k;
            if i < s.len() - 1 {
                assert(s.drop_last()[i].0 == k);
            }
        }
    }
}

/// With unique names, the entry at any matching position gives the map's
/// value.
proof fn lemma_scope_map_at(s: Seq<(Seq<char>, int)>, i: int)
    requires
        forall|x: int, y: int| 0 <= x < y < s.len() ==> (#[trigger] s[x]).0 != (#[trigger] s[y]).0,
        0 <= i < s.len(),
    ensures
        scope_map(s).contains_key(s[i].0),
        scope_map(s)[s[i].0] == s[i].1,
    decreases s.len(),
{
    lemma_scope_map_contains(s, s[i].0);
    if i < s.len() - 1 {
        assert(s.last().0 != s[i].0);
        assert(forall|x: int, y: int|
            0 <= x < y < s.drop_last().len() ==> (#[trigger] s.drop_last()[x]).0 != (
            #[trigger] s.drop_last()[y]).0);
        lemma_scope_map_at(s.drop_last(), i);
    }
}

impl Scope {
    /// The denoted entry sequence.
    closed spec fn entsv(&self) -> Seq<(Seq<char>, int)> {
        self.entries@.map(|_i: int, e: (String, u32)| (e.0@, e.1 as int))
    }

    /// Names are unique: one entry per name.
    pub closed spec fn wf(&self) -> bool {
        forall|x: int, y: int|
            0 <= x < y < self.entsv().len() ==> (#[trigger] self.entsv()[x]).0 != (
            #[trigger] self.entsv()[y]).0
    }

    pub fn new() -> (r: Scope)
        ensures
            r@ =~= Map::<Seq<char>, int>::empty(),
            r.wf(),
    {
        let r = Scope { entries: Vec::new() };
        proof {
            assert(r.entsv() =~= Seq::<(Seq<char>, int)>::empty());
        }
        r
    }

    /// Looks a name up in this scope alone.
    pub fn get(&self, name: &str) -> (r: Option<u32>)
        requires
            self.wf(),
        ensures
            match r {
                Some(id) => self@.contains_key(name@) && self@[name@] == id as int,
                None => !self@.contains_key(name@),
            },
    {
        let ghost s = self.entsv();
        let mut i: usize = 0;
        while i < self.entries.len()
            invariant
                self.wf(),
                i <= self.entries.len(),
                s == self.entsv(),
                forall|j: int| 0 <= j < i ==> (#[trigger] s[j]).0 != name@,
            decreases self.entries.len() - i,
        {
            let hit: bool = crate::value::str_eq(self.entries[i].0.as_str(), name);
            if hit {
                proof {
                    assert(forall|x: int, y: int|
                        0 <= x < y < s.len() ==> (#[trigger] s[x]).0 != (#[trigger] s[y]).0);
                    lemma_scope_map_at(s, i as int);
                }
                return Some(self.entries[i].1);
            }
            i += 1;
        }
        proof {
            lemma_scope_map_contains(s, name@);
        }
        None
    }

    /// Adds an entry for a name this scope does not hold yet — either a
    /// fresh declaration or a cached outer-scope result.
    pub fn put(&mut self, name: String, id: u32)
        requires
            old(self).wf(),
            !old(self)@.contains_key(name@),
        ensures
            final(self).wf(),
            final(self)@ =~= old(self)@.insert(name@, id as int),
    {
        let ghost s0 = self.entsv();
        proof {
            lemma_scope_map_contains(s0, name@);
        }
        self.entries.push((name, id));
        proof {
            let s1 = self.entsv();
            assert(s1.drop_last() =~= s0);
            assert(s1.last() == (s1[s1.len() - 1].0, s1[s1.len() - 1].1));
            assert(forall|j: int| 0 <= j < s0.len() ==> (#[trigger] s0[j]).0 != name@);
            assert(forall|j: int| 0 <= j < s0.len() ==> s1[j] == s0[j]);
            assert(s1[s1.len() - 1].0 == name@);
        }
    }
}

/// Innermost-first lookup through a stack of scopes (the innermost scope is
/// the last element).
pub open spec fn chain_lookup(scopes: Seq<Map<Seq<char>, int>>, name: Seq<char>) -> Option<int>
    decreases scopes.len(),
{
    if scopes.len() == 0 {
        None
    } else if scopes.last().contains_key(name) {
        Some(scopes.last()[name])
    } else {
        chain_lookup(scopes.drop_last(), name)
    }
}

/// The scope stack after resolving `name`: when the innermost scope does not
/// hold the name but an outer one does, the result is memoized in the
/// innermost scope.
pub open spec fn cache_step(scopes: Seq<Map<Seq<char>, int>>, name: Seq<char>) -> Seq<
    Map<Seq<char>, int>,
> {
    if scopes.len() == 0 || scopes.last().contains_key(name) || chain_lookup(scopes, name) is None {
        scopes
    } else {
        scopes.update(
            scopes.len() - 1,
            scopes.last().insert(name, chain_lookup(scopes, name)->Some_0),
        )
    }
}

/// Lookup caching is observationally transparent: after resolving `name`,
/// every later lookup — of `name` itself or of any other name `m`, from the
/// same scope stack — still finds exactly what it would have found before.
pub proof fn lemma_cache_step_transparent(
    scopes: Seq<Map<Seq<char>, int>>,
    name: Seq<char>,
    m: Seq<char>,
)
    ensures
        chain_lookup(cache_step(scopes, name), m) == chain_lookup(scopes, m),
{
    let after = cache_step(scopes, name);
    if scopes.len() == 0 || scopes.last().contains_key(name) || chain_lookup(scopes, name) is None {
    } else {
        assert(after.drop_last() =~= scopes.drop_last());
        if m == name {
            assert(after.last().contains_key(m));
            assert(after.last()[m] == chain_lookup(scopes, name)->Some_0);
        } else {
            assert(after.last().contains_key(m) == scopes.last().contains_key(m));
            if scopes.last().contains_key(m) {
                assert(after.last()[m] == scopes.last()[m]);
            }
        }
    }
}

/// Resolution is insensitive to repetition: resolving `name` and then
/// resolving it again finds the same slot both times.
pub proof fn lemma_resolve_idempotent(scopes: Seq<Map<Seq<char>, int>>, name: Seq<char>)
    ensures
        chain_lookup(cache_step(scopes, name), name) == chain_lookup(scopes, name),
        cache_step(cache_step(scopes, name), name) == cache_step(scopes, name),
{
    lemma_cache_step_transparent(scopes, name, name);
    let after = cache_step(scopes, name);
    if scopes.len() == 0 || scopes.last().contains_key(name) || chain_lookup(scopes, name) is None {
    } else {
        assert(after.last().contains_key(name));
        assert(cache_step(after, name) == after);
    }
}

/// A helper for reasoning about ids stored in a scope stack: every id found
/// by a chain lookup is stored in one of the scopes.
pub proof fn lemma_chain_lookup_found(scopes: Seq<Map<Seq<char>, int>>, name: Seq<char>, id: int)
    requires
        chain_lookup(scopes, name) == Some(id),
    ensures
        exists|i: int|
            0 <= i < scopes.len() && (#[trigger] scopes[i]).contains_key(name) && scopes[i][name]
                == id,
    decreases scopes.len(),
{
    if scopes.len() > 0 {
        if scopes.last().contains_key(name) {
            assert(scopes[scopes.len() - 1].contains_key(name) && scopes[scopes.len() - 1][name]
                == id);
        } else {
            lemma_chain_lookup_found(scopes.drop_last(), name, id);
            let i = choose|i: int|
                0 <= i < scopes.drop_last().len() && (#[trigger] scopes.drop_last()[i]).contains_key(
                    name,
                ) && scopes.drop_last()[i][name] == id;
            assert(scopes[i].contains_key(name) && scopes[i][name] == id);
        }
    }
}

} // verus!
