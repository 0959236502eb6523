//! Small utilities shared by the library's embedders.

use vstd::prelude::*;
use core::marker::PhantomData;
use crate::ast::Variable;
use crate::value::str_eq;

verus! {

/// A marker error standing for a diagnostic that has already been rendered:
/// a caller that receives it prints nothing further.
#[derive(Debug)]
pub struct ErrorAlreadyPrinted;

/// When console output should be colored.
#[derive(Debug, Copy, Clone, PartialEq, Eq)]
pub enum ColorConfig {
    Auto,
    Always,
    Never,
}

impl Default for ColorConfig {
    fn default() -> (r: ColorConfig)
        ensures
            r == ColorConfig::Auto,
    {
        ColorConfig::Auto
    }
}

/// The error of parsing a color configuration from text.
#[derive(Debug, PartialEq, Eq)]
pub struct InvalidColorConfig;

impl core::str::FromStr for ColorConfig {
    type Err = InvalidColorConfig;

    fn from_str(s: &str) -> Result<ColorConfig, InvalidColorConfig> {
        if str_eq(s, "auto") {
            Ok(ColorConfig::Auto)
        } else if str_eq(s, "always") {
            Ok(ColorConfig::Always)
        } else if str_eq(s, "never") {
            Ok(ColorConfig::Never)
        } else {
            Err(InvalidColorConfig)
        }
    }
}

/// A typed dense index into an [`IndexVec`].
pub trait Idx: Sized {
    /// The position this index stands for.
    spec fn index_spec(self) -> int;

    /// The position, as a machine index.
    fn index(self) -> (i: usize)
        ensures
            i as int == self.index_spec(),
    ;
}

impl Idx for Variable {
    open spec fn index_spec(self) -> int {
        self.0 as int
    }

    fn index(self) -> (i: usize)
        ensures
            i as int == self.index_spec(),
    {
        self.0 as usize
    }
}

/// A vector that can only be indexed by `I`, keeping differently-typed
/// indices apart.
#[derive(Debug)]
pub struct IndexVec<T, I> {
    vec: Vec<T>,
    marker: PhantomData<I>,
}

impl<T, I> View for IndexVec<T, I> {
    type V = Seq<T>;

    closed spec fn view(&self) -> Seq<T> {
        self.vec@
    }
}

impl<T, I: Idx> IndexVec<T, I> {
    pub fn new() -> (r: IndexVec<T, I>)
        ensures
            r@ =~= Seq::<T>::empty(),
    {
        IndexVec { vec: Vec::new(), marker: PhantomData }
    }

    pub fn with_capacity(capacity: usize) -> (r: IndexVec<T, I>)
        ensures
            r@ =~= Seq::<T>::empty(),
    {
        IndexVec { vec: Vec::with_capacity(capacity), marker: PhantomData }
    }

    pub fn len(&self) -> (n: usize)
        ensures
            n == self@.len(),
    {
        self.vec.len()
    }

    pub fn push(&mut self, t: T)
        ensures
            final(self)@ == old(self)@.push(t),
    {
        self.vec.push(t);
    }

    /// The element the typed index points at.
    pub fn get(&self, i: I) -> (r: &T)
        requires
            0 <= i.index_spec() < self@.len(),
        ensures
            *r == self@[i.index_spec()],
    {
        let n: usize = i.index();
        &self.vec[n]
    }

    /// Replaces the element the typed index points at.
    pub fn set(&mut self, i: I, t: T)
        requires
            0 <= i.index_spec() < old(self)@.len(),
        ensures
            final(self)@ == old(self)@.update(i.index_spec(), t),
    {
        let n: usize = i.index();
        self.vec.set(n, t);
    }
}

} // verus!
