use vstd::prelude::*;
use std::marker::PhantomData;

verus! {

/// Items paired with a counter of type `E`, which starts at a chosen
/// value and goes up by one from item to item.
#[derive(Debug)]
pub struct TypedEnumerate<I, E: Copy> {
    pub iter: I,
    pub count: E,
}

impl<I, E: Copy> TypedEnumerate<I, E> {
    pub fn new(iter: I, first: E) -> (r: TypedEnumerate<I, E>)
        ensures
            r.iter == iter,
            r.count == first,
    {
        TypedEnumerate { iter, count: first }
    }
}

/// A counter that can be moved on by a number of steps, as long as it
/// fits its type.
pub trait TypedCount: Copy + Sized {
    /// The counter `k` steps on; none where that does not fit.
    spec fn spec_plus(self, k: nat) -> Option<Self>;

    /// The counter `k` steps on.
    fn plus(self, k: usize) -> (r: Option<Self>)
        ensures
            r == self.spec_plus(k as nat),
    ;
}

impl TypedCount for usize {
    open spec fn spec_plus(self, k: nat) -> Option<usize> {
        if self + k <= usize::MAX {
            Some((self + k) as usize)
        } else {
            None
        }
    }

    fn plus(self, k: usize) -> (r: Option<usize>) {
        if k <= usize::MAX - self {
            Some(self + k)
        } else {
            None
        }
    }
}

impl TypedCount for u32 {
    open spec fn spec_plus(self, k: nat) -> Option<u32> {
        if self + k <= u32::MAX {
            Some((self + k) as u32)
        } else {
            None
        }
    }

    fn plus(self, k: usize) -> (r: Option<u32>) {
        if k as u64 <= (u32::MAX - self) as u64 {
            Some(self + k as u32)
        } else {
            None
        }
    }
}

impl TypedCount for u16 {
    open spec fn spec_plus(self, k: nat) -> Option<u16> {
        if self + k <= u16::MAX {
            Some((self + k) as u16)
        } else {
            None
        }
    }

    fn plus(self, k: usize) -> (r: Option<u16>) {
        if k as u64 <= (u16::MAX - self) as u64 {
            Some(self + k as u16)
        } else {
            None
        }
    }
}

impl<T, E: TypedCount> TypedEnumerate<Vec<T>, E> {
    /// How many pairs there are to hand out.
    pub fn len(&self) -> (n: usize)
        ensures
            n == self.iter@.len(),
    {
        self.iter.len()
    }

    /// The pair at place `k`: the counter `k` steps on from where it
    /// started, and the item at place `k`. There is none behind the last
    /// item, nor where the counter does not fit its type.
    pub fn pair(&self, k: usize) -> (r: Option<(E, &T)>)
        ensures
            match r {
                Some((count, item)) => k < self.iter@.len() && self.count.spec_plus(k as nat) == Some(
                    count,
                ) && *item == self.iter@[k as int],
                None => k >= self.iter@.len() || self.count.spec_plus(k as nat) is None,
            },
    {
        if k >= self.iter.len() {
            return None;
        }
        match self.count.plus(k) {
            Some(count) => Some((count, &self.iter[k])),
            None => None,
        }
    }
}

/// Anything that can be counted through with a typed counter.
pub trait TypedEnum<E: Copy>: Sized {
    fn typed_enumerate(self, first: E) -> (r: TypedEnumerate<Self, E>)
        ensures
            r.iter == self,
            r.count == first,
    ;
}

impl<T, E: Copy> TypedEnum<E> for Vec<T> {
    fn typed_enumerate(self, first: E) -> (r: TypedEnumerate<Self, E>) {
        TypedEnumerate::new(self, first)
    }
}

/// An integer of base type `B` that carries a tag `X`, so that indices into
/// different tables cannot be mixed up. At run time it is the integer.
#[derive(Debug, PartialEq, Eq, PartialOrd, Ord, Hash)]
pub struct TypedInt<B, X>(pub B, pub PhantomData<X>) where B: Copy;

impl<B: Copy, X> Copy for TypedInt<B, X> {

}

impl<B: Copy, X> Clone for TypedInt<B, X> {
    fn clone(&self) -> (r: Self)
        ensures
            r == *self,
    {
        TypedInt(self.0, PhantomData)
    }
}

impl<B: Copy, X> TypedInt<B, X> {
    /// The wrapped integer.
    pub open spec fn value(self) -> B {
        self.0
    }

    /// The typed integer that wraps `inner`.
    pub open spec fn of(inner: B) -> Self {
        TypedInt(inner, PhantomData)
    }

    pub fn new(inner: B) -> (r: Self)
        ensures
            r == Self::of(inner),
    {
        TypedInt(inner, PhantomData)
    }

    pub fn into_inner(self) -> (r: B)
        ensures
            r == self.value(),
    {
        self.0
    }

    pub fn inner(&self) -> (r: &B)
        ensures
            *r == self.value(),
    {
        &self.0
    }

    pub fn inner_mut(&mut self) -> (r: &mut B)
        ensures
            *r == old(self).value(),
            *final(self) == Self::of(*final(r)),
    {
        &mut self.0
    }
}

impl<B: TypedCount, X> TypedCount for TypedInt<B, X> {
    open spec fn spec_plus(self, k: nat) -> Option<Self> {
        match self.0.spec_plus(k) {
            Some(inner) => Some(TypedInt(inner, PhantomData)),
            None => None,
        }
    }

    fn plus(self, k: usize) -> (r: Option<Self>) {
        match self.0.plus(k) {
            Some(inner) => Some(TypedInt(inner, PhantomData)),
            None => None,
        }
    }
}

impl<B: Copy, X> DeepView for TypedInt<B, X> {
    type V = TypedInt<B, X>;

    open spec fn deep_view(&self) -> TypedInt<B, X> {
        *self
    }
}

} // verus!
