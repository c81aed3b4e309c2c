//! Holders for closures that take one argument.

use vstd::prelude::*;

use std::marker::PhantomData;

verus! {

/// A closure of one argument, callable by shared reference, by mutable
/// reference or by value.
pub trait Closure<A, R> {
    type Cons: FnOnce(A) -> R + ?Sized;

    fn call(&self, a: A) -> R;

    fn call_mut(&mut self, a: A) -> R;

    fn call_once(self, a: A) -> R;
}

/// Keeps a closure of type `F` taking an `A`, and hands it back by shared
/// reference, by mutable reference or by value.
pub struct Cons<A, F: 'static + FnOnce(A)> {
    cons: F,
    p1: PhantomData<A>,
}

impl<A, F: 'static + FnOnce(A)> Cons<A, F> {
    /// The closure kept.
    pub closed spec fn inner(&self) -> F {
        self.cons
    }

    pub fn new(cons: F) -> (r: Self)
        ensures
            r.inner() == cons,
    {
        Self { cons, p1: PhantomData }
    }

    pub fn get(&self) -> (r: &F)
        ensures
            *r == self.inner(),
    {
        &self.cons
    }

    pub fn get_mut(&mut self) -> (r: &mut F)
        ensures
            *r == old(self).inner(),
            final(self).inner() == *final(r),
    {
        &mut self.cons
    }

    pub fn get_once(self) -> (r: F)
        ensures
            r == self.inner(),
    {
        self.cons
    }
}

} // verus!
