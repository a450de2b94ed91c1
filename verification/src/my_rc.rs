//! A reference-counted shared value.
use vstd::prelude::*;
use std::rc::Rc;

verus! {

/// Calls `Rc::clone`: a new pointer to the same allocation, so to an equal value.
#[verifier::external_body]
fn rc_clone<T>(rc: &Rc<T>) -> (r: Rc<T>)
    ensures
        *r == **rc,
{
    Rc::clone(rc)
}

/// Calls `Rc::strong_count`: the number of strong pointers to the allocation,
/// the one given included, so at least one. How many others exist depends on
/// the rest of the program and is not stated.
#[verifier::external_body]
fn rc_strong_count<T>(rc: &Rc<T>) -> (r: usize)
    ensures
        r >= 1,
{
    Rc::strong_count(rc)
}

/// A shared pointer to a value; clones share the value and its count.
pub struct MyRc<T> {
    data: Rc<T>,
}

impl<T> MyRc<T> {
    /// The value pointed to.
    pub closed spec fn value(&self) -> T {
        *self.data
    }
}

impl<T: Clone> MyRc<T> {
    /// A pointer to a new allocation holding `x`, counted once.
    pub fn new(x: T) -> (r: MyRc<T>)
        ensures
            r.value() == x,
    {
        MyRc { data: Rc::new(x) }
    }

    /// Another pointer to the same value; the shared count grows by one.
    pub fn clone(&mut self) -> (r: Self)
        ensures
            r.value() == old(self).value(),
            final(self).value() == old(self).value(),
    {
        MyRc { data: rc_clone(&self.data) }
    }

    /// The number of pointers that share the value, this one included.
    pub fn strong_conut(&self) -> (r: usize)
        ensures
            r >= 1,
    {
        rc_strong_count(&self.data)
    }
}

impl<T> MyRc<T> {
    /// The value pointed to.
    pub fn deref(&self) -> (r: &T)
        ensures
            *r == self.value(),
    {
        &*self.data
    }
}

} // verus!
