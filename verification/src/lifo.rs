//! A last-in, first-out stack.
use vstd::prelude::*;

verus! {

/// Popping the stack `s` (top last): what is left, and the top if any.
pub open spec fn pop_spec<T>(s: Seq<T>) -> (Seq<T>, Option<T>) {
    if s.len() == 0 {
        (s, None)
    } else {
        (s.drop_last(), Some(s.last()))
    }
}

/// A stack; its view lists the elements from bottom to top.
pub struct StackLifo<T> {
    stack: Vec<T>,
}

impl<T> View for StackLifo<T> {
    type V = Seq<T>;

    closed spec fn view(&self) -> Seq<T> {
        self.stack@
    }
}

impl<T> StackLifo<T> {
    /// An empty stack.
    pub fn new() -> (r: StackLifo<T>)
        ensures
            r@ == Seq::<T>::empty(),
    {
        StackLifo { stack: Vec::new() }
    }

    /// Puts `value` on top.
    pub fn push(&mut self, value: T)
        ensures
            final(self)@ == old(self)@.push(value),
    {
        self.stack.push(value);
    }

    /// Takes the top element off, if there is one.
    pub fn pop(&mut self) -> (r: Option<T>)
        ensures
            (final(self)@, r) == pop_spec(old(self)@),
    {
        self.stack.pop()
    }
}

/// Popping right after pushing gives back the pushed value and the stack as
/// it was.
pub proof fn law_pop_undoes_push<T>(s: Seq<T>, value: T)
    ensures
        pop_spec(s.push(value)) == (s, Some(value)),
{
    assert(s.push(value).drop_last() =~= s);
}

/// Popping an empty stack gives nothing and leaves it empty.
pub proof fn law_pop_empty<T>()
    ensures
        pop_spec(Seq::<T>::empty()) == (Seq::<T>::empty(), None::<T>),
{
}

} // verus!
