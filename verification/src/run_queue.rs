//! A first-in, first-out queue of runnable tasks.
use vstd::prelude::*;
use std::collections::VecDeque;

verus! {

/// Taking the oldest element off the queue `q` (oldest first): what is left,
/// and that element if any.
pub open spec fn pop_front_spec<T>(q: Seq<T>) -> (Seq<T>, Option<T>) {
    if q.len() == 0 {
        (q, None)
    } else {
        (q.drop_first(), Some(q[0]))
    }
}

/// A queue; its view lists the elements from oldest to newest.
pub struct RunQueue<T> {
    queue: VecDeque<T>,
}

impl<T> View for RunQueue<T> {
    type V = Seq<T>;

    closed spec fn view(&self) -> Seq<T> {
        self.queue@
    }
}

impl<T> RunQueue<T> {
    /// An empty queue, with room for 1024 tasks before it grows.
    pub fn new() -> (r: Self)
        ensures
            r@ == Seq::<T>::empty(),
    {
        RunQueue { queue: VecDeque::with_capacity(1024) }
    }

    /// Adds `task` as the newest element.
    pub fn push(&mut self, task: T)
        ensures
            final(self)@ == old(self)@.push(task),
    {
        self.queue.push_back(task);
    }

    /// Takes the oldest element, if any.
    pub fn pop(&mut self) -> (r: Option<T>)
        ensures
            (final(self)@, r) == pop_front_spec(old(self)@),
    {
        let r = self.queue.pop_front();
        proof {
            if old(self)@.len() > 0 {
                assert(old(self)@.subrange(1, old(self)@.len() as int) =~= old(self)@.drop_first());
            }
        }
        r
    }

    /// The number of queued elements.
    pub fn len(&self) -> (r: usize)
        ensures
            r == self@.len(),
    {
        self.queue.len()
    }
}

/// Tasks leave in the order they arrived: a pushed task comes out only after
/// every task that was queued before it.
pub proof fn law_fifo<T>(q: Seq<T>, task: T)
    ensures
        pop_front_spec(q.push(task)) == (if q.len() == 0 {
            (q, Some(task))
        } else {
            (pop_front_spec(q).0.push(task), pop_front_spec(q).1)
        }),
{
    if q.len() == 0 {
        assert(q.push(task).drop_first() =~= q);
    } else {
        assert(q.push(task).drop_first() =~= q.drop_first().push(task));
    }
}

} // verus!
