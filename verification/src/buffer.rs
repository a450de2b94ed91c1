//! A buffer of integers that can report the sum of its elements.
use vstd::prelude::*;

verus! {

/// An integer type whose values a buffer can add up.
pub trait Summand: Copy + Sized {
    /// The value as a mathematical integer.
    spec fn value(self) -> int;

    /// The integers that the type can hold.
    spec fn in_range(v: int) -> bool;

    /// Zero, the value that `Default::default()` gives for the type.
    fn zero() -> (r: Self)
        ensures
            r.value() == 0,
    ;

    /// The sum of two values, where it fits in the type.
    fn plus(self, other: Self) -> (r: Self)
        requires
            Self::in_range(self.value() + other.value()),
        ensures
            r.value() == self.value() + other.value(),
    ;
}

impl Summand for i8 {
    open spec fn value(self) -> int {
        self as int
    }

    open spec fn in_range(v: int) -> bool {
        i8::MIN <= v <= i8::MAX
    }

    fn zero() -> (r: Self) {
        0
    }

    fn plus(self, other: Self) -> (r: Self) {
        self + other
    }
}

impl Summand for i16 {
    open spec fn value(self) -> int {
        self as int
    }

    open spec fn in_range(v: int) -> bool {
        i16::MIN <= v <= i16::MAX
    }

    fn zero() -> (r: Self) {
        0
    }

    fn plus(self, other: Self) -> (r: Self) {
        self + other
    }
}

impl Summand for i32 {
    open spec fn value(self) -> int {
        self as int
    }

    open spec fn in_range(v: int) -> bool {
        i32::MIN <= v <= i32::MAX
    }

    fn zero() -> (r: Self) {
        0
    }

    fn plus(self, other: Self) -> (r: Self) {
        self + other
    }
}

impl Summand for i64 {
    open spec fn value(self) -> int {
        self as int
    }

    open spec fn in_range(v: int) -> bool {
        i64::MIN <= v <= i64::MAX
    }

    fn zero() -> (r: Self) {
        0
    }

    fn plus(self, other: Self) -> (r: Self) {
        self + other
    }
}

impl Summand for i128 {
    open spec fn value(self) -> int {
        self as int
    }

    open spec fn in_range(v: int) -> bool {
        i128::MIN <= v <= i128::MAX
    }

    fn zero() -> (r: Self) {
        0
    }

    fn plus(self, other: Self) -> (r: Self) {
        self + other
    }
}

impl Summand for isize {
    open spec fn value(self) -> int {
        self as int
    }

    open spec fn in_range(v: int) -> bool {
        isize::MIN <= v <= isize::MAX
    }

    fn zero() -> (r: Self) {
        0
    }

    fn plus(self, other: Self) -> (r: Self) {
        self + other
    }
}

impl Summand for u8 {
    open spec fn value(self) -> int {
        self as int
    }

    open spec fn in_range(v: int) -> bool {
        u8::MIN <= v <= u8::MAX
    }

    fn zero() -> (r: Self) {
        0
    }

    fn plus(self, other: Self) -> (r: Self) {
        self + other
    }
}

impl Summand for u16 {
    open spec fn value(self) -> int {
        self as int
    }

    open spec fn in_range(v: int) -> bool {
        u16::MIN <= v <= u16::MAX
    }

    fn zero() -> (r: Self) {
        0
    }

    fn plus(self, other: Self) -> (r: Self) {
        self + other
    }
}

impl Summand for u32 {
    open spec fn value(self) -> int {
        self as int
    }

    open spec fn in_range(v: int) -> bool {
        u32::MIN <= v <= u32::MAX
    }

    fn zero() -> (r: Self) {
        0
    }

    fn plus(self, other: Self) -> (r: Self) {
        self + other
    }
}

impl Summand for u64 {
    open spec fn value(self) -> int {
        self as int
    }

    open spec fn in_range(v: int) -> bool {
        u64::MIN <= v <= u64::MAX
    }

    fn zero() -> (r: Self) {
        0
    }

    fn plus(self, other: Self) -> (r: Self) {
        self + other
    }
}

impl Summand for u128 {
    open spec fn value(self) -> int {
        self as int
    }

    open spec fn in_range(v: int) -> bool {
        u128::MIN <= v <= u128::MAX
    }

    fn zero() -> (r: Self) {
        0
    }

    fn plus(self, other: Self) -> (r: Self) {
        self + other
    }
}

impl Summand for usize {
    open spec fn value(self) -> int {
        self as int
    }

    open spec fn in_range(v: int) -> bool {
        usize::MIN <= v <= usize::MAX
    }

    fn zero() -> (r: Self) {
        0
    }

    fn plus(self, other: Self) -> (r: Self) {
        self + other
    }
}

/// The sum of the elements of `s`.
pub open spec fn seq_sum<T: Summand>(s: Seq<T>) -> int
    decreases s.len(),
{
    if s.len() == 0 {
        0
    } else {
        seq_sum(s.drop_last()) + s.last().value()
    }
}

/// Every running sum of `s`, from the left, fits in the element type.
pub open spec fn sums_fit<T: Summand>(s: Seq<T>) -> bool {
    forall|k: int| 0 <= k <= s.len() ==> T::in_range(#[trigger] seq_sum(s.take(k)))
}

/// A buffer of integer values. Floating-point values cannot be summed here:
/// the element type must be one of the integer types that implement `Summand`.
pub struct Buffer<T: Summand> {
    vec_t: Vec<T>,
}

impl<T: Summand> View for Buffer<T> {
    type V = Seq<T>;

    closed spec fn view(&self) -> Seq<T> {
        self.vec_t@
    }
}

impl<T: Summand> Buffer<T> {
    /// A buffer holding `vec_t`.
    pub fn new(vec_t: Vec<T>) -> (r: Buffer<T>)
        ensures
            r@ == vec_t@,
    {
        Buffer { vec_t }
    }

    /// The sum of the elements, adding from the first to the last.
    pub fn sum_t(&self) -> (r: T)
        requires
            sums_fit(self@),
        ensures
            r.value() == seq_sum(self@),
    {
        let mut sum: T = T::zero();
        let mut i: usize = 0;
        assert(self.vec_t@.take(0) =~= Seq::<T>::empty());
        while i < self.vec_t.len()
            invariant
                i <= self.vec_t@.len(),
                sums_fit(self.vec_t@),
                sum.value() == seq_sum(self.vec_t@.take(i as int)),
            decreases self.vec_t@.len() - i,
        {
            proof {
                let t = self.vec_t@.take(i + 1);
                assert(t.drop_last() =~= self.vec_t@.take(i as int));
                assert(t.last() == self.vec_t@[i as int]);
                assert(T::in_range(seq_sum(t)));
            }
            sum = sum.plus(self.vec_t[i]);
            i = i + 1;
        }
        assert(self.vec_t@.take(self.vec_t@.len() as int) =~= self.vec_t@);
        sum
    }
}

/// The sum of two buffers joined is the sum of their sums.
pub proof fn law_sum_concat<T: Summand>(a: Seq<T>, b: Seq<T>)
    ensures
        seq_sum(a + b) == seq_sum(a) + seq_sum(b),
    decreases b.len(),
{
    if b.len() == 0 {
        assert(a + b =~= a);
    } else {
        law_sum_concat(a, b.drop_last());
        assert((a + b).drop_last() =~= a + b.drop_last());
        assert((a + b).last() == b.last());
    }
}

proof fn lemma_sum_remove<T: Summand>(s: Seq<T>, i: int)
    requires
        0 <= i < s.len(),
    ensures
        seq_sum(s) == seq_sum(s.remove(i)) + s[i].value(),
{
    let front = s.take(i);
    let back = s.skip(i + 1);
    assert(s =~= front + (seq![s[i]] + back));
    assert(s.remove(i) =~= front + back);
    law_sum_concat(front, seq![s[i]] + back);
    law_sum_concat(seq![s[i]], back);
    law_sum_concat(front, back);
    let single = seq![s[i]];
    assert(single.drop_last() =~= Seq::<T>::empty());
    assert(seq_sum(Seq::<T>::empty()) == 0);
    assert(single.last() == s[i]);
    assert(seq_sum(single) == s[i].value());
}

/// The sum does not depend on the order of the elements: buffers holding the
/// same elements, each as often, have the same sum.
pub proof fn law_sum_permutation<T: Summand>(a: Seq<T>, b: Seq<T>)
    requires
        a.to_multiset() == b.to_multiset(),
    ensures
        seq_sum(a) == seq_sum(b),
    decreases a.len(),
{
    broadcast use vstd::seq_lib::group_to_multiset_ensures, vstd::multiset::group_multiset_axioms;

    if a.len() == 0 {
        assert(b.to_multiset().len() == 0);
        assert(b.len() == 0);
    } else {
        let x = a.last();
        let init = a.drop_last();
        assert(init.push(x) =~= a);
        assert(a.to_multiset() == init.to_multiset().insert(x));
        assert(b.to_multiset().count(x) > 0);
        assert(b.contains(x));
        let j = choose|j: int| 0 <= j < b.len() && b[j] == x;
        let rest = b.remove(j);
        assert(rest.to_multiset() == b.to_multiset().remove(x));
        assert(rest.to_multiset() =~= init.to_multiset());
        law_sum_permutation(init, rest);
        lemma_sum_remove(b, j);
    }
}

} // verus!
