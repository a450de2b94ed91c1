//! Comparing two strings in the lexicographic order of their bytes.
use vstd::prelude::*;
use vstd::string::StringSliceAdditionalSpecFns;
use vstd::utf8::encode_utf8;

verus! {

/// `a` is greater than `b` at index `i`: they agree before `i`, and at `i`
/// either `b` has ended or `a`'s byte is larger.
pub open spec fn greater_at(a: Seq<u8>, b: Seq<u8>, i: int) -> bool {
    &&& 0 <= i < a.len()
    &&& i <= b.len()
    &&& forall|j: int| 0 <= j < i ==> a[j] == b[j]
    &&& (i == b.len() || a[i] > b[i])
}

/// `a > b` in the lexicographic order on bytes, the order of `str`'s `Ord`:
/// at the first index where they differ, `a`'s byte is larger or `b` has ended.
pub open spec fn lex_greater(a: Seq<u8>, b: Seq<u8>) -> bool {
    exists|i: int| greater_at(a, b, i)
}

/// Whether `x` is greater than `y` in the lexicographic order of their bytes.
pub fn compare_str(x: &str, y: &str) -> (r: bool)
    ensures
        r == lex_greater(encode_utf8(x@), encode_utf8(y@)),
{
    let bytes_x = x.as_bytes();
    let bytes_y = y.as_bytes();
    let min_len = if bytes_x.len() > bytes_y.len() {
        bytes_y.len()
    } else {
        bytes_x.len()
    };
    let mut i: usize = 0;
    while i < min_len
        invariant
            bytes_x@ == x.spec_bytes(),
            bytes_y@ == y.spec_bytes(),
            min_len <= bytes_x@.len(),
            min_len <= bytes_y@.len(),
            min_len == bytes_x@.len() || min_len == bytes_y@.len(),
            i <= min_len,
            forall|j: int| 0 <= j < i ==> bytes_x@[j] == bytes_y@[j],
        decreases min_len - i,
    {
        let byte_x = bytes_x[i];
        let byte_y = bytes_y[i];
        if byte_x > byte_y {
            assert(greater_at(bytes_x@, bytes_y@, i as int));
            return true;
        } else if byte_x < byte_y {
            assert forall|k: int| !greater_at(bytes_x@, bytes_y@, k) by {
                if greater_at(bytes_x@, bytes_y@, k) {
                    if k > i {
                        assert(bytes_x@[i as int] == bytes_y@[i as int]);
                    } else if k < i {
                        assert(bytes_x@[k] == bytes_y@[k]);
                    }
                }
            }
            return false;
        }
        i = i + 1;
    }
    if bytes_x.len() > bytes_y.len() {
        assert(greater_at(bytes_x@, bytes_y@, bytes_y@.len() as int));
        true
    } else {
        assert forall|k: int| !greater_at(bytes_x@, bytes_y@, k) by {
            if greater_at(bytes_x@, bytes_y@, k) {
                assert(bytes_x@[k] == bytes_y@[k]);
            }
        }
        false
    }
}

/// Of two strings, at most one is greater than the other.
pub proof fn law_asymmetric(a: Seq<u8>, b: Seq<u8>)
    ensures
        !(lex_greater(a, b) && lex_greater(b, a)),
{
    if lex_greater(a, b) && lex_greater(b, a) {
        let i = choose|i: int| greater_at(a, b, i);
        let j = choose|j: int| greater_at(b, a, j);
        if i < j {
            assert(b[i] == a[i]);
        } else if j < i {
            assert(a[j] == b[j]);
        }
    }
}

/// No string is greater than itself.
pub proof fn law_irreflexive(a: Seq<u8>)
    ensures
        !lex_greater(a, a),
{
    law_asymmetric(a, a);
}

/// Greater-than is transitive.
pub proof fn law_transitive(a: Seq<u8>, b: Seq<u8>, c: Seq<u8>)
    requires
        lex_greater(a, b),
        lex_greater(b, c),
    ensures
        lex_greater(a, c),
{
    let i = choose|i: int| greater_at(a, b, i);
    let j = choose|j: int| greater_at(b, c, j);
    let k = if i < j {
        i
    } else {
        j
    };
    assert forall|l: int| 0 <= l < k implies a[l] == c[l] by {
        assert(a[l] == b[l]);
        assert(b[l] == c[l]);
    }
    if i < j {
        assert(b[i] == c[i]);
    } else if j < i {
        assert(a[j] == b[j]);
    }
    assert(greater_at(a, c, k));
}

/// Any two different strings are ordered one way or the other, so a `false`
/// answer means the first string is less than or equal to the second.
#[verifier::spinoff_prover]
pub proof fn law_total(a: Seq<u8>, b: Seq<u8>)
    ensures
        a == b || lex_greater(a, b) || lex_greater(b, a),
    decreases a.len(),
{
    if a.len() == 0 || b.len() == 0 {
        if a.len() > 0 {
            assert(greater_at(a, b, 0));
        } else if b.len() > 0 {
            assert(greater_at(b, a, 0));
        } else {
            assert(a =~= b);
        }
    } else if a[0] != b[0] {
        if a[0] > b[0] {
            assert(greater_at(a, b, 0));
        } else {
            assert(greater_at(b, a, 0));
        }
    } else {
        let a1 = a.drop_first();
        let b1 = b.drop_first();
        law_total(a1, b1);
        if a1 == b1 {
            lemma_same_head_and_tail(a, b);
        } else if lex_greater(a1, b1) {
            let i = choose|i: int| greater_at(a1, b1, i);
            lemma_greater_after_same_head(a, b, i);
        } else {
            let i = choose|i: int| greater_at(b1, a1, i);
            lemma_greater_after_same_head(b, a, i);
        }
    }
}

/// Two nonempty sequences with the same first byte and the same rest are equal.
proof fn lemma_same_head_and_tail(a: Seq<u8>, b: Seq<u8>)
    requires
        a.len() > 0,
        b.len() > 0,
        a[0] == b[0],
        a.drop_first() == b.drop_first(),
    ensures
        a == b,
{
    assert(a.drop_first().len() == a.len() - 1);
    assert(b.drop_first().len() == b.len() - 1);
    assert(a.len() == b.len());
    assert forall|l: int| 0 <= l < a.len() implies a[l] == b[l] by {
        if l > 0 {
            assert(a[l] == a.drop_first()[l - 1]);
            assert(b[l] == b.drop_first()[l - 1]);
        }
    }
    assert(a =~= b);
}

/// With the same first byte, being greater at `i` in the rests means being
/// greater at `i + 1` in the whole.
proof fn lemma_greater_after_same_head(a: Seq<u8>, b: Seq<u8>, i: int)
    requires
        a.len() > 0,
        b.len() > 0,
        a[0] == b[0],
        greater_at(a.drop_first(), b.drop_first(), i),
    ensures
        greater_at(a, b, i + 1),
{
    let a1 = a.drop_first();
    let b1 = b.drop_first();
    assert forall|l: int| 0 <= l < i + 1 implies a[l] == b[l] by {
        if l > 0 {
            assert(a[l] == a1[l - 1]);
            assert(b[l] == b1[l - 1]);
            assert(a1[l - 1] == b1[l - 1]);
        }
    }
    if i + 1 < b.len() {
        assert(a[i + 1] == a1[i]);
        assert(b[i + 1] == b1[i]);
    }
}

} // verus!
