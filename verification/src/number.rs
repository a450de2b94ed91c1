//! Decimal integers: parsing as `str::parse::<i64>` does, and printing as
//! `i32::to_string` does.
use vstd::prelude::*;

verus! {

/// An ASCII decimal digit.
pub open spec fn is_digit(c: char) -> bool {
    48 <= (c as u32) <= 57
}

/// The value of an ASCII decimal digit.
pub open spec fn digit_value(c: char) -> int {
    (c as u32) - 48
}

/// The value of a string of decimal digits, most significant first.
pub open spec fn digits_value(d: Seq<char>) -> int
    decreases d.len(),
{
    if d.len() == 0 {
        0
    } else {
        10 * digits_value(d.drop_last()) + digit_value(d.last())
    }
}

/// Every character of `d` is a decimal digit.
pub open spec fn all_digits(d: Seq<char>) -> bool {
    forall|i: int| 0 <= i < d.len() ==> is_digit(#[trigger] d[i])
}

/// Splits an optional leading sign off `s`: whether it is negative, and the rest.
pub open spec fn sign_and_digits(s: Seq<char>) -> (bool, Seq<char>) {
    if s.len() > 0 && s[0] == '-' {
        (true, s.drop_first())
    } else if s.len() > 0 && s[0] == '+' {
        (false, s.drop_first())
    } else {
        (false, s)
    }
}

/// What `s.parse::<i64>()` gives: an optional `+` or `-` followed by one or
/// more ASCII digits whose value fits in `i64`; anything else is an error.
pub open spec fn parsed_i64(s: Seq<char>) -> Option<i64> {
    let d = sign_and_digits(s).1;
    let v = if sign_and_digits(s).0 {
        -digits_value(d)
    } else {
        digits_value(d)
    };
    if d.len() == 0 || !all_digits(d) || v < i64::MIN || v > i64::MAX {
        None
    } else {
        Some(v as i64)
    }
}

proof fn lemma_digits_value_prefix(d: Seq<char>, k: int)
    requires
        0 <= k <= d.len(),
        all_digits(d),
    ensures
        0 <= digits_value(d.take(k)) <= digits_value(d),
    decreases d.len() - k,
{
    if k < d.len() {
        lemma_digits_value_prefix(d, k + 1);
        assert(d.take(k + 1).drop_last() =~= d.take(k));
        assert(d.take(k + 1).last() == d[k]);
        assert(is_digit(d[k]));
    } else {
        assert(d.take(k) =~= d);
        lemma_digits_value_nonneg(d);
    }
}

proof fn lemma_digits_value_nonneg(d: Seq<char>)
    requires
        all_digits(d),
    ensures
        digits_value(d) >= 0,
    decreases d.len(),
{
    if d.len() > 0 {
        assert(all_digits(d.drop_last())) by {
            assert forall|i: int| 0 <= i < d.drop_last().len() implies is_digit(
                #[trigger] d.drop_last()[i],
            ) by {
                assert(d.drop_last()[i] == d[i]);
            }
        }
        lemma_digits_value_nonneg(d.drop_last());
        assert(is_digit(d[d.len() - 1]));
    }
}

/// Parses `s` as `s.parse::<i64>()` does.
pub fn parse_i64(s: &str) -> (r: Option<i64>)
    ensures
        r == parsed_i64(s@),
{
    let v = crate::text::chars_of(s);
    let n = v.len();
    let mut start: usize = 0;
    let mut negative = false;
    if n > 0 && v[0] == '-' {
        negative = true;
        start = 1;
    } else if n > 0 && v[0] == '+' {
        start = 1;
    }
    let ghost d = sign_and_digits(s@).1;
    assert(d =~= s@.skip(start as int));
    if start == n {
        return None;
    }
    let mut acc: i64 = 0;
    let mut i: usize = start;
    while i < n
        invariant
            v@ == s@,
            n == s@.len(),
            start <= i <= n,
            d == s@.skip(start as int),
            d == sign_and_digits(s@).1,
            negative == sign_and_digits(s@).0,
            all_digits(d.take(i - start)),
            acc == (if negative {
                -digits_value(d.take(i - start))
            } else {
                digits_value(d.take(i - start))
            }),
        decreases n - i,
    {
        let c = v[i];
        let u = c as u32;
        assert(d[i - start] == c);
        if u < 48 || u > 57 {
            assert(!is_digit(d[i - start]));
            assert(!all_digits(d));
            return None;
        }
        let digit = (u - 48) as i64;
        proof {
            assert(d.take(i - start + 1).drop_last() =~= d.take(i - start));
            assert(d.take(i - start + 1).last() == c);
            assert(all_digits(d.take(i - start + 1))) by {
                assert forall|j: int| 0 <= j < i - start + 1 implies is_digit(
                    #[trigger] d.take(i - start + 1)[j],
                ) by {
                    if j < i - start {
                        assert(d.take(i - start + 1)[j] == d.take(i - start)[j]);
                    }
                }
            }
        }
        let next = if negative {
            match acc.checked_mul(10) {
                Some(t) => t.checked_sub(digit),
                None => None,
            }
        } else {
            match acc.checked_mul(10) {
                Some(t) => t.checked_add(digit),
                None => None,
            }
        };
        match next {
            Some(x) => {
                acc = x;
            },
            None => {
                proof {
                    let k = i - start + 1;
                    lemma_digits_value_nonneg(d.take(i - start));
                    assert(digits_value(d.take(k)) == 10 * digits_value(d.take(k - 1))
                        + digit_value(c));
                    if negative {
                        assert(-digits_value(d.take(k)) < i64::MIN);
                    } else {
                        assert(digits_value(d.take(k)) > i64::MAX);
                    }
                    if all_digits(d) {
                        lemma_digits_value_prefix(d, k);
                    }
                }
                return None;
            },
        }
        i = i + 1;
    }
    assert(d.take(n - start) =~= d);
    Some(acc)
}

/// The ASCII digit for a value below ten.
pub open spec fn digit_char(d: int) -> char {
    (d + 48) as char
}

/// The decimal digits of `n`, most significant first, without leading zeros.
pub open spec fn digits_of(n: nat) -> Seq<char>
    decreases n,
{
    if n < 10 {
        seq![digit_char(n as int)]
    } else {
        digits_of(n / 10).push(digit_char((n % 10) as int))
    }
}

/// `n` in decimal as `i32::to_string` writes it: a `-` for negative values,
/// then the digits of its magnitude.
pub open spec fn decimal(n: int) -> Seq<char> {
    if n < 0 {
        seq!['-'] + digits_of((-n) as nat)
    } else {
        digits_of(n as nat)
    }
}

fn digit_str(d: u32) -> (r: &'static str)
    requires
        d < 10,
    ensures
        r@ == seq![digit_char(d as int)],
{
    proof {
        reveal_strlit("0");
        reveal_strlit("1");
        reveal_strlit("2");
        reveal_strlit("3");
        reveal_strlit("4");
        reveal_strlit("5");
        reveal_strlit("6");
        reveal_strlit("7");
        reveal_strlit("8");
        reveal_strlit("9");
    }
    match d {
        0 => "0",
        1 => "1",
        2 => "2",
        3 => "3",
        4 => "4",
        5 => "5",
        6 => "6",
        7 => "7",
        8 => "8",
        _ => "9",
    }
}

/// The reversed digit characters of `v` (least significant first in `v`).
spec fn rev_digits(v: Seq<u32>) -> Seq<char>
    decreases v.len(),
{
    if v.len() == 0 {
        seq![]
    } else {
        seq![digit_char(v.last() as int)] + rev_digits(v.drop_last())
    }
}

/// `n` in decimal, as `n.to_string()` gives it.
pub fn decimal_string(n: i32) -> (r: String)
    ensures
        r@ == decimal(n as int),
{
    let mag: u32 = if n < 0 {
        (0i64 - (n as i64)) as u32
    } else {
        n as u32
    };
    let ghost whole: nat = if n < 0 {
        (-n) as nat
    } else {
        n as nat
    };
    let mut m: u32 = mag;
    let mut low: Vec<u32> = Vec::new();
    while m >= 10
        invariant
            digits_of(whole) == digits_of(m as nat) + rev_digits(low@),
            forall|i: int| 0 <= i < low@.len() ==> low@[i] < 10,
        decreases m,
    {
        let ghost before = low@;
        low.push(m % 10);
        proof {
            assert(low@.drop_last() =~= before);
            assert(digits_of(m as nat) == digits_of((m / 10) as nat).push(digit_char((m % 10) as int)));
            assert(rev_digits(low@) == seq![digit_char((m % 10) as int)] + rev_digits(before));
            assert(digits_of((m / 10) as nat).push(digit_char((m % 10) as int)) + rev_digits(before)
                =~= digits_of((m / 10) as nat) + rev_digits(low@));
        }
        m = m / 10;
    }
    let mut r = String::new();
    if n < 0 {
        proof {
            reveal_strlit("-");
        }
        r.append("-");
    }
    let ghost prefix = r@;
    r.append(digit_str(m));
    let mut k: usize = low.len();
    assert(low@.take(k as int) =~= low@);
    while k > 0
        invariant
            k <= low@.len(),
            forall|i: int| 0 <= i < low@.len() ==> low@[i] < 10,
            r@ + rev_digits(low@.take(k as int)) == prefix + digits_of(whole),
        decreases k,
    {
        let ghost before = r@;
        r.append(digit_str(low[k - 1]));
        proof {
            let t = low@.take(k as int);
            assert(t.drop_last() =~= low@.take(k - 1));
            assert(t.last() == low@[k - 1]);
            assert(rev_digits(t) == seq![digit_char(low@[k - 1] as int)] + rev_digits(
                low@.take(k - 1),
            ));
            assert(before + rev_digits(t) =~= r@ + rev_digits(low@.take(k - 1)));
        }
        k = k - 1;
    }
    proof {
        assert(rev_digits(low@.take(0)) =~= Seq::<char>::empty());
        assert(r@ =~= prefix + digits_of(whole));
        if n < 0 {
            reveal_strlit("-");
        }
    }
    r
}

} // verus!
