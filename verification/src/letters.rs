//! Moving each letter to the next one, with `z` (and anything past it) going
//! round to `a`.
use vstd::prelude::*;

verus! {

/// A `u32` that is a Unicode scalar value, the values `char::from_u32` accepts.
pub open spec fn is_scalar(u: u32) -> bool {
    u < 0xD800 || (0xE000 <= u && u <= 0x10FFFF)
}

/// Calls `char::from_u32`: the character with code `u`, or `None` when `u` is
/// a surrogate or above `0x10FFFF`.
#[verifier::external_body]
fn char_from_u32(u: u32) -> (r: Option<char>)
    ensures
        r == (if is_scalar(u) {
            Some(u as char)
        } else {
            None
        }),
{
    char::from_u32(u)
}

/// The code that `c` moves to: one more, or `a` when that passes `z`.
pub open spec fn next_code(c: char) -> u32 {
    if (c as u32) + 1 > 122 {
        97
    } else {
        ((c as u32) + 1) as u32
    }
}

/// Every character moved on, or `None` if some moved code is no character.
pub open spec fn next_letters_spec(v: Seq<char>) -> Option<Seq<char>> {
    if forall|i: int| 0 <= i < v.len() ==> is_scalar(next_code(#[trigger] v[i])) {
        Some(v.map_values(|c: char| next_code(c) as char))
    } else {
        None
    }
}

/// Moves every character of `v` to the next one.
pub fn next_letters(v: &Vec<char>) -> (r: Option<Vec<char>>)
    ensures
        r is Some == next_letters_spec(v@) is Some,
        r matches Some(w) ==> w@ == next_letters_spec(v@)->0,
{
    let mut out: Vec<char> = Vec::new();
    let mut i: usize = 0;
    while i < v.len()
        invariant
            i <= v@.len(),
            out@ == v@.take(i as int).map_values(|c: char| next_code(c) as char),
            forall|j: int| 0 <= j < i ==> is_scalar(next_code(#[trigger] v@[j])),
        decreases v@.len() - i,
    {
        let u = v[i] as u32;
        let code: u32 = if u >= 122 {
            97
        } else {
            u + 1
        };
        match char_from_u32(code) {
            Some(c) => {
                out.push(c);
                assert(out@ =~= v@.take(i + 1).map_values(|c: char| next_code(c) as char));
            },
            None => {
                return None;
            },
        }
        i = i + 1;
    }
    assert(v@.take(v@.len() as int) =~= v@);
    Some(out)
}

/// Every character moves to one in `'\u{1}'..='z'`, so the result is never `None`.
pub proof fn law_always_letters(v: Seq<char>)
    ensures
        next_letters_spec(v) is Some,
        forall|i: int| 0 <= i < v.len() ==> 1 <= #[trigger] next_code(v[i]) <= 122,
{
}

/// Each character moves to the character whose code is one higher, except
/// that any character from `z` (code 122) upward moves to `a` (code 97).
pub proof fn law_next_letter(v: Seq<char>)
    ensures
        next_letters_spec(v) is Some,
        next_letters_spec(v)->0.len() == v.len(),
        forall|i: int|
            0 <= i < v.len() && (v[i] as u32) < 122 ==> (#[trigger] next_letters_spec(v)->0[i]
                as u32) == (v[i] as u32) + 1,
        forall|i: int|
            0 <= i < v.len() && (v[i] as u32) >= 122 ==> (#[trigger] next_letters_spec(v)->0[i]
                as u32) == 97,
{
    law_always_letters(v);
}

} // verus!
