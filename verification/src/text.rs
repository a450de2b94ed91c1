//! Character-level text helpers: whitespace, trimming, splitting, searching,
//! and decimal conversion, each specified over `Seq<char>`.
use vstd::prelude::*;

verus! {

/// The Unicode `White_Space` property: the characters that `str::trim`
/// and `str::split_whitespace` treat as whitespace.
pub open spec fn is_white_space(c: char) -> bool {
    let u = c as u32;
    ||| 0x09 <= u <= 0x0D
    ||| u == 0x20
    ||| u == 0x85
    ||| u == 0xA0
    ||| u == 0x1680
    ||| 0x2000 <= u <= 0x200A
    ||| u == 0x2028
    ||| u == 0x2029
    ||| u == 0x202F
    ||| u == 0x205F
    ||| u == 0x3000
}

/// Decides `is_white_space`.
pub fn white_space(c: char) -> (r: bool)
    ensures
        r == is_white_space(c),
{
    let u = c as u32;
    (0x09 <= u && u <= 0x0D) || u == 0x20 || u == 0x85 || u == 0xA0 || u == 0x1680 || (0x2000
        <= u && u <= 0x200A) || u == 0x2028 || u == 0x2029 || u == 0x202F || u == 0x205F || u
        == 0x3000
}

/// The characters of `s`, in order.
pub fn chars_of(s: &str) -> (v: Vec<char>)
    ensures
        v@ == s@,
{
    let n = s.unicode_len();
    let mut v: Vec<char> = Vec::new();
    let mut i: usize = 0;
    while i < n
        invariant
            n == s@.len(),
            i <= n,
            v@ == s@.take(i as int),
        decreases n - i,
    {
        let c = s.get_char(i);
        v.push(c);
        i = i + 1;
        assert(v@ =~= s@.take(i as int));
    }
    assert(v@ =~= s@);
    v
}

/// `s` without its leading whitespace.
pub open spec fn trim_start(s: Seq<char>) -> Seq<char>
    decreases s.len(),
{
    if s.len() > 0 && is_white_space(s[0]) {
        trim_start(s.drop_first())
    } else {
        s
    }
}

/// `s` without its trailing whitespace.
pub open spec fn trim_end(s: Seq<char>) -> Seq<char>
    decreases s.len(),
{
    if s.len() > 0 && is_white_space(s.last()) {
        trim_end(s.drop_last())
    } else {
        s
    }
}

/// `s` without leading and trailing whitespace, as `str::trim` gives it.
pub open spec fn trimmed(s: Seq<char>) -> Seq<char> {
    trim_end(trim_start(s))
}

proof fn lemma_trim_start_skip(s: Seq<char>, i: int)
    requires
        0 <= i <= s.len(),
        forall|j: int| 0 <= j < i ==> is_white_space(#[trigger] s[j]),
    ensures
        trim_start(s) == trim_start(s.skip(i)),
    decreases i,
{
    if i > 0 {
        assert(s.drop_first().skip(i - 1) =~= s.skip(i));
        lemma_trim_start_skip(s.drop_first(), i - 1);
    } else {
        assert(s.skip(0) =~= s);
    }
}

proof fn lemma_trim_end_take(s: Seq<char>, j: int)
    requires
        0 <= j <= s.len(),
        forall|k: int| j <= k < s.len() ==> is_white_space(#[trigger] s[k]),
    ensures
        trim_end(s) == trim_end(s.take(j)),
    decreases s.len() - j,
{
    if j < s.len() {
        assert(s.drop_last().take(j) =~= s.take(j));
        lemma_trim_end_take(s.drop_last(), j);
    } else {
        assert(s.take(j) =~= s);
    }
}

/// `s` with leading and trailing whitespace removed.
pub fn trim(s: &str) -> (r: &str)
    ensures
        r@ == trimmed(s@),
{
    let v = chars_of(s);
    let n = v.len();
    let mut i: usize = 0;
    while i < n && white_space(v[i])
        invariant
            v@ == s@,
            n == v@.len(),
            i <= n,
            forall|k: int| 0 <= k < i ==> is_white_space(#[trigger] s@[k]),
        decreases n - i,
    {
        i = i + 1;
    }
    proof {
        lemma_trim_start_skip(s@, i as int);
    }
    let mut j: usize = n;
    while j > i && white_space(v[j - 1])
        invariant
            v@ == s@,
            n == v@.len(),
            i <= j <= n,
            forall|k: int| j <= k < n ==> is_white_space(#[trigger] s@[k]),
        decreases j,
    {
        j = j - 1;
    }
    proof {
        let t = s@.skip(i as int);
        assert(trim_start(t) == t);
        lemma_trim_end_take(t, j - i);
        assert(t.take(j - i) =~= s@.subrange(i as int, j as int));
        let u = s@.subrange(i as int, j as int);
        if u.len() > 0 {
            assert(u.last() == s@[j - 1]);
        }
        assert(trim_end(u) == u);
    }
    s.substring_char(i, j)
}


/// Index of the first `c` in `s`, or `s.len()` when `s` holds no `c`.
pub open spec fn find_char(s: Seq<char>, c: char) -> int
    decreases s.len(),
{
    if s.len() == 0 {
        0
    } else if s[0] == c {
        0
    } else {
        1 + find_char(s.drop_first(), c)
    }
}

/// `find_char` lies in `0..=len`, is `len` exactly when `c` is absent,
/// and no earlier character is `c`.
pub proof fn lemma_find_char(s: Seq<char>, c: char)
    ensures
        0 <= find_char(s, c) <= s.len(),
        find_char(s, c) < s.len() ==> s[find_char(s, c)] == c,
        forall|j: int| 0 <= j < find_char(s, c) ==> s[j] != c,
    decreases s.len(),
{
    if s.len() > 0 && s[0] != c {
        lemma_find_char(s.drop_first(), c);
        assert forall|j: int| 0 <= j < find_char(s, c) implies s[j] != c by {
            if j > 0 {
                assert(s[j] == s.drop_first()[j - 1]);
            }
        }
    }
}

proof fn lemma_find_char_at(s: Seq<char>, c: char, k: int)
    requires
        0 <= k <= s.len(),
        k < s.len() ==> s[k] == c,
        forall|j: int| 0 <= j < k ==> s[j] != c,
    ensures
        find_char(s, c) == k,
    decreases k,
{
    if k > 0 {
        lemma_find_char_at(s.drop_first(), c, k - 1);
    }
}

/// The index of the first `c` in `v`, or its length.
fn position(v: &Vec<char>, c: char) -> (r: usize)
    ensures
        r == find_char(v@, c),
{
    let mut i: usize = 0;
    while i < v.len() && v[i] != c
        invariant
            i <= v.len(),
            forall|j: int| 0 <= j < i ==> v@[j] != c,
        decreases v.len() - i,
    {
        i = i + 1;
    }
    proof {
        lemma_find_char_at(v@, c, i as int);
    }
    i
}

/// `s.splitn(2, c)`: the text before the first `c`, and the text after it
/// when there is one.
pub open spec fn split_once(s: Seq<char>, c: char) -> (Seq<char>, Option<Seq<char>>) {
    let i = find_char(s, c);
    if i < s.len() {
        (s.take(i), Some(s.skip(i + 1)))
    } else {
        (s, None)
    }
}

/// Splits `s` at its first `c`, as `s.splitn(2, c)` yields its two pieces.
pub fn split_once_at(s: &str, c: char) -> (r: (&str, Option<&str>))
    ensures
        r.0@ == split_once(s@, c).0,
        r.1 is Some == split_once(s@, c).1 is Some,
        r.1 matches Some(t) ==> t@ == split_once(s@, c).1->0,
{
    let v = chars_of(s);
    let n = v.len();
    let i = position(&v, c);
    proof {
        lemma_find_char(s@, c);
    }
    if i < n {
        (s.substring_char(0, i), Some(s.substring_char(i + 1, n)))
    } else {
        proof {
            assert(s@.subrange(0, n as int) =~= s@);
        }
        (s.substring_char(0, n), None)
    }
}


/// Length of the run of non-whitespace characters that starts `s`.
pub open spec fn word_len(s: Seq<char>) -> nat
    decreases s.len(),
{
    if s.len() == 0 || is_white_space(s[0]) {
        0
    } else {
        1 + word_len(s.drop_first())
    }
}

/// A word is no longer than the text and, where the text starts with a
/// non-whitespace character, is not empty.
pub proof fn lemma_word_len(s: Seq<char>)
    ensures
        word_len(s) <= s.len(),
        s.len() > 0 && !is_white_space(s[0]) ==> word_len(s) >= 1,
    decreases s.len(),
{
    if s.len() > 0 && !is_white_space(s[0]) {
        lemma_word_len(s.drop_first());
    }
}

proof fn lemma_word_len_at(s: Seq<char>, k: int)
    requires
        0 <= k <= s.len(),
        k < s.len() ==> is_white_space(s[k]),
        forall|j: int| 0 <= j < k ==> !is_white_space(#[trigger] s[j]),
    ensures
        word_len(s) == k,
    decreases k,
{
    if k > 0 {
        assert forall|j: int| 0 <= j < k - 1 implies !is_white_space(
            #[trigger] s.drop_first()[j],
        ) by {
            assert(s.drop_first()[j] == s[j + 1]);
        }
        lemma_word_len_at(s.drop_first(), k - 1);
    }
}

/// The whitespace-separated words of `s`, in order, as `str::split_whitespace`
/// yields them.
pub open spec fn words(s: Seq<char>) -> Seq<Seq<char>>
    decreases s.len(),
{
    if s.len() == 0 {
        seq![]
    } else if is_white_space(s[0]) {
        words(s.drop_first())
    } else {
        let n = word_len(s);
        proof {
            lemma_word_len(s);
        }
        seq![s.take(n as int)] + words(s.skip(n as int))
    }
}

/// The views of a sequence of strings.
pub open spec fn views(v: Seq<String>) -> Seq<Seq<char>> {
    v.map_values(|w: String| w@)
}

/// The whitespace-separated words of `s`.
pub fn split_words(s: &str) -> (r: Vec<String>)
    ensures
        views(r@) == words(s@),
{
    let v = chars_of(s);
    let n = v.len();
    let mut out: Vec<String> = Vec::new();
    let mut i: usize = 0;
    assert(s@.skip(0) =~= s@);
    while i < n
        invariant
            v@ == s@,
            n == s@.len(),
            i <= n,
            views(out@) + words(s@.skip(i as int)) == words(s@),
        decreases n - i,
    {
        let ghost t = s@.skip(i as int);
        if white_space(v[i]) {
            proof {
                assert(t.drop_first() =~= s@.skip(i + 1));
            }
            i = i + 1;
        } else {
            let mut j: usize = i + 1;
            while j < n && !white_space(v[j])
                invariant
                    v@ == s@,
                    n == s@.len(),
                    i < j <= n,
                    forall|k: int| i <= k < j ==> !is_white_space(#[trigger] s@[k]),
                decreases n - j,
            {
                j = j + 1;
            }
            proof {
                assert forall|k: int| 0 <= k < j - i implies !is_white_space(#[trigger] t[k]) by {
                    assert(t[k] == s@[i + k]);
                }
                if j < n {
                    assert(t[j - i] == s@[j as int]);
                }
                lemma_word_len_at(t, j - i);
                assert(t.take(j - i) =~= s@.subrange(i as int, j as int));
                assert(t.skip(j - i) =~= s@.skip(j as int));
            }
            let w = String::from_str(s.substring_char(i, j));
            let ghost before = out@;
            out.push(w);
            proof {
                assert(views(out@) =~= views(before).push(w@));
                assert(views(out@) + words(s@.skip(j as int)) =~= views(before) + (seq![w@]
                    + words(s@.skip(j as int))));
            }
            i = j;
        }
    }
    proof {
        assert(s@.skip(n as int) =~= Seq::<char>::empty());
        assert(views(out@) + Seq::<Seq<char>>::empty() =~= views(out@));
    }
    out
}

/// `p` appears in `s` starting at index `i`.
pub open spec fn occurs_at(s: Seq<char>, p: Seq<char>, i: int) -> bool {
    0 <= i && i + p.len() <= s.len() && s.subrange(i, i + p.len()) == p
}

/// `p` appears somewhere in `s`, as `str::contains` decides it.
pub open spec fn contains(s: Seq<char>, p: Seq<char>) -> bool {
    exists|i: int| occurs_at(s, p, i)
}

/// Whether `p` appears in `s`.
pub fn contains_str(s: &str, p: &str) -> (r: bool)
    ensures
        r == contains(s@, p@),
{
    let v = chars_of(s);
    let w = chars_of(p);
    let n = v.len();
    let m = w.len();
    if m > n {
        assert forall|i: int| !occurs_at(s@, p@, i) by {}
        return false;
    }
    let mut i: usize = 0;
    while i <= n - m
        invariant
            v@ == s@,
            w@ == p@,
            n == s@.len(),
            m == p@.len(),
            m <= n,
            i <= n - m + 1,
            forall|j: int| 0 <= j < i ==> !occurs_at(s@, p@, j),
        decreases n - m + 1 - i,
    {
        let mut k: usize = 0;
        while k < m && v[i + k] == w[k]
            invariant
                v@ == s@,
                w@ == p@,
                n == s@.len(),
                m == p@.len(),
                i + m <= n,
                k <= m,
                forall|l: int| 0 <= l < k ==> s@[i + l] == p@[l],
            decreases m - k,
        {
            k = k + 1;
        }
        if k == m {
            assert(s@.subrange(i as int, i + m) =~= p@);
            assert(occurs_at(s@, p@, i as int));
            return true;
        }
        assert(!occurs_at(s@, p@, i as int)) by {
            if occurs_at(s@, p@, i as int) {
                assert(s@.subrange(i as int, i + m)[k as int] == s@[i + k]);
            }
        }
        i = i + 1;
    }
    assert forall|j: int| !occurs_at(s@, p@, j) by {
        if 0 <= j < i {
        }
    }
    false
}


/// Whether `a` and `b` hold the same characters.
pub fn str_eq(a: &str, b: &str) -> (r: bool)
    ensures
        r == (a@ == b@),
{
    let v = chars_of(a);
    let w = chars_of(b);
    if v.len() != w.len() {
        return false;
    }
    let mut i: usize = 0;
    while i < v.len()
        invariant
            v@ == a@,
            w@ == b@,
            v@.len() == w@.len(),
            i <= v@.len(),
            forall|j: int| 0 <= j < i ==> v@[j] == w@[j],
        decreases v@.len() - i,
    {
        if v[i] != w[i] {
            return false;
        }
        i = i + 1;
    }
    assert(a@ =~= b@);
    true
}


/// The code `u` with an ASCII capital letter (`A`..=`Z`) lowered to its small
/// letter; every other code is left as it is. On ASCII text this is what
/// Unicode lowercasing does.
pub open spec fn ascii_lower_code(u: u32) -> u32 {
    if 65 <= u <= 90 {
        (u + 32) as u32
    } else {
        u
    }
}

/// Every character of `s` is ASCII.
pub open spec fn all_ascii(s: Seq<char>) -> bool {
    forall|i: int| 0 <= i < s.len() ==> ((#[trigger] s[i]) as u32) < 128
}

/// Lowering the ASCII capitals of `s` gives `k`.
pub open spec fn lowers_to(s: Seq<char>, k: Seq<char>) -> bool {
    s.len() == k.len() && forall|i: int|
        0 <= i < s.len() ==> ascii_lower_code((#[trigger] s[i]) as u32) == k[i] as u32
}

/// `p` occurs in `s` once the ASCII capitals of `s` are lowered.
pub open spec fn contains_lowered(s: Seq<char>, p: Seq<char>) -> bool {
    exists|i: int| 0 <= i && i + p.len() <= s.len() && #[trigger] lowers_to(s.subrange(i, i + p.len()), p)
}

/// Whether every character of `s` is ASCII.
pub fn is_ascii_text(s: &str) -> (r: bool)
    ensures
        r == all_ascii(s@),
{
    let v = chars_of(s);
    let mut i: usize = 0;
    while i < v.len()
        invariant
            v@ == s@,
            i <= v@.len(),
            forall|j: int| 0 <= j < i ==> (#[trigger] s@[j] as u32) < 128,
        decreases v@.len() - i,
    {
        if (v[i] as u32) >= 128 {
            return false;
        }
        i = i + 1;
    }
    true
}

fn lower_code(u: u32) -> (r: u32)
    ensures
        r == ascii_lower_code(u),
{
    if 65 <= u && u <= 90 {
        u + 32
    } else {
        u
    }
}

fn lowers_at(v: &Vec<char>, w: &Vec<char>, i: usize) -> (r: bool)
    requires
        i + w@.len() <= v@.len(),
    ensures
        r == lowers_to(v@.subrange(i as int, i + w@.len()), w@),
{
    let vn = v.len();
    let mut k: usize = 0;
    while k < w.len()
        invariant
            vn == v@.len(),
            i + w@.len() <= v@.len(),
            k <= w@.len(),
            forall|l: int| 0 <= l < k ==> ascii_lower_code(v@[i + l] as u32) == w@[l] as u32,
        decreases w@.len() - k,
    {
        if lower_code(v[i + k] as u32) != w[k] as u32 {
            assert(v@.subrange(i as int, i + w@.len())[k as int] == v@[i + k]);
            return false;
        }
        k = k + 1;
    }
    assert forall|l: int| 0 <= l < w@.len() implies ascii_lower_code(
        #[trigger] v@.subrange(i as int, i + w@.len())[l] as u32,
    ) == w@[l] as u32 by {
        assert(v@.subrange(i as int, i + w@.len())[l] == v@[i + l]);
    }
    true
}

/// Whether lowering the ASCII capitals of `s` gives `k`.
pub fn lowers_to_str(s: &str, k: &str) -> (r: bool)
    ensures
        r == lowers_to(s@, k@),
{
    let v = chars_of(s);
    let w = chars_of(k);
    if v.len() != w.len() {
        return false;
    }
    let r = lowers_at(&v, &w, 0);
    assert(s@.subrange(0, s@.len() as int) =~= s@);
    r
}

/// Whether `p` occurs in `s` once the ASCII capitals of `s` are lowered.
pub fn contains_lowered_str(s: &str, p: &str) -> (r: bool)
    ensures
        r == contains_lowered(s@, p@),
{
    let v = chars_of(s);
    let w = chars_of(p);
    let n = v.len();
    let m = w.len();
    if m > n {
        return false;
    }
    let mut i: usize = 0;
    while i <= n - m
        invariant
            v@ == s@,
            w@ == p@,
            n == s@.len(),
            m == p@.len(),
            m <= n,
            i <= n - m + 1,
            forall|j: int|
                0 <= j < i ==> !#[trigger] lowers_to(s@.subrange(j, j + p@.len()), p@),
        decreases n - m + 1 - i,
    {
        if lowers_at(&v, &w, i) {
            return true;
        }
        i = i + 1;
    }
    assert forall|j: int|
        0 <= j && j + p@.len() <= s@.len() implies !#[trigger] lowers_to(
        s@.subrange(j, j + p@.len()),
        p@,
    ) by {}
    false
}

} // verus!
