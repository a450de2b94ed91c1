//! The decisions of the web front end of the key-value service: reading the
//! `set` form, and the text each page answers with.
use vstd::prelude::*;
use crate::number::{decimal, decimal_string};

verus! {

/// The `(name, value)` pairs that `url::form_urlencoded::parse` finds in a
/// form body (split at `&` and `=`, `+` read as space, percent-decoded).
pub uninterp spec fn form_pairs(body: Seq<char>) -> Seq<(Seq<char>, Seq<char>)>;

/// What a list of string pairs stands for.
pub open spec fn pair_views(v: Seq<(String, String)>) -> Seq<(Seq<char>, Seq<char>)> {
    v.map_values(|p: (String, String)| (p.0@, p.1@))
}

/// Calls `url::form_urlencoded::parse` on the bytes of `body` and collects
/// the owned pairs; the result is named `form_pairs` of the body.
#[verifier::external_body]
fn parse_form(body: &str) -> (r: Vec<(String, String)>)
    ensures
        pair_views(r@) == form_pairs(body@),
{
    url::form_urlencoded::parse(body.as_bytes()).into_owned().collect()
}

/// The value of the last pair named `name`, or the empty text.
pub open spec fn last_field(pairs: Seq<(Seq<char>, Seq<char>)>, name: Seq<char>) -> Seq<char>
    decreases pairs.len(),
{
    if pairs.len() == 0 {
        Seq::<char>::empty()
    } else if pairs.last().0 == name {
        pairs.last().1
    } else {
        last_field(pairs.drop_last(), name)
    }
}

/// The key and the value that the pairs of a `set` form carry: the last
/// `key` and the last `value` field, each empty when absent.
pub fn pick_key_value(pairs: &Vec<(String, String)>) -> (r: (String, String))
    ensures
        r.0@ == last_field(pair_views(pairs@), "key"@),
        r.1@ == last_field(pair_views(pairs@), "value"@),
{
    let key_name = String::from_str("key");
    let value_name = String::from_str("value");
    let mut key = String::new();
    let mut value = String::new();
    let mut i: usize = 0;
    while i < pairs.len()
        invariant
            i <= pairs@.len(),
            key_name@ == "key"@,
            value_name@ == "value"@,
            key@ == last_field(pair_views(pairs@.take(i as int)), "key"@),
            value@ == last_field(pair_views(pairs@.take(i as int)), "value"@),
        decreases pairs@.len() - i,
    {
        proof {
            let t = pair_views(pairs@.take(i + 1));
            assert(t.drop_last() =~= pair_views(pairs@.take(i as int)));
            assert(t.last() == (pairs@[i as int].0@, pairs@[i as int].1@));
            reveal_strlit("key");
            reveal_strlit("value");
            assert("key"@ != "value"@) by {
                assert("key"@.len() != "value"@.len());
            }
        }
        let k = &pairs[i].0;
        if *k == key_name {
            key = pairs[i].1.clone();
        } else if *k == value_name {
            value = pairs[i].1.clone();
        }
        i = i + 1;
    }
    assert(pairs@.take(pairs@.len() as int) =~= pairs@);
    (key, value)
}

/// The key and the value that a `set` form body carries.
pub fn set_form(body: &str) -> (r: (String, String))
    ensures
        r.0@ == last_field(form_pairs(body@), "key"@),
        r.1@ == last_field(form_pairs(body@), "value"@),
{
    let pairs = parse_form(body);
    pick_key_value(&pairs)
}

/// The key that a `del` form body carries: its last `key` field, or the
/// empty text.
pub fn del_form(body: &str) -> (r: String)
    ensures
        r@ == last_field(form_pairs(body@), "key"@),
{
    let pairs = parse_form(body);
    pick_key_value(&pairs).0
}

/// The text of a failed request.
pub open spec fn failure_text() -> Seq<char> {
    "Something went wrong"@
}

fn failure() -> (r: String)
    ensures
        r@ == failure_text(),
{
    String::from_str("Something went wrong")
}

/// The page for `ping`: the echoed text, or the failure text.
pub fn ping_reply<E>(resp: Result<String, E>) -> (r: String)
    ensures
        r@ == match resp {
            Ok(v) => v@,
            Err(_) => failure_text(),
        },
{
    match resp {
        Ok(v) => v,
        Err(_) => failure(),
    }
}

/// The page for `get`: the value, `(nil)` for a missing key, or the failure text.
pub fn get_reply<E>(resp: Result<Option<String>, E>) -> (r: String)
    ensures
        r@ == match resp {
            Ok(Some(v)) => v@,
            Ok(None) => "(nil)"@,
            Err(_) => failure_text(),
        },
{
    match resp {
        Ok(Some(v)) => v,
        Ok(None) => String::from_str("(nil)"),
        Err(_) => failure(),
    }
}

/// The page for `del`: the number of deleted keys in decimal, or the failure text.
pub fn del_reply<E>(resp: Result<i32, E>) -> (r: String)
    ensures
        r@ == match resp {
            Ok(n) => decimal(n as int),
            Err(_) => failure_text(),
        },
{
    match resp {
        Ok(n) => decimal_string(n),
        Err(_) => failure(),
    }
}

/// The page for `set`: `OK` when the service stored the item, the failure
/// text otherwise.
pub fn set_reply<E>(resp: Result<bool, E>) -> (r: String)
    ensures
        r@ == match resp {
            Ok(true) => "OK"@,
            _ => failure_text(),
        },
{
    match resp {
        Ok(true) => String::from_str("OK"),
        _ => failure(),
    }
}

} // verus!
