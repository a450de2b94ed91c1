//! The key-value service: items with an optional expiry time, deletion of
//! whitespace-separated keys, and publish/subscribe channels.
use vstd::prelude::*;
use crate::assoc::AssocList;
use crate::text::{trim, trimmed, split_words, words, views};

verus! {

/// A stored value and the time, in milliseconds since the epoch, after which
/// it expires; a deadline of `0` never expires.
pub struct Item {
    pub value: String,
    pub deadline: i64,
}

/// What a stored item stands for: its text and its deadline.
pub open spec fn item_view(it: Item) -> (Seq<char>, i64) {
    (it.value@, it.deadline)
}

/// The model of the store: each key's text and deadline.
pub type Store = Map<Seq<char>, (Seq<char>, i64)>;

/// An item with this deadline has expired at time `now`.
pub open spec fn expired(deadline: i64, now: i64) -> bool {
    deadline < now && deadline != 0
}

/// The deadline that a `set` at time `now` records: `now + ex`, or `0` without `ex`.
pub open spec fn deadline_for(ex: Option<i64>, now: i64) -> int {
    match ex {
        Some(t) => t + now,
        None => 0,
    }
}

/// The store after `set key value [ex]` at time `now`: the trimmed value, under `key`.
pub open spec fn set_spec(m: Store, key: Seq<char>, value: Seq<char>, ex: Option<i64>, now: i64) -> Store {
    m.insert(key, (trimmed(value), deadline_for(ex, now) as i64))
}

/// `get key` at time `now`: an expired item is dropped and reads as absent;
/// a live one is returned and the store is left as it was.
pub open spec fn get_spec(m: Store, key: Seq<char>, now: i64) -> (Store, Option<Seq<char>>) {
    if m.dom().contains(key) {
        if expired(m[key].1, now) {
            (m.remove(key), None)
        } else {
            (m, Some(m[key].0))
        }
    } else {
        (m, None)
    }
}

/// Deleting the keys `ks` in turn: the store that is left, and how many of
/// them were present when their turn came.
pub open spec fn del_spec(m: Store, ks: Seq<Seq<char>>) -> (Store, int)
    decreases ks.len(),
{
    if ks.len() == 0 {
        (m, 0)
    } else {
        let (m1, c1) = del_spec(m, ks.drop_last());
        if m1.dom().contains(ks.last()) {
            (m1.remove(ks.last()), c1 + 1)
        } else {
            (m1, c1)
        }
    }
}

/// The subscriptions after `sender` subscribes to `channel`: it joins the end
/// of the channel's list, which starts empty.
pub open spec fn subscribe_spec<C>(m: Map<Seq<char>, Seq<C>>, channel: Seq<char>, sender: C) -> Map<
    Seq<char>,
    Seq<C>,
> {
    m.insert(
        channel,
        if m.dom().contains(channel) {
            m[channel].push(sender)
        } else {
            seq![sender]
        },
    )
}

/// How many subscribers a message published on `channel` reaches.
pub open spec fn subscriber_count<C>(m: Map<Seq<char>, Seq<C>>, channel: Seq<char>) -> int {
    if m.dom().contains(channel) {
        m[channel].len() as int
    } else {
        0
    }
}

/// The service state: stored items, and the subscribers of each channel.
pub struct S<C> {
    items: AssocList<Item>,
    channels: AssocList<Vec<C>>,
}

impl<C> S<C> {
    /// The internal lists are well formed.
    pub closed spec fn wf(&self) -> bool {
        self.items.wf() && self.channels.wf()
    }

    /// The stored items.
    pub closed spec fn store(&self) -> Store {
        self.items@.map_values(|it: Item| item_view(it))
    }

    /// The subscribers of each channel, in the order they subscribed.
    pub closed spec fn subscriptions(&self) -> Map<Seq<char>, Seq<C>> {
        self.channels@.map_values(|v: Vec<C>| v@)
    }

    /// An empty service.
    pub fn new() -> (r: Self)
        ensures
            r.wf(),
            r.store() == Store::empty(),
            r.subscriptions() == Map::<Seq<char>, Seq<C>>::empty(),
    {
        let r = S { items: AssocList::new(), channels: AssocList::new() };
        assert(r.store() =~= Store::empty());
        assert(r.subscriptions() =~= Map::<Seq<char>, Seq<C>>::empty());
        r
    }

    /// `ping [text]`: the text, or the empty string without one.
    pub fn ping_item(&self, key: Option<String>) -> (r: String)
        ensures
            r@ == match key {
                Some(k) => k@,
                None => Seq::<char>::empty(),
            },
    {
        match key {
            Some(k) => k,
            None => String::new(),
        }
    }

    /// `set key value [ex]` at time `now` (milliseconds since the epoch):
    /// stores the trimmed value with its deadline, and answers `true`.
    pub fn set_item(&mut self, key: String, value: &str, ex: Option<i64>, now: i64) -> (r: bool)
        requires
            old(self).wf(),
            ex matches Some(t) ==> i64::MIN <= t + now <= i64::MAX,
        ensures
            final(self).wf(),
            final(self).store() == set_spec(old(self).store(), key@, value@, ex, now),
            final(self).subscriptions() == old(self).subscriptions(),
            r,
    {
        let deadline: i64 = match ex {
            Some(t) => t + now,
            None => 0,
        };
        let v = String::from_str(trim(value));
        let item = Item { value: v, deadline };
        let ghost k = key@;
        self.items.insert(key, item);
        proof {
            assert(self.store() =~= set_spec(old(self).store(), k, value@, ex, now));
        }
        true
    }

    /// `get key` at time `now`: the value of a live item; an expired item is
    /// removed and reads as absent.
    pub fn get_item(&mut self, key: &String, now: i64) -> (r: Option<String>)
        requires
            old(self).wf(),
        ensures
            final(self).wf(),
            final(self).store() == get_spec(old(self).store(), key@, now).0,
            r is Some == get_spec(old(self).store(), key@, now).1 is Some,
            r matches Some(v) ==> v@ == get_spec(old(self).store(), key@, now).1->0,
            final(self).subscriptions() == old(self).subscriptions(),
    {
        let found = match self.items.get(key) {
            Some(it) => Some((it.value.clone(), it.deadline)),
            None => None,
        };
        match found {
            Some((value, deadline)) => {
                if deadline < now && deadline != 0 {
                    let _ = self.items.remove(key);
                    proof {
                        assert(self.store() =~= old(self).store().remove(key@));
                    }
                    None
                } else {
                    Some(value)
                }
            },
            None => None,
        }
    }

    /// `del k1 k2 ...`: removes each whitespace-separated key that is present
    /// and answers how many were removed.
    pub fn del_item(&mut self, key: &str) -> (r: i32)
        requires
            old(self).wf(),
            del_spec(old(self).store(), words(key@)).1 <= i32::MAX,
        ensures
            final(self).wf(),
            final(self).store() == del_spec(old(self).store(), words(key@)).0,
            r == del_spec(old(self).store(), words(key@)).1,
            final(self).subscriptions() == old(self).subscriptions(),
    {
        let keys = split_words(key);
        let ghost ks = words(key@);
        let mut count: i32 = 0;
        let mut i: usize = 0;
        while i < keys.len()
            invariant
                self.wf(),
                views(keys@) == ks,
                i <= keys@.len(),
                ks == words(key@),
                del_spec(old(self).store(), ks).1 <= i32::MAX,
                (self.store(), count as int) == del_spec(old(self).store(), ks.take(i as int)),
                self.subscriptions() == old(self).subscriptions(),
            decreases keys@.len() - i,
        {
            proof {
                assert(ks.take(i + 1).drop_last() =~= ks.take(i as int));
                assert(ks.take(i + 1).last() == keys@[i as int]@);
                lemma_del_count_grows(old(self).store(), ks, i + 1);
            }
            if self.items.contains_key(&keys[i]) {
                let _ = self.items.remove(&keys[i]);
                proof {
                    assert(self.store() =~= del_spec(old(self).store(), ks.take(i + 1)).0);
                }
                count = count + 1;
            }
            i = i + 1;
        }
        assert(ks.take(keys@.len() as int) =~= ks);
        count
    }

    /// `subscribe channel`: adds `sender` as the channel's newest subscriber.
    pub fn sub_channel(&mut self, channel: String, sender: C)
        requires
            old(self).wf(),
        ensures
            final(self).wf(),
            final(self).store() == old(self).store(),
            final(self).subscriptions() == subscribe_spec(old(self).subscriptions(), channel@, sender),
    {
        let ghost k = channel@;
        let mut list = match self.channels.remove(&channel) {
            Some(list) => list,
            None => Vec::new(),
        };
        list.push(sender);
        self.channels.insert(channel, list);
        proof {
            assert(self.subscriptions() =~= old(self).subscriptions().insert(
                k,
                if old(self).subscriptions().dom().contains(k) {
                    old(self).subscriptions()[k].push(sender)
                } else {
                    seq![sender]
                },
            ));
        }
    }

    /// The subscribers of `channel`, if it has any record.
    pub fn subscribers(&self, channel: &String) -> (r: Option<&Vec<C>>)
        requires
            self.wf(),
        ensures
            r is Some == self.subscriptions().dom().contains(channel@),
            r matches Some(v) ==> v@ == self.subscriptions()[channel@],
    {
        self.channels.get(channel)
    }

    /// `publish channel msg`: the number of subscribers the message goes to,
    /// as an `i32`.
    pub fn pub_channel(&self, channel: &String) -> (r: i32)
        requires
            self.wf(),
        ensures
            r == subscriber_count(self.subscriptions(), channel@) as i32,
    {
        match self.channels.get(channel) {
            Some(list) => list.len() as i32,
            None => 0,
        }
    }
}

/// The keys of a nonempty list are those of all but its last, plus its last.
proof fn lemma_to_set_drop_last(ks: Seq<Seq<char>>)
    requires
        ks.len() > 0,
    ensures
        ks.to_set() == ks.drop_last().to_set().insert(ks.last()),
{
    let init = ks.drop_last();
    assert forall|k: Seq<char>| ks.to_set().contains(k) implies init.to_set().insert(
        ks.last(),
    ).contains(k) by {
        let i = choose|i: int| 0 <= i < ks.len() && ks[i] == k;
        if i < ks.len() - 1 {
            assert(init[i] == k);
        }
    }
    assert forall|k: Seq<char>| init.to_set().insert(ks.last()).contains(k) implies ks.to_set().contains(k) by {
        if k != ks.last() {
            let i = choose|i: int| 0 <= i < init.len() && init[i] == k;
            assert(ks[i] == k);
        } else {
            assert(ks[ks.len() - 1] == k);
        }
    }
    assert(ks.to_set() =~= init.to_set().insert(ks.last()));
}

/// A value set without an expiry time is read back, trimmed, at any later time.
pub proof fn law_get_after_set(m: Store, key: Seq<char>, value: Seq<char>, now: i64, later: i64)
    ensures
        get_spec(set_spec(m, key, value, None, now), key, later) == (
            set_spec(m, key, value, None, now),
            Some(trimmed(value)),
        ),
{
}

/// A value set with expiry `t` at time `now` is read back until `now + t`
/// and reads as absent, and is dropped, after it (a deadline of exactly `0`
/// never expires).
pub proof fn law_get_after_set_with_expiry(
    m: Store,
    key: Seq<char>,
    value: Seq<char>,
    t: i64,
    now: i64,
    later: i64,
)
    requires
        i64::MIN <= t + now <= i64::MAX,
    ensures
        ({
            let m2 = set_spec(m, key, value, Some(t), now);
            let (m3, r) = get_spec(m2, key, later);
            if t + now < later && t + now != 0 {
                r == None::<Seq<char>> && m3 == m2.remove(key) && !m3.dom().contains(key)
            } else {
                r == Some(trimmed(value)) && m3 == m2
            }
        }),
{
}

/// Once an expired item has been read as absent, it stays absent.
pub proof fn law_expired_stays_gone(m: Store, key: Seq<char>, now: i64, later: i64)
    requires
        m.dom().contains(key),
        expired(m[key].1, now),
    ensures
        get_spec(get_spec(m, key, now).0, key, later).1 == None::<Seq<char>>,
{
}

/// `set` changes no key but its own.
pub proof fn law_set_frame(
    m: Store,
    key: Seq<char>,
    other: Seq<char>,
    value: Seq<char>,
    ex: Option<i64>,
    now: i64,
)
    requires
        other != key,
    ensures
        set_spec(m, key, value, ex, now).dom().contains(other) == m.dom().contains(other),
        m.dom().contains(other) ==> set_spec(m, key, value, ex, now)[other] == m[other],
{
}

/// `get` changes no key but its own.
pub proof fn law_get_frame(m: Store, key: Seq<char>, other: Seq<char>, now: i64)
    requires
        other != key,
    ensures
        get_spec(m, key, now).0.dom().contains(other) == m.dom().contains(other),
        m.dom().contains(other) ==> get_spec(m, key, now).0[other] == m[other],
{
}

/// Deleting a list of keys removes exactly those keys and leaves every other
/// item as it was.
pub proof fn law_del_removes_listed(m: Store, ks: Seq<Seq<char>>)
    ensures
        del_spec(m, ks).0 == m.remove_keys(ks.to_set()),
    decreases ks.len(),
{
    if ks.len() > 0 {
        let init = ks.drop_last();
        law_del_removes_listed(m, init);
        lemma_to_set_drop_last(ks);
        let m1 = m.remove_keys(init.to_set());
        if m1.dom().contains(ks.last()) {
            assert(m1.remove(ks.last()) =~= m.remove_keys(ks.to_set()));
        } else {
            assert(m1 =~= m.remove_keys(ks.to_set()));
        }
    } else {
        assert(ks.to_set() =~= Set::<Seq<char>>::empty());
        assert(m.remove_keys(ks.to_set()) =~= m);
    }
}

/// The count that `del` answers is the number of distinct listed keys that
/// were present.
pub proof fn law_del_count(m: Store, ks: Seq<Seq<char>>)
    ensures
        del_spec(m, ks).1 == ks.to_set().intersect(m.dom()).len(),
    decreases ks.len(),
{
    if ks.len() > 0 {
        let init = ks.drop_last();
        let last = ks.last();
        law_del_count(m, init);
        law_del_removes_listed(m, init);
        let s0 = init.to_set().intersect(m.dom());
        let s1 = ks.to_set().intersect(m.dom());
        lemma_to_set_drop_last(ks);
        vstd::seq_lib::seq_to_set_is_finite(init);
        vstd::set::axiom_set_intersect_finite(init.to_set(), m.dom());
        let m1 = m.remove_keys(init.to_set());
        if m1.dom().contains(last) {
            assert(s1 =~= s0.insert(last));
            assert(!s0.contains(last));
        } else {
            assert(s1 =~= s0);
        }
    } else {
        assert(ks.to_set().intersect(m.dom()) =~= Set::<Seq<char>>::empty());
    }
}

/// Each subscription adds exactly one to the number of subscribers a
/// publication on that channel reaches.
pub proof fn law_subscribe_counts<C>(m: Map<Seq<char>, Seq<C>>, channel: Seq<char>, sender: C)
    ensures
        subscriber_count(subscribe_spec(m, channel, sender), channel) == subscriber_count(
            m,
            channel,
        ) + 1,
{
}

/// One request to the store, as the laws below speak of it.
pub enum StoreOp {
    /// `set key value [ex]` at a time.
    SetOp(Seq<char>, Seq<char>, Option<i64>, i64),
    /// `get key` at a time.
    GetOp(Seq<char>, i64),
    /// `del` of a list of keys.
    DelOp(Seq<Seq<char>>),
}

/// The store after one request.
pub open spec fn apply_op(m: Store, op: StoreOp) -> Store {
    match op {
        StoreOp::SetOp(k, v, ex, now) => set_spec(m, k, v, ex, now),
        StoreOp::GetOp(k, now) => get_spec(m, k, now).0,
        StoreOp::DelOp(ks) => del_spec(m, ks).0,
    }
}

/// The store after a run of requests, first to last.
pub open spec fn apply_ops(m: Store, ops: Seq<StoreOp>) -> Store
    decreases ops.len(),
{
    if ops.len() == 0 {
        m
    } else {
        apply_op(apply_ops(m, ops.drop_last()), ops.last())
    }
}

/// The request neither sets nor deletes `key` (gets of any key are allowed).
pub open spec fn leaves_key(op: StoreOp, key: Seq<char>) -> bool {
    match op {
        StoreOp::SetOp(k, _, _, _) => k != key,
        StoreOp::GetOp(_, _) => true,
        StoreOp::DelOp(ks) => !ks.contains(key),
    }
}

proof fn lemma_ops_keep_item(m: Store, key: Seq<char>, item: (Seq<char>, i64), ops: Seq<StoreOp>)
    requires
        m.dom().contains(key),
        m[key] == item,
        item.1 == 0,
        forall|i: int| 0 <= i < ops.len() ==> leaves_key(#[trigger] ops[i], key),
    ensures
        apply_ops(m, ops).dom().contains(key),
        apply_ops(m, ops)[key] == item,
    decreases ops.len(),
{
    if ops.len() > 0 {
        let init = ops.drop_last();
        assert forall|i: int| 0 <= i < init.len() implies leaves_key(#[trigger] init[i], key) by {
            assert(init[i] == ops[i]);
        }
        lemma_ops_keep_item(m, key, item, init);
        let m1 = apply_ops(m, init);
        assert(leaves_key(ops[ops.len() - 1], key));
        match ops.last() {
            StoreOp::SetOp(k, v, ex, now) => {
                law_set_frame(m1, k, key, v, ex, now);
            },
            StoreOp::GetOp(k, now) => {
                if k != key {
                    law_get_frame(m1, k, key, now);
                }
            },
            StoreOp::DelOp(ks) => {
                law_del_removes_listed(m1, ks);
                assert(!ks.to_set().contains(key));
            },
        }
    }
}

/// After `set key value` without expiry, `get key` reads the trimmed value
/// at any time, across any run of requests that neither set nor delete `key`.
pub proof fn law_get_after_set_across_others(
    m: Store,
    key: Seq<char>,
    value: Seq<char>,
    now: i64,
    ops: Seq<StoreOp>,
    later: i64,
)
    requires
        forall|i: int| 0 <= i < ops.len() ==> leaves_key(#[trigger] ops[i], key),
    ensures
        get_spec(apply_ops(set_spec(m, key, value, None, now), ops), key, later).1 == Some(
            trimmed(value),
        ),
{
    let m0 = set_spec(m, key, value, None, now);
    lemma_ops_keep_item(m0, key, (trimmed(value), 0i64), ops);
}

/// Subscribing to one channel leaves every other channel's subscribers as
/// they were.
pub proof fn law_subscribe_frame<C>(
    m: Map<Seq<char>, Seq<C>>,
    channel: Seq<char>,
    sender: C,
    other: Seq<char>,
)
    requires
        other != channel,
    ensures
        subscribe_spec(m, channel, sender).dom().contains(other) == m.dom().contains(other),
        m.dom().contains(other) ==> subscribe_spec(m, channel, sender)[other] == m[other],
        subscriber_count(subscribe_spec(m, channel, sender), other) == subscriber_count(m, other),
{
}

/// The count of deletions never shrinks as more keys are deleted.
proof fn lemma_del_count_grows(m: Store, ks: Seq<Seq<char>>, j: int)
    requires
        0 <= j <= ks.len(),
    ensures
        0 <= del_spec(m, ks.take(j)).1 <= del_spec(m, ks).1,
    decreases ks.len() - j,
{
    if j < ks.len() {
        lemma_del_count_grows(m, ks, j + 1);
        assert(ks.take(j + 1).drop_last() =~= ks.take(j));
        lemma_del_count_nonneg(m, ks.take(j));
        let t = ks.take(j + 1);
        assert(del_spec(m, t).1 >= del_spec(m, t.drop_last()).1);
    } else {
        assert(ks.take(j) =~= ks);
        lemma_del_count_nonneg(m, ks);
    }
}

proof fn lemma_del_count_nonneg(m: Store, ks: Seq<Seq<char>>)
    ensures
        del_spec(m, ks).1 >= 0,
    decreases ks.len(),
{
    if ks.len() > 0 {
        lemma_del_count_nonneg(m, ks.drop_last());
    }
}

} // verus!
