//! The cache of prepared responses.
//!
//! A response is kept under the fingerprint of the request that it answers
//! and the number of the slot that it fills. Taking a response out removes
//! it: each is served once. The cache never looks into a response, so the
//! type of the responses is left to the caller.
use vstd::prelude::*;

use crate::seq_facts::{lemma_filter_all, lemma_filter_commutes};

verus! {

/// One prepared response.
pub struct CacheSlot<S> {
    /// The fingerprint of the request.
    pub key: u64,
    /// Which of the responses prepared for that request this is.
    pub id: usize,
    /// The response.
    pub stream: S,
}

/// Takes the fingerprint of a slot.
pub open spec fn key_of<S>() -> spec_fn(CacheSlot<S>) -> u64 {
    |slot: CacheSlot<S>| slot.key
}

/// The fingerprints of `s`, in order.
pub open spec fn keys<S>(s: Seq<CacheSlot<S>>) -> Seq<u64> {
    s.map_values(key_of())
}

/// Selects the slots with the fingerprint `key`.
pub open spec fn of_key<S>(key: u64) -> spec_fn(CacheSlot<S>) -> bool {
    |slot: CacheSlot<S>| slot.key == key
}

/// Selects the slots other than the one numbered `id` under `key`.
pub open spec fn other_slot<S>(key: u64, id: usize) -> spec_fn(CacheSlot<S>) -> bool {
    |slot: CacheSlot<S>| !(slot.key == key && slot.id == id)
}

/// How many responses `s` holds for the fingerprint `key`.
pub open spec fn filled<S>(s: Seq<CacheSlot<S>>, key: u64) -> nat {
    s.filter(of_key(key)).len()
}

/// No two slots of `s` have both the same fingerprint and the same number.
pub open spec fn distinct<S>(s: Seq<CacheSlot<S>>) -> bool {
    forall|i: int, j: int|
        0 <= i < j < s.len() ==> !((#[trigger] s[i]).key == (#[trigger] s[j]).key && s[i].id
            == s[j].id)
}

/// The slots after `stream` was put under `key` and `id`: what was there
/// under the same fingerprint and number is gone, and the new slot is last.
pub open spec fn pushed<S>(s: Seq<CacheSlot<S>>, stream: S, key: u64, id: usize) -> Seq<
    CacheSlot<S>,
> {
    s.filter(other_slot(key, id)).push(CacheSlot { key, id, stream })
}

/// The response that a lookup of `key` receives: that of the first slot with
/// this fingerprint, if there is one.
pub open spec fn served<S>(s: Seq<CacheSlot<S>>, key: u64) -> Option<S> {
    match keys(s).index_of_first(key) {
        Some(i) => Some(s[i].stream),
        None => None,
    }
}

/// The slots after a lookup of `key`: without the slot that was served.
pub open spec fn popped<S>(s: Seq<CacheSlot<S>>, key: u64) -> Seq<CacheSlot<S>> {
    match keys(s).index_of_first(key) {
        Some(i) => s.remove(i),
        None => s,
    }
}

/// The cache of prepared responses.
pub struct ResponseCache<S> {
    slots: Vec<CacheSlot<S>>,
}

impl<S> View for ResponseCache<S> {
    type V = Seq<CacheSlot<S>>;

    closed spec fn view(&self) -> Seq<CacheSlot<S>> {
        self.slots@
    }
}

impl<S> ResponseCache<S> {
    /// The empty cache.
    pub fn new() -> (cache: Self)
        ensures
            cache@ == Seq::<CacheSlot<S>>::empty(),
    {
        ResponseCache { slots: Vec::new() }
    }

    /// How many responses the cache holds.
    pub fn len(&self) -> (n: usize)
        ensures
            n == self@.len(),
    {
        self.slots.len()
    }

    /// Puts `stream` into the slot numbered `id` for the fingerprint `key`.
    /// A response that was in that slot is dropped.
    pub fn push(&mut self, stream: S, key: u64, id: usize)
        ensures
            final(self)@ == pushed(old(self)@, stream, key, id),
            distinct(old(self)@) ==> distinct(final(self)@),
    {
        let ghost before = self.slots@;
        let ghost pred = other_slot::<S>(key, id);
        let ghost done: int = 0;
        let mut i: usize = 0;
        proof {
            reveal(Seq::filter);
            assert(before.take(0) =~= Seq::empty());
            assert(before.take(0).filter(pred) + before.skip(0) =~= before);
        }
        while i < self.slots.len()
            invariant
                0 <= done <= before.len(),
                pred == other_slot::<S>(key, id),
                i == before.take(done).filter(pred).len(),
                self.slots@ == before.take(done).filter(pred) + before.skip(done),
            decreases before.len() - done,
        {
            proof {
                before.lemma_take_succ_push(done);
                before.take(done).lemma_filter_push(before[done], pred);
                assert(self.slots@[i as int] == before[done]);
            }
            if self.slots[i].key == key && self.slots[i].id == id {
                let _ = self.slots.remove(i);
                proof {
                    assert(self.slots@ =~= before.take(done + 1).filter(pred) + before.skip(
                        done + 1,
                    ));
                    done = done + 1;
                }
            } else {
                proof {
                    assert(self.slots@ =~= before.take(done + 1).filter(pred) + before.skip(
                        done + 1,
                    ));
                    done = done + 1;
                }
                i += 1;
            }
        }
        proof {
            assert(done == before.len()) by {
                before.take(done).lemma_filter_len(pred);
            }
            assert(before.take(done) =~= before);
            assert(self.slots@ =~= before.filter(pred));
            lemma_pushed_distinct(before, stream, key, id);
        }
        self.slots.push(CacheSlot { key, id, stream });
    }

    /// Takes a response for the fingerprint `key` out of the cache: the one
    /// that has been there longest. `None` if the cache holds none for it.
    pub fn pop(&mut self, key: u64) -> (stream: Option<S>)
        ensures
            stream == served(old(self)@, key),
            final(self)@ == popped(old(self)@, key),
            distinct(old(self)@) ==> distinct(final(self)@),
    {
        let mut i: usize = 0;
        while i < self.slots.len()
            invariant
                i <= self.slots@.len(),
                self.slots == old(self).slots,
                forall|j: int| 0 <= j < i ==> keys(self.slots@)[j] != key,
            decreases self.slots@.len() - i,
        {
            if self.slots[i].key == key {
                proof {
                    assert(keys(self.slots@)[i as int] == key);
                    keys(self.slots@).index_of_first_ensures(key);
                    lemma_popped_distinct(self.slots@, key);
                }
                let slot = self.slots.remove(i);
                return Some(slot.stream);
            }
            i += 1;
        }
        proof {
            keys(self.slots@).index_of_first_ensures(key);
        }
        None
    }
}

/// Putting a response into a slot keeps the slots distinct.
pub proof fn lemma_pushed_distinct<S>(s: Seq<CacheSlot<S>>, stream: S, key: u64, id: usize)
    ensures
        distinct(s) ==> distinct(pushed(s, stream, key, id)),
{
    let kept = s.filter(other_slot(key, id));
    let out = pushed(s, stream, key, id);
    if distinct(s) {
        lemma_filter_distinct(s, other_slot(key, id));
        assert forall|i: int, j: int| 0 <= i < j < out.len() implies !((#[trigger] out[i]).key == (
        #[trigger] out[j]).key && out[i].id == out[j].id) by {
            if j < kept.len() {
                assert(out[i] == kept[i] && out[j] == kept[j]);
            } else {
                s.lemma_filter_pred(other_slot(key, id), i);
            }
        }
    }
}

/// A lookup keeps the slots distinct.
pub proof fn lemma_popped_distinct<S>(s: Seq<CacheSlot<S>>, key: u64)
    ensures
        distinct(s) ==> distinct(popped(s, key)),
{
    keys(s).index_of_first_ensures(key);
    if distinct(s) {
        match keys(s).index_of_first(key) {
            Some(k) => {
                let out = s.remove(k);
                assert forall|i: int, j: int| 0 <= i < j < out.len() implies !((
                #[trigger] out[i]).key == (#[trigger] out[j]).key && out[i].id == out[j].id) by {
                    let a = if i < k { i } else { i + 1 };
                    let b = if j < k { j } else { j + 1 };
                    assert(out[i] == s[a] && out[j] == s[b]);
                }
            },
            None => {},
        }
    }
}

/// Distinct slots stay distinct under any filter.
pub proof fn lemma_filter_distinct<S>(s: Seq<CacheSlot<S>>, pred: spec_fn(CacheSlot<S>) -> bool)
    requires
        distinct(s),
    ensures
        distinct(s.filter(pred)),
    decreases s.len(),
{
    reveal(Seq::filter);
    if s.len() > 0 {
        let init = s.drop_last();
        let kept = init.filter(pred);
        let out = s.filter(pred);
        assert(distinct(init)) by {
            assert forall|i: int, j: int| 0 <= i < j < init.len() implies !((
            #[trigger] init[i]).key == (#[trigger] init[j]).key && init[i].id == init[j].id) by {
                assert(init[i] == s[i] && init[j] == s[j]);
            }
        }
        lemma_filter_distinct(init, pred);
        if pred(s.last()) {
            assert forall|i: int, j: int| 0 <= i < j < out.len() implies !((
            #[trigger] out[i]).key == (#[trigger] out[j]).key && out[i].id == out[j].id) by {
                if j < kept.len() {
                    assert(out[i] == kept[i] && out[j] == kept[j]);
                } else {
                    assert(kept.contains(kept[i]));
                    init.lemma_filter_contains_rev(pred, kept[i]);
                    let m = choose|m: int| 0 <= m < init.len() && init[m] == kept[i];
                    assert(s[m] == init[m]);
                    assert(s[s.len() - 1] == out[j]);
                }
            }
        }
    }
}

/// Whether `s` holds a response in the slot numbered `id` under `key`.
pub open spec fn holds<S>(s: Seq<CacheSlot<S>>, key: u64, id: usize) -> bool {
    exists|i: int| 0 <= i < s.len() && (#[trigger] s[i]).key == key && s[i].id == id
}

/// A lookup is answered exactly if the cache holds a response for the
/// fingerprint. It then takes one response of that fingerprint away and
/// leaves the count of every other fingerprint as it was.
pub proof fn lemma_pop_counts<S>(s: Seq<CacheSlot<S>>, key: u64, other: u64)
    ensures
        served(s, key) is Some <==> filled(s, key) > 0,
        served(s, key) is Some ==> filled(popped(s, key), key) == filled(s, key) - 1,
        served(s, key) is None ==> popped(s, key) == s,
        other != key ==> filled(popped(s, key), other) == filled(s, other),
{
    keys(s).index_of_first_ensures(key);
    match keys(s).index_of_first(key) {
        Some(i) => {
            let head = s.take(i);
            let tail = s.skip(i + 1);
            assert(s =~= head.push(s[i]) + tail);
            assert(s.remove(i) =~= head + tail);
            head.lemma_filter_push(s[i], of_key(key));
            head.lemma_filter_push(s[i], of_key(other));
            Seq::filter_distributes_over_add(head.push(s[i]), tail, of_key(key));
            Seq::filter_distributes_over_add(head, tail, of_key(key));
            Seq::filter_distributes_over_add(head.push(s[i]), tail, of_key(other));
            Seq::filter_distributes_over_add(head, tail, of_key(other));
            assert(keys(s)[i] == s[i].key);
        },
        None => {
            assert forall|i: int| 0 <= i < s.len() implies !of_key::<S>(key)(#[trigger] s[i]) by {
                assert(keys(s)[i] == s[i].key);
                assert(keys(s).contains(keys(s)[i]));
            }
            s.lemma_all_neg_filter_empty(of_key(key));
        },
    }
}

/// A response is served once: after a lookup was answered from a slot, no
/// response is left under that slot's fingerprint and number.
pub proof fn lemma_served_once<S>(s: Seq<CacheSlot<S>>, key: u64)
    requires
        distinct(s),
    ensures
        match keys(s).index_of_first(key) {
            Some(i) => 0 <= i < s.len() && s[i].key == key && !holds(popped(s, key), key, s[i].id),
            None => true,
        },
{
    keys(s).index_of_first_ensures(key);
    match keys(s).index_of_first(key) {
        Some(i) => {
            let out = s.remove(i);
            assert(keys(s)[i] == s[i].key);
            if holds(out, key, s[i].id) {
                let j = choose|j: int|
                    0 <= j < out.len() && (#[trigger] out[j]).key == key && out[j].id == s[i].id;
                let m = if j < i { j } else { j + 1 };
                assert(out[j] == s[m]);
                if m < i {
                    assert(!(s[m].key == s[i].key && s[m].id == s[i].id));
                } else {
                    assert(!(s[i].key == s[m].key && s[i].id == s[m].id));
                }
            }
        },
        None => {},
    }
}

/// Filling a slot makes its response available: the cache then holds one
/// under that fingerprint and number, and one more for the fingerprint than
/// before if the slot was empty. The counts of other fingerprints stay.
pub proof fn lemma_push_counts<S>(s: Seq<CacheSlot<S>>, stream: S, key: u64, id: usize, other: u64)
    ensures
        holds(pushed(s, stream, key, id), key, id),
        filled(pushed(s, stream, key, id), key) > 0,
        !holds(s, key, id) ==> filled(pushed(s, stream, key, id), key) == filled(s, key) + 1,
        other != key ==> filled(pushed(s, stream, key, id), other) == filled(s, other),
{
    let kept = s.filter(other_slot(key, id));
    let slot = CacheSlot { key, id, stream };
    let out = pushed(s, stream, key, id);
    assert(out[kept.len() as int] == slot);
    kept.lemma_filter_push(slot, of_key(key));
    kept.lemma_filter_push(slot, of_key(other));
    if !holds(s, key, id) {
        assert forall|i: int| 0 <= i < s.len() implies other_slot::<S>(key, id)(#[trigger] s[i]) by {}
        lemma_filter_all(s, other_slot(key, id));
    }
    if other != key {
        lemma_filter_commutes(s, other_slot(key, id), of_key(other));
        let picked = s.filter(of_key(other));
        assert forall|i: int| 0 <= i < picked.len() implies other_slot::<S>(key, id)(
            #[trigger] picked[i],
        ) by {
            s.lemma_filter_pred(of_key(other), i);
        }
        lemma_filter_all(picked, other_slot(key, id));
    }
}

} // verus!
