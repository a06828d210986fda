//! An in-process, time-boxed key-value store.
//!
//! Entries are never evicted: a read ignores an entry whose age has reached
//! the time-to-live it is given, and a write replaces the entry of its key.
use vstd::prelude::*;

verus! {

/// One stored value with the time (epoch seconds) it was stored at.
pub struct CacheSlot<V> {
    pub key: String,
    pub value: V,
    pub stored_at: i64,
}

/// The value and store time that `slots` hold for `key`: those of the last
/// slot with that key.
pub open spec fn lookup<V>(slots: Seq<CacheSlot<V>>, key: Seq<char>) -> Option<(V, i64)>
    decreases slots.len(),
{
    if slots.len() == 0 {
        None
    } else if slots.last().key@ == key {
        Some((slots.last().value, slots.last().stored_at))
    } else {
        lookup(slots.drop_last(), key)
    }
}

/// An entry stored at `stored_at` is still fresh at `now` under `ttl`:
/// `now - stored_at < ttl`.
pub open spec fn is_fresh(stored_at: i64, ttl: u64, now: i64) -> bool {
    now - stored_at < ttl
}

/// Removing a slot of another key leaves a key's entry as it was.
proof fn lemma_lookup_remove<V>(slots: Seq<CacheSlot<V>>, i: int, key: Seq<char>)
    requires
        0 <= i < slots.len(),
        slots[i].key@ != key,
    ensures
        lookup(slots.remove(i), key) == lookup(slots, key),
    decreases slots.len(),
{
    if i == slots.len() - 1 {
        assert(slots.remove(i) =~= slots.drop_last());
    } else {
        assert(slots.remove(i).drop_last() =~= slots.drop_last().remove(i));
        assert(slots.remove(i).last() == slots.last());
        lemma_lookup_remove(slots.drop_last(), i, key);
    }
}

/// A key-value store whose reads honour a time-to-live.
pub struct WeatherCache<V> {
    slots: Vec<CacheSlot<V>>,
}

impl<V> WeatherCache<V> {
    /// The value and store time held for `key`, if any.
    pub closed spec fn entry(&self, key: Seq<char>) -> Option<(V, i64)> {
        lookup(self.slots@, key)
    }

    /// An empty store.
    pub fn new() -> (r: Self)
        ensures
            forall|k: Seq<char>| #[trigger] r.entry(k) is None,
    {
        WeatherCache { slots: Vec::new() }
    }

    /// The value held for `key` if it was stored less than `ttl` seconds
    /// before `now`; a stale entry is left in place.
    pub fn get(&self, key: &String, ttl: u64, now: i64) -> (r: Option<&V>)
        ensures
            r is Some <==> (self.entry(key@) is Some && is_fresh(
                self.entry(key@)->Some_0.1,
                ttl,
                now,
            )),
            r is Some ==> *r->Some_0 == self.entry(key@)->Some_0.0,
    {
        let mut i: usize = self.slots.len();
        proof {
            assert(self.slots@.take(i as int) =~= self.slots@);
        }
        while i > 0
            invariant
                i <= self.slots@.len(),
                lookup(self.slots@, key@) == lookup(self.slots@.take(i as int), key@),
            decreases i,
        {
            proof {
                assert(self.slots@.take(i as int).drop_last() =~= self.slots@.take(i - 1));
            }
            let slot = &self.slots[i - 1];
            if slot.key == *key {
                if (now as i128) - (slot.stored_at as i128) < ttl as i128 {
                    return Some(&slot.value);
                } else {
                    return None;
                }
            }
            i -= 1;
        }
        None
    }

    /// Stores `value` under `key` with store time `now`, replacing what the
    /// key held.
    pub fn set(&mut self, key: String, value: V, now: i64)
        ensures
            final(self).entry(key@) == Some((value, now)),
            forall|k: Seq<char>| k != key@ ==> #[trigger] final(self).entry(k) == old(self).entry(k),
    {
        let mut i: usize = self.slots.len();
        let mut found = false;
        while i > 0 && !found
            invariant
                i <= self.slots@.len(),
                found ==> i < self.slots@.len() && self.slots@[i as int].key@ == key@,
            decreases i + (if found { 0int } else { 1int }),
        {
            if self.slots[i - 1].key == key {
                found = true;
            }
            i -= 1;
        }
        if found {
            let ghost before = self.slots@;
            self.slots.remove(i);
            proof {
                assert forall|k: Seq<char>| k != key@ implies lookup(self.slots@, k) == lookup(
                    before,
                    k,
                ) by {
                    lemma_lookup_remove(before, i as int, k);
                }
            }
        }
        let ghost kept = self.slots@;
        self.slots.push(CacheSlot { key, value, stored_at: now });
        proof {
            assert(self.slots@.drop_last() =~= kept);
        }
    }
}

} // verus!
