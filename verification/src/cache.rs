use vstd::prelude::*;

verus! {

/// How long an entry answers lookups, in seconds: one hour.
pub const CACHE_TTL_SECS: u64 = 3600;

/// An entry written at `stored_at` still answers a lookup at `now`: less than
/// [`CACHE_TTL_SECS`] seconds have passed since it was written.
pub open spec fn is_fresh(stored_at: u64, now: u64) -> bool {
    now - stored_at < CACHE_TTL_SECS
}

/// What a lookup of `key` at `now` returns from the entries `entries`: the value of a
/// fresh entry, and nothing for a missing or an expired one.
pub open spec fn lookup<T>(entries: Map<Seq<char>, (T, u64)>, key: Seq<char>, now: u64) -> Option<T> {
    if entries.contains_key(key) && is_fresh(entries[key].1, now) {
        Some(entries[key].0)
    } else {
        None
    }
}

/// One entry: its key, its value, and the time of its last write.
struct Slot<V> {
    key: String,
    value: V,
    stored_at: u64,
}

/// A store from text keys to values in which every entry carries the time of its last
/// write, in seconds on the caller's clock. Views as the map from each key to its value
/// and that time.
pub struct TtlCache<V: DeepView> {
    slots: Vec<Slot<V>>,
    entries: Ghost<Map<Seq<char>, (V::V, u64)>>,
}

impl<V: DeepView> View for TtlCache<V> {
    type V = Map<Seq<char>, (V::V, u64)>;

    closed spec fn view(&self) -> Map<Seq<char>, (V::V, u64)> {
        self.entries@
    }
}

impl<V: DeepView> TtlCache<V> {
    /// Every key is held once, and the view holds what the slots hold.
    pub closed spec fn wf(&self) -> bool {
        &&& forall|i: int|
            0 <= i < self.slots.len() ==> self.entries@.contains_key(
                (#[trigger] self.slots[i]).key@,
            ) && self.entries@[self.slots[i].key@] == (
                self.slots[i].value.deep_view(),
                self.slots[i].stored_at,
            )
        &&& forall|k: Seq<char>|
            self.entries@.contains_key(k) ==> exists|i: int|
                0 <= i < self.slots.len() && (#[trigger] self.slots[i]).key@ == k
        &&& forall|i: int, j: int|
            0 <= i < j < self.slots.len() ==> (#[trigger] self.slots[i]).key@ != (
            #[trigger] self.slots[j]).key@
    }

    /// A cache without entries.
    pub fn new() -> (cache: Self)
        ensures
            cache.wf(),
            cache@ == Map::<Seq<char>, (V::V, u64)>::empty(),
    {
        TtlCache { slots: Vec::new(), entries: Ghost(Map::empty()) }
    }

    /// The slot that holds `key`, if one does.
    fn position(&self, key: &String) -> (r: Option<usize>)
        requires
            self.wf(),
        ensures
            match r {
                Some(i) => i < self.slots.len() && self.slots[i as int].key@ == key@,
                None => !self@.contains_key(key@),
            },
    {
        let mut i: usize = 0;
        while i < self.slots.len()
            invariant
                i <= self.slots.len(),
                forall|j: int| 0 <= j < i ==> (#[trigger] self.slots[j]).key@ != key@,
            decreases self.slots.len() - i,
        {
            if self.slots[i].key == *key {
                return Some(i);
            }
            i += 1;
        }
        None
    }

    /// The value under `key`, if the entry is there and was written less than an hour
    /// before `now`.
    pub fn get(&self, key: &String, now: u64) -> (r: Option<&V>)
        requires
            self.wf(),
        ensures
            r.deep_view() == lookup(self@, key@, now),
    {
        match self.position(key) {
            Some(i) => {
                let slot = &self.slots[i];
                if now < slot.stored_at || now - slot.stored_at < CACHE_TTL_SECS {
                    Some(&slot.value)
                } else {
                    None
                }
            },
            None => None,
        }
    }

    /// Writes `value` under `key` with the time `now`, over any entry that was there.
    pub fn put(&mut self, key: String, value: V, now: u64)
        requires
            old(self).wf(),
        ensures
            final(self).wf(),
            final(self)@ == old(self)@.insert(key@, (value.deep_view(), now)),
    {
        match self.position(&key) {
            Some(i) => {
                self.slots[i].value = value;
                self.slots[i].stored_at = now;
            },
            None => {
                self.slots.push(Slot { key, value, stored_at: now });
            },
        }
        self.entries = Ghost(self.entries@.insert(key@, (value.deep_view(), now)));
        proof {
            assert forall|k: Seq<char>| self.entries@.contains_key(k) implies exists|i: int|
                0 <= i < self.slots.len() && (#[trigger] self.slots[i]).key@ == k by {
                if k == key@ {
                    if old(self)@.contains_key(key@) {
                        let i = choose|i: int|
                            0 <= i < old(self).slots.len() && (#[trigger] old(self).slots[i]).key@
                                == k;
                        assert(self.slots[i].key@ == k);
                    } else {
                        assert(self.slots[self.slots.len() - 1].key@ == k);
                    }
                } else {
                    let i = choose|i: int|
                        0 <= i < old(self).slots.len() && (#[trigger] old(self).slots[i]).key@ == k;
                    assert(self.slots[i].key@ == k);
                }
            }
        }
    }

    /// Takes the entry under `key` out; every other entry stays.
    pub fn remove(&mut self, key: &String)
        requires
            old(self).wf(),
        ensures
            final(self).wf(),
            final(self)@ == old(self)@.remove(key@),
    {
        if let Some(i) = self.position(key) {
            self.slots.remove(i);
            proof {
                assert forall|j: int| 0 <= j < self.slots.len() implies (#[trigger] self.slots[j])
                    == old(self).slots[if j < i { j } else { j + 1 }] by {}
            }
        }
        self.entries = Ghost(self.entries@.remove(key@));
        proof {
            assert forall|k: Seq<char>| self.entries@.contains_key(k) implies exists|j: int|
                0 <= j < self.slots.len() && (#[trigger] self.slots[j]).key@ == k by {
                let j = choose|j: int|
                    0 <= j < old(self).slots.len() && (#[trigger] old(self).slots[j]).key@ == k;
                if old(self)@.contains_key(key@) {
                    let i = choose|i: int|
                        0 <= i < old(self).slots.len() && (#[trigger] old(self).slots[i]).key@
                            == key@;
                    if j < self.slots.len() && self.slots[j].key@ == k {
                    } else {
                        assert(self.slots[j - 1].key@ == k);
                    }
                } else {
                    assert(self.slots[j].key@ == k);
                }
            }
        }
    }

    /// Takes every entry out.
    pub fn clear(&mut self)
        ensures
            final(self).wf(),
            final(self)@ == Map::<Seq<char>, (V::V, u64)>::empty(),
    {
        self.slots = Vec::new();
        self.entries = Ghost(Map::empty());
    }
}

/// An entry answers lookups for an hour from its write, and a write always replaces:
/// right after `put`, and at any time less than an hour later, the key yields the value
/// written; every other key yields what it yielded before.
pub proof fn law_put_then_lookup<T>(
    entries: Map<Seq<char>, (T, u64)>,
    key: Seq<char>,
    value: T,
    written: u64,
    now: u64,
    other: Seq<char>,
)
    requires
        other != key,
    ensures
        is_fresh(written, now) ==> lookup(entries.insert(key, (value, written)), key, now) == Some(
            value,
        ),
        !is_fresh(written, now) ==> lookup(entries.insert(key, (value, written)), key, now) is None,
        lookup(entries.insert(key, (value, written)), other, now) == lookup(entries, other, now),
{
}

/// Taking one key out makes that key miss and changes the answer for no other key.
pub proof fn law_remove_is_local<T>(
    entries: Map<Seq<char>, (T, u64)>,
    key: Seq<char>,
    now: u64,
    other: Seq<char>,
)
    requires
        other != key,
    ensures
        lookup(entries.remove(key), key, now) is None,
        lookup(entries.remove(key), other, now) == lookup(entries, other, now),
{
}

} // verus!
