//! The hash map container: a mapping from value to value with unique keys.
//!
//! Entries are filed in buckets under the digest of their key. A lookup
//! computes the digest of the key it is given, fetches the one bucket filed
//! under it and compares keys inside that bucket only.
use std::collections::HashMap;
use vstd::prelude::*;
use crate::value::{digest_of, view_of, DynamicValue, Value};

verus! {

/// One key with the value stored under it.
struct Entry {
    key: DynamicValue,
    value: DynamicValue,
}

/// The entries whose keys share one digest.
struct Bucket {
    entries: Vec<Entry>,
}

/// A mapping from value to value. Keys are unique; the order of insertion
/// leaves no trace.
pub struct ValueMap {
    buckets: HashMap<u64, Bucket>,
    count: usize,
    model: Ghost<Map<Value, Value>>,
}

/// Some entry of `entries` has the key `key`.
spec fn has_key(entries: Seq<Entry>, key: Value) -> bool {
    exists|i: int| 0 <= i < entries.len() && (#[trigger] entries[i]).key@ == key
}

/// No two entries of `entries` have the same key.
spec fn distinct_keys(entries: Seq<Entry>) -> bool {
    forall|i: int, j: int|
        0 <= i < j < entries.len() ==> (#[trigger] entries[i]).key@ != (#[trigger] entries[j]).key@
}

/// Every entry of `entries` is filed under the right digest and is what
/// `model` holds for its key.
spec fn filed_under(digest: u64, entries: Seq<Entry>, model: Map<Value, Value>) -> bool {
    forall|i: int|
        0 <= i < entries.len() ==> {
            &&& digest_of((#[trigger] entries[i]).key@) == digest
            &&& model.contains_key(entries[i].key@)
            &&& model[entries[i].key@] == entries[i].value@
        }
}

impl Bucket {
    /// Looks for the entry with the key `key`.
    fn find(&self, key: &DynamicValue) -> (position: Option<usize>)
        ensures
            match position {
                Some(i) => i < self.entries@.len() && self.entries@[i as int].key@ == key@,
                None => !has_key(self.entries@, key@),
            },
    {
        let mut i: usize = 0;
        while i < self.entries.len()
            invariant
                i <= self.entries@.len(),
                forall|j: int| 0 <= j < i ==> (#[trigger] self.entries@[j]).key@ != key@,
            decreases self.entries@.len() - i,
        {
            if self.entries[i].key == *key {
                return Some(i);
            }
            i += 1;
        }
        None
    }
}

impl View for ValueMap {
    type V = Map<Value, Value>;

    closed spec fn view(&self) -> Map<Value, Value> {
        self.model@
    }
}

/// Creates an empty map.
pub fn new() -> (map: ValueMap)
    ensures
        map.wf(),
        map@ == Map::<Value, Value>::empty(),
{
    ValueMap { buckets: HashMap::new(), count: 0, model: Ghost(Map::empty()) }
}

impl ValueMap {
    /// The map's representation is consistent: every entry sits in the bucket
    /// of its key's digest, no key occurs twice, and the entry count is the
    /// number of keys.
    pub closed spec fn wf(&self) -> bool {
        &&& self.model@.dom().finite()
        &&& self.count == self.model@.len()
        &&& forall|d: u64| #[trigger]
            self.buckets@.contains_key(d) ==> {
                &&& distinct_keys(self.buckets@[d].entries@)
                &&& filed_under(d, self.buckets@[d].entries@, self.model@)
            }
        &&& forall|k: Value| #[trigger]
            self.model@.contains_key(k) ==> {
                &&& self.buckets@.contains_key(digest_of(k))
                &&& has_key(self.buckets@[digest_of(k)].entries@, k)
            }
    }

    /// A well-formed map has finitely many keys.
    pub proof fn lemma_finite(&self)
        requires
            self.wf(),
        ensures
            self@.dom().finite(),
    {
    }

    /// The number of keys.
    pub fn len(&self) -> (count: usize)
        requires
            self.wf(),
        ensures
            count == self@.len(),
    {
        self.count
    }

    /// Reads a copy of the value stored under `key`, or nothing where the map
    /// has no such key.
    pub fn get(&self, key: &DynamicValue) -> (value: Option<DynamicValue>)
        requires
            self.wf(),
        ensures
            view_of(value) == self@.get(key@),
    {
        let digest = key.digest();
        match self.buckets.get(&digest) {
            Some(bucket) => match bucket.find(key) {
                Some(i) => Some(bucket.entries[i].value.clone()),
                None => None,
            },
            None => None,
        }
    }

    /// Stores `value` under `key`. A value already stored under that key is
    /// overwritten; every other key keeps its value.
    pub fn set(&mut self, key: DynamicValue, value: DynamicValue)
        requires
            old(self).wf(),
            old(self)@.contains_key(key@) || old(self)@.len() < usize::MAX,
        ensures
            final(self).wf(),
            final(self)@ == old(self)@.insert(key@, value@),
    {
        let ghost k = key@;
        let ghost v = value@;
        let ghost before = self.buckets@;
        let digest = key.digest();
        let mut bucket = match self.buckets.remove(&digest) {
            Some(bucket) => bucket,
            None => Bucket { entries: Vec::new() },
        };
        let ghost filed = bucket.entries@;
        let ghost mut slot: int = 0;
        match bucket.find(&key) {
            Some(i) => {
                bucket.entries.set(i, Entry { key, value });
                proof {
                    slot = i as int;
                }
                assert forall|j: int| 0 <= j < filed.len() && j != i implies (
                #[trigger] filed[j]).key@ != k by {
                    if j < i {
                        assert(filed[j].key@ != filed[i as int].key@);
                    } else {
                        assert(filed[i as int].key@ != filed[j].key@);
                    }
                }
            },
            None => {
                assert(!self.model@.contains_key(k)) by {
                    if self.model@.contains_key(k) {
                        assert(before.contains_key(digest));
                        assert(has_key(before[digest].entries@, k));
                    }
                }
                bucket.entries.push(Entry { key, value });
                self.count = self.count + 1;
                proof {
                    slot = filed.len() as int;
                }
            },
        }
        let ghost refiled = bucket.entries@;
        self.buckets.insert(digest, bucket);
        self.model = Ghost(self.model@.insert(k, v));
        proof {
            let after = self.buckets@;
            let model = self.model@;
            assert forall|d: u64| #[trigger] after.contains_key(d) implies distinct_keys(
                after[d].entries@,
            ) && filed_under(d, after[d].entries@, model) by {
                if d != digest {
                    assert(before.contains_key(d));
                    assert(after[d] == before[d]);
                    let others = before[d].entries@;
                    assert forall|i: int| 0 <= i < others.len() implies model.contains_key(
                        (#[trigger] others[i]).key@,
                    ) && model[others[i].key@] == others[i].value@ by {
                        assert(digest_of(others[i].key@) == d);
                    }
                }
            }
            assert forall|key: Value| #[trigger] model.contains_key(key) implies after.contains_key(
                digest_of(key),
            ) && has_key(after[digest_of(key)].entries@, key) by {
                if key == k {
                    assert(refiled[slot].key@ == k);
                } else {
                    assert(old(self).model@.contains_key(key));
                    let d = digest_of(key);
                    assert(before.contains_key(d));
                    let i = choose|i: int|
                        0 <= i < before[d].entries@.len() && (#[trigger] before[d].entries@[i]).key@
                            == key;
                    if d == digest {
                        assert(refiled[i].key@ == key);
                    } else {
                        assert(after[d].entries@[i].key@ == key);
                    }
                }
            }
        }
    }

    /// Takes the value stored under `key` out of the map and returns it, or
    /// returns nothing and leaves the map as it is where it has no such key.
    pub fn remove(&mut self, key: &DynamicValue) -> (value: Option<DynamicValue>)
        requires
            old(self).wf(),
        ensures
            final(self).wf(),
            final(self)@ == old(self)@.remove(key@),
            view_of(value) == old(self)@.get(key@),
    {
        let ghost k = key@;
        let ghost before = self.buckets@;
        let digest = key.digest();
        match self.buckets.remove(&digest) {
            None => {
                assert(!self.model@.contains_key(k));
                assert(self.model@.remove(k) =~= self.model@);
                None
            },
            Some(mut bucket) => {
                let ghost filed = bucket.entries@;
                match bucket.find(key) {
                    None => {
                        self.buckets.insert(digest, bucket);
                        assert(self.buckets@ =~= before);
                        assert(!self.model@.contains_key(k)) by {
                            if self.model@.contains_key(k) {
                                assert(has_key(before[digest].entries@, k));
                            }
                        }
                        assert(self.model@.remove(k) =~= self.model@);
                        None
                    },
                    Some(i) => {
                        let entry = bucket.entries.swap_remove(i);
                        let ghost rest = bucket.entries@;
                        assert forall|j: int| 0 <= j < filed.len() && j != i implies (
                        #[trigger] filed[j]).key@ != k by {
                            if j < i {
                                assert(filed[j].key@ != filed[i as int].key@);
                            } else {
                                assert(filed[i as int].key@ != filed[j].key@);
                            }
                        }
                        assert(distinct_keys(rest)) by {
                            assert forall|a: int, b: int| 0 <= a < b < rest.len() implies (
                            #[trigger] rest[a]).key@ != (#[trigger] rest[b]).key@ by {
                                let from_a = if a == i { filed.len() - 1 } else { a };
                                let from_b = if b == i { filed.len() - 1 } else { b };
                                assert(rest[a] == filed[from_a]);
                                assert(rest[b] == filed[from_b]);
                                if from_a < from_b {
                                    assert(filed[from_a].key@ != filed[from_b].key@);
                                } else {
                                    assert(filed[from_b].key@ != filed[from_a].key@);
                                }
                            }
                        }
                        if bucket.entries.len() > 0 {
                            self.buckets.insert(digest, bucket);
                        }
                        self.count = self.count - 1;
                        self.model = Ghost(self.model@.remove(k));
                        proof {
                            let after = self.buckets@;
                            let model = self.model@;
                            assert forall|d: u64| #[trigger]
                                after.contains_key(d) implies distinct_keys(after[d].entries@)
                                && filed_under(d, after[d].entries@, model) by {
                                if d != digest {
                                    assert(before.contains_key(d));
                                    assert(after[d] == before[d]);
                                    let others = before[d].entries@;
                                    assert forall|j: int|
                                        0 <= j < others.len() implies model.contains_key(
                                        (#[trigger] others[j]).key@,
                                    ) && model[others[j].key@] == others[j].value@ by {
                                        assert(digest_of(others[j].key@) == d);
                                    }
                                } else {
                                    assert(after[d].entries@ == rest);
                                    assert forall|j: int| 0 <= j < rest.len() implies digest_of(
                                        (#[trigger] rest[j]).key@,
                                    ) == d && model.contains_key(rest[j].key@) && model[rest[j].key@]
                                        == rest[j].value@ by {
                                        let from = if j == i { filed.len() - 1 } else { j };
                                        assert(rest[j] == filed[from]);
                                    }
                                }
                            }
                            assert forall|key: Value| #[trigger]
                                model.contains_key(key) implies after.contains_key(digest_of(key))
                                && has_key(after[digest_of(key)].entries@, key) by {
                                let d = digest_of(key);
                                assert(old(self).model@.contains_key(key));
                                assert(before.contains_key(d));
                                let j = choose|j: int|
                                    0 <= j < before[d].entries@.len() && (
                                    #[trigger] before[d].entries@[j]).key@ == key;
                                if d == digest {
                                    let to = if j == filed.len() - 1 { i as int } else { j };
                                    assert(rest[to] == filed[j]);
                                    assert(rest[to].key@ == key);
                                } else {
                                    assert(after[d].entries@[j].key@ == key);
                                }
                            }
                        }
                        Some(entry.value)
                    },
                }
            },
        }
    }
}

} // verus!
