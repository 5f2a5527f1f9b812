//! What is known, and what is being asked, about tracks.
//!
//! Both collections are keyed by tracks, packed into integers one for one.

use crate::model::{MetadataKey, MetadataView, TrackMetadata};
use std::collections::{HashMap, HashSet};
use vstd::prelude::*;

verus! {

broadcast use vstd::std_specs::hash::group_hash_axioms;

/// The cache holds at most this many tracks.
pub const CACHE_SIZE: usize = 500;

/// Whether no entry of `cache` was fetched before that of `key`.
pub open spec fn is_oldest(cache: Map<MetadataKey, MetadataView>, key: MetadataKey) -> bool {
    &&& cache.contains_key(key)
    &&& forall|k: MetadataKey| #[trigger]
        cache.contains_key(k) ==> cache[key].fetched_at <= cache[k].fetched_at
}

/// Whether `after` is `before` with `metadata` stored under `key`, for which a full cache
/// first gives up an oldest entry. Which one, if several are oldest, is left open.
pub open spec fn stored(
    before: Map<MetadataKey, MetadataView>,
    after: Map<MetadataKey, MetadataView>,
    key: MetadataKey,
    metadata: MetadataView,
) -> bool {
    if before.len() >= CACHE_SIZE {
        exists|old: MetadataKey| #[trigger]
            is_oldest(before, old) && after == before.remove(old).insert(key, metadata)
    } else {
        after == before.insert(key, metadata)
    }
}

/// A key as one number: player, slot and track id side by side.
spec fn packed(key: MetadataKey) -> u64 {
    (key.device_id * 0x100_0000_0000 + key.slot * 0x1_0000_0000 + key.track_id) as u64
}

/// The key that a number stands for.
spec fn unpacked(n: u64) -> MetadataKey {
    MetadataKey {
        device_id: (n / 0x100_0000_0000) as u8,
        slot: (n / 0x1_0000_0000 % 0x100) as u8,
        track_id: (n % 0x1_0000_0000) as u32,
    }
}

/// Packing loses nothing.
proof fn lemma_packed(key: MetadataKey)
    ensures
        unpacked(packed(key)) == key,
{
}

/// A key as one number.
fn pack(key: &MetadataKey) -> (n: u64)
    ensures
        n == packed(*key),
{
    key.device_id as u64 * 0x100_0000_0000 + key.slot as u64 * 0x1_0000_0000 + key.track_id as u64
}

/// Metadata by track, bounded: when full, the entry that was fetched first leaves.
pub struct MetadataCache {
    entries: HashMap<u64, TrackMetadata>,
}

/// What `entries` map each key to.
spec fn map_of(entries: Map<u64, TrackMetadata>) -> Map<MetadataKey, MetadataView> {
    Map::new(
        |k: MetadataKey| entries.contains_key(packed(k)),
        |k: MetadataKey| entries[packed(k)]@,
    )
}

/// Whether every number in `numbers` stands for a key.
spec fn all_packed(numbers: Set<u64>) -> bool {
    forall|n: u64| #[trigger] numbers.contains(n) ==> packed(unpacked(n)) == n
}

/// The map has as many keys as there are entries.
proof fn lemma_size(entries: Map<u64, TrackMetadata>)
    requires
        entries.dom().finite(),
        all_packed(entries.dom()),
    ensures
        map_of(entries).dom().finite(),
        map_of(entries).len() == entries.len(),
{
    let f = |n: u64| unpacked(n);
    let keys = map_of(entries).dom();
    assert forall|k: MetadataKey| keys.contains(k) <==> entries.dom().map(f).contains(k) by {
        lemma_packed(k);
        if keys.contains(k) {
            assert(entries.dom().contains(packed(k)) && f(packed(k)) == k);
        }
        if entries.dom().map(f).contains(k) {
            let n = choose|n: u64| entries.dom().contains(n) && f(n) == k;
            assert(packed(unpacked(n)) == n);
        }
    }
    assert(entries.dom().map(f) =~= keys);
    assert forall|a: u64, b: u64|
        entries.dom().contains(a) && entries.dom().contains(b) && #[trigger] f(a) == #[trigger] f(
            b,
        ) implies a == b by {
        assert(packed(unpacked(a)) == a && packed(unpacked(b)) == b);
    }
    vstd::set_lib::lemma_map_size(entries.dom(), keys, f);
}

/// Storing and removing under a packed key is storing and removing under the key.
proof fn lemma_changes(entries: Map<u64, TrackMetadata>, key: MetadataKey, metadata: TrackMetadata)
    requires
        all_packed(entries.dom()),
    ensures
        map_of(entries.insert(packed(key), metadata)) == map_of(entries).insert(key, metadata@),
        map_of(entries.remove(packed(key))) == map_of(entries).remove(key),
        all_packed(entries.insert(packed(key), metadata).dom()),
        all_packed(entries.remove(packed(key)).dom()),
{
    lemma_packed(key);
    assert forall|k: MetadataKey| packed(k) == packed(key) implies k == key by {
        lemma_packed(k);
    }
    assert(map_of(entries.insert(packed(key), metadata)) =~= map_of(entries).insert(
        key,
        metadata@,
    ));
    assert(map_of(entries.remove(packed(key))) =~= map_of(entries).remove(key));
}

impl View for MetadataCache {
    type V = Map<MetadataKey, MetadataView>;

    closed spec fn view(&self) -> Map<MetadataKey, MetadataView> {
        map_of(self.entries@)
    }
}

impl MetadataCache {
    /// Every entry stands under a key, and the bound holds.
    pub closed spec fn wf(&self) -> bool {
        &&& all_packed(self.entries@.dom())
        &&& self.entries@.len() <= CACHE_SIZE
    }

    /// An empty cache.
    pub fn new() -> (cache: MetadataCache)
        ensures
            cache.wf(),
            cache@ == Map::<MetadataKey, MetadataView>::empty(),
    {
        let cache = MetadataCache { entries: HashMap::new() };
        assert(cache@ =~= Map::<MetadataKey, MetadataView>::empty());
        cache
    }

    /// The cache never holds more than its bound.
    pub proof fn lemma_bounded(&self)
        requires
            self.wf(),
        ensures
            self@.dom().finite(),
            self@.len() <= CACHE_SIZE,
    {
        lemma_size(self.entries@);
    }

    /// The metadata under `key`.
    pub fn get(&self, key: &MetadataKey) -> (metadata: Option<&TrackMetadata>)
        requires
            self.wf(),
        ensures
            match metadata {
                Some(m) => self@.contains_key(*key) && self@[*key] == m@,
                None => !self@.contains_key(*key),
            },
    {
        self.entries.get(&pack(key))
    }

    /// Whether there is metadata under `key`.
    pub fn contains_key(&self, key: &MetadataKey) -> (yes: bool)
        requires
            self.wf(),
        ensures
            yes == self@.contains_key(*key),
    {
        self.entries.contains_key(&pack(key))
    }

    /// The number of the entry that was fetched first, if there is any.
    fn find_oldest(&self) -> (oldest: Option<u64>)
        ensures
            match oldest {
                Some(n) => self.entries@.contains_key(n) && forall|k: u64| #[trigger]
                    self.entries@.contains_key(k) ==> self.entries@[n].fetched_at
                        <= self.entries@[k].fetched_at,
                None => self.entries@.len() == 0,
            },
    {
        let mut oldest: Option<(u64, u64)> = None;
        for number in it: self.entries.keys()
            invariant
                it.seq().unref().to_set() == self.entries@.dom(),
                it.seq().len() == self.entries@.len(),
                match oldest {
                    Some((n, fetched_at)) => {
                        &&& self.entries@.contains_key(n)
                        &&& self.entries@[n].fetched_at == fetched_at
                        &&& forall|j: int|
                            0 <= j < it.index() ==> fetched_at <= self.entries@[*#[trigger]
                            it.seq()[j]].fetched_at
                    },
                    None => it.index() == 0,
                },
        {
            let n: u64 = *number;
            match self.entries.get(&n) {
                Some(metadata) => {
                    let earlier = match oldest {
                        Some((_, fetched_at)) => metadata.fetched_at < fetched_at,
                        None => true,
                    };
                    if earlier {
                        oldest = Some((n, metadata.fetched_at));
                    }
                },
                None => {},
            }
        }
        match oldest {
            Some((n, _)) => Some(n),
            None => None,
        }
    }

    /// Stores `metadata` under `key`; a full cache first gives up its oldest entry.
    pub fn insert(&mut self, key: MetadataKey, metadata: TrackMetadata)
        requires
            old(self).wf(),
        ensures
            final(self).wf(),
            stored(old(self)@, final(self)@, key, metadata@),
    {
        proof {
            lemma_size(self.entries@);
        }
        if self.entries.len() >= CACHE_SIZE {
            match self.find_oldest() {
                Some(n) => {
                    let ghost leaving = unpacked(n);
                    proof {
                        lemma_changes(self.entries@, leaving, metadata);
                        assert(packed(leaving) == n);
                        assert(is_oldest(self@, leaving));
                    }
                    let _ = self.entries.remove(&n);
                    assert(self@ == old(self)@.remove(leaving));
                },
                None => {},
            }
        }
        let ghost middle = self.entries@;
        proof {
            lemma_changes(middle, key, metadata);
        }
        self.entries.insert(pack(&key), metadata);
    }
}

/// The tracks that are being asked about.
pub struct PendingFetches {
    keys: HashSet<u64>,
}

impl View for PendingFetches {
    type V = Set<MetadataKey>;

    closed spec fn view(&self) -> Set<MetadataKey> {
        Set::new(|k: MetadataKey| self.keys@.contains(packed(k)))
    }
}

impl PendingFetches {
    /// Every number stands for a key.
    pub closed spec fn wf(&self) -> bool {
        all_packed(self.keys@)
    }

    /// Nothing is being asked.
    pub fn new() -> (pending: PendingFetches)
        ensures
            pending.wf(),
            pending@ == Set::<MetadataKey>::empty(),
    {
        let pending = PendingFetches { keys: HashSet::new() };
        assert(pending@ =~= Set::<MetadataKey>::empty());
        pending
    }

    /// Whether `key` is being asked about.
    pub fn contains(&self, key: &MetadataKey) -> (yes: bool)
        ensures
            yes == self@.contains(*key),
    {
        self.keys.contains(&pack(key))
    }

    /// Notes that `key` is being asked about.
    pub fn insert(&mut self, key: MetadataKey)
        requires
            old(self).wf(),
        ensures
            final(self).wf(),
            final(self)@ == old(self)@.insert(key),
    {
        self.keys.insert(pack(&key));
        proof {
            lemma_packed(key);
            assert forall|k: MetadataKey| packed(k) == packed(key) implies k == key by {
                lemma_packed(k);
            }
            assert(self@ =~= old(self)@.insert(key));
        }
    }

    /// Notes that `key` is no longer being asked about.
    pub fn remove(&mut self, key: &MetadataKey)
        requires
            old(self).wf(),
        ensures
            final(self).wf(),
            final(self)@ == old(self)@.remove(*key),
    {
        self.keys.remove(&pack(key));
        proof {
            assert forall|k: MetadataKey| packed(k) == packed(*key) implies k == *key by {
                lemma_packed(k);
                lemma_packed(*key);
            }
            assert(self@ =~= old(self)@.remove(*key));
        }
    }
}

} // verus!
