//! A bounded cache of decoded preview frames.
//!
//! The source clock is divided into buckets of a fixed width, and one frame
//! is kept per (path, bucket). The cache is viewed as the sequence of its
//! entries from the least recently used to the most recently used.

use vstd::prelude::*;
use vstd::string::StringExecFns;
use crate::preview::PreviewFrame;

verus! {

/// One cached frame and the key it is found by.
pub struct CacheSlot {
    pub path: Seq<char>,
    pub bucket: int,
    pub frame: PreviewFrame,
}

#[derive(Debug)]
struct CacheEntry {
    path: String,
    bucket: i64,
    frame: PreviewFrame,
}

/// Least-recently-used cache for decoded preview frames, bucketed by source
/// timeline ticks.
#[derive(Debug)]
pub struct PreviewFrameCache {
    capacity: usize,
    bucket_size_tl: i64,
    entries: Vec<CacheEntry>,
}

/// The bucket that a source position falls in: positions before zero fall
/// in the first bucket.
pub open spec fn bucket_of(source_tl: int, bucket_size_tl: int) -> int
    recommends
        bucket_size_tl > 0,
{
    (if source_tl < 0 {
        0
    } else {
        source_tl
    }) / bucket_size_tl
}

/// Index of the first slot at or after `from` with the given key.
pub open spec fn find_slot_from(slots: Seq<CacheSlot>, path: Seq<char>, bucket: int, from: int) -> Option<
    int,
>
    decreases slots.len() - from,
{
    if from < 0 || from >= slots.len() {
        None
    } else if slots[from].path == path && slots[from].bucket == bucket {
        Some(from)
    } else {
        find_slot_from(slots, path, bucket, from + 1)
    }
}

/// Index of the slot with the given key.
pub open spec fn find_slot(slots: Seq<CacheSlot>, path: Seq<char>, bucket: int) -> Option<int> {
    find_slot_from(slots, path, bucket, 0)
}

/// Whether some slot has the given key.
pub open spec fn has_key(slots: Seq<CacheSlot>, path: Seq<char>, bucket: int) -> bool {
    exists|i: int|
        0 <= i < slots.len() && (#[trigger] slots[i]).path == path && slots[i].bucket == bucket
}

/// A key is found exactly when some slot has it.
pub proof fn lemma_find_slot_has_key(slots: Seq<CacheSlot>, path: Seq<char>, bucket: int)
    ensures
        find_slot(slots, path, bucket) is Some <==> has_key(slots, path, bucket),
{
    lemma_find_slot_from(slots, path, bucket, 0);
    if let Some(i) = find_slot(slots, path, bucket) {
        assert(slots[i].path == path && slots[i].bucket == bucket);
    }
}

/// No two slots have the same key.
pub open spec fn distinct_keys(slots: Seq<CacheSlot>) -> bool {
    forall|i: int, j: int|
        0 <= i < j < slots.len() ==> !((#[trigger] slots[i]).path == (#[trigger] slots[j]).path
            && slots[i].bucket == slots[j].bucket)
}

/// The slots after slot `i` was used: it becomes the most recent one.
pub open spec fn touch_model(slots: Seq<CacheSlot>, i: int) -> Seq<CacheSlot> {
    slots.remove(i).push(slots[i])
}

/// The slots after a lookup of a key: a hit makes its slot the most recent
/// one, a miss changes nothing.
pub open spec fn get_model(slots: Seq<CacheSlot>, path: Seq<char>, bucket: int) -> Seq<CacheSlot> {
    match find_slot(slots, path, bucket) {
        Some(i) => touch_model(slots, i),
        None => slots,
    }
}

/// The slots after `slot` was stored: a slot with the same key is replaced,
/// the new slot is the most recent one, and when that makes more slots than
/// `capacity`, the least recent one leaves.
pub open spec fn insert_model(slots: Seq<CacheSlot>, capacity: int, slot: CacheSlot) -> Seq<CacheSlot> {
    let kept = match find_slot(slots, slot.path, slot.bucket) {
        Some(i) => slots.remove(i),
        None => slots,
    };
    let stored = kept.push(slot);
    if stored.len() > capacity {
        stored.drop_first()
    } else {
        stored
    }
}

/// A search from `from` returns the least matching index at or after it.
pub proof fn lemma_find_slot_from(slots: Seq<CacheSlot>, path: Seq<char>, bucket: int, from: int)
    requires
        0 <= from <= slots.len(),
    ensures
        match find_slot_from(slots, path, bucket, from) {
            Some(i) => from <= i < slots.len() && slots[i].path == path && slots[i].bucket
                == bucket && forall|j: int|
                from <= j < i ==> !((#[trigger] slots[j]).path == path && slots[j].bucket
                    == bucket),
            None => forall|j: int|
                from <= j < slots.len() ==> !((#[trigger] slots[j]).path == path
                    && slots[j].bucket == bucket),
        },
    decreases slots.len() - from,
{
    if from < slots.len() && !(slots[from].path == path && slots[from].bucket == bucket) {
        lemma_find_slot_from(slots, path, bucket, from + 1);
    }
}

/// With distinct keys, the slot that holds a key is the one the search
/// finds.
pub proof fn lemma_find_slot_unique(slots: Seq<CacheSlot>, i: int)
    requires
        distinct_keys(slots),
        0 <= i < slots.len(),
    ensures
        find_slot(slots, slots[i].path, slots[i].bucket) == Some(i),
{
    lemma_find_slot_from(slots, slots[i].path, slots[i].bucket, 0);
}

/// A lookup keeps the keys distinct and the number of slots.
pub proof fn lemma_get_model(slots: Seq<CacheSlot>, path: Seq<char>, bucket: int)
    requires
        distinct_keys(slots),
    ensures
        distinct_keys(get_model(slots, path, bucket)),
        get_model(slots, path, bucket).len() == slots.len(),
        find_slot(slots, path, bucket) is Some ==> get_model(slots, path, bucket).last()
            == slots[find_slot(slots, path, bucket)->0],
{
    lemma_find_slot_from(slots, path, bucket, 0);
    let after = get_model(slots, path, bucket);
    if let Some(i) = find_slot(slots, path, bucket) {
        assert forall|k: int, l: int| 0 <= k < l < after.len() implies !((
        #[trigger] after[k]).path == (#[trigger] after[l]).path && after[k].bucket
            == after[l].bucket) by {
            let ok = if k < i {
                k
            } else {
                k + 1
            };
            let ol = if l == after.len() - 1 {
                i
            } else if l < i {
                l
            } else {
                l + 1
            };
            assert(after[k] == slots[ok]);
            assert(after[l] == slots[ol]);
            assert(ok != ol);
            if ok < ol {
                assert(!(slots[ok].path == slots[ol].path && slots[ok].bucket == slots[ol].bucket));
            } else {
                assert(!(slots[ol].path == slots[ok].path && slots[ol].bucket == slots[ok].bucket));
            }
        }
    }
}

/// Two slots have the same key.
pub open spec fn same_key(a: CacheSlot, b: CacheSlot) -> bool {
    a.path == b.path && a.bucket == b.bucket
}

/// Taking a slot out keeps the keys distinct, and no slot that stays has
/// the key that left.
pub proof fn lemma_remove_distinct(slots: Seq<CacheSlot>, i: int)
    requires
        distinct_keys(slots),
        0 <= i < slots.len(),
    ensures
        distinct_keys(slots.remove(i)),
        forall|k: int|
            0 <= k < slots.remove(i).len() ==> !same_key(#[trigger] slots.remove(i)[k], slots[i]),
{
    let kept = slots.remove(i);
    assert forall|k: int| 0 <= k < kept.len() implies !same_key(#[trigger] kept[k], slots[i]) by {
        if k < i {
            assert(kept[k] == slots[k]);
            assert(!(slots[k].path == slots[i].path && slots[k].bucket == slots[i].bucket));
        } else {
            assert(kept[k] == slots[k + 1]);
            assert(!(slots[i].path == slots[k + 1].path && slots[i].bucket == slots[k
                + 1].bucket));
        }
    }
    assert forall|k: int, l: int| 0 <= k < l < kept.len() implies !((#[trigger] kept[k]).path == (
    #[trigger] kept[l]).path && kept[k].bucket == kept[l].bucket) by {
        let ok = if k < i {
            k
        } else {
            k + 1
        };
        let ol = if l < i {
            l
        } else {
            l + 1
        };
        assert(kept[k] == slots[ok] && kept[l] == slots[ol]);
        assert(!(slots[ok].path == slots[ol].path && slots[ok].bucket == slots[ol].bucket));
    }
}

/// Adding a slot whose key no slot has keeps the keys distinct.
pub proof fn lemma_push_distinct(slots: Seq<CacheSlot>, slot: CacheSlot)
    requires
        distinct_keys(slots),
        forall|k: int| 0 <= k < slots.len() ==> !same_key(#[trigger] slots[k], slot),
    ensures
        distinct_keys(slots.push(slot)),
{
    let stored = slots.push(slot);
    assert forall|k: int, l: int| 0 <= k < l < stored.len() implies !((#[trigger] stored[k]).path
        == (#[trigger] stored[l]).path && stored[k].bucket == stored[l].bucket) by {
        assert(stored[k] == slots[k]);
        if l < slots.len() {
            assert(stored[l] == slots[l]);
        } else {
            assert(!same_key(slots[k], slot));
        }
    }
}

/// Dropping the first slot keeps the keys distinct.
pub proof fn lemma_drop_first_distinct(slots: Seq<CacheSlot>)
    requires
        distinct_keys(slots),
        slots.len() > 0,
    ensures
        distinct_keys(slots.drop_first()),
{
    let rest = slots.drop_first();
    assert forall|k: int, l: int| 0 <= k < l < rest.len() implies !((#[trigger] rest[k]).path == (
    #[trigger] rest[l]).path && rest[k].bucket == rest[l].bucket) by {
        assert(rest[k] == slots[k + 1] && rest[l] == slots[l + 1]);
    }
}

/// Storing a slot keeps the keys distinct and the cache within its
/// capacity, and the stored slot is the most recent one.
pub proof fn lemma_insert_model(slots: Seq<CacheSlot>, capacity: int, slot: CacheSlot)
    requires
        distinct_keys(slots),
        slots.len() <= capacity,
        capacity > 0,
    ensures
        distinct_keys(insert_model(slots, capacity, slot)),
        0 < insert_model(slots, capacity, slot).len() <= capacity,
        insert_model(slots, capacity, slot).last() == slot,
        find_slot(insert_model(slots, capacity, slot), slot.path, slot.bucket) == Some(
            insert_model(slots, capacity, slot).len() - 1,
        ),
{
    lemma_find_slot_from(slots, slot.path, slot.bucket, 0);
    let found = find_slot(slots, slot.path, slot.bucket);
    let kept = match found {
        Some(i) => slots.remove(i),
        None => slots,
    };
    match found {
        Some(i) => {
            lemma_remove_distinct(slots, i);
        },
        None => {},
    }
    assert forall|k: int| 0 <= k < kept.len() implies !same_key(#[trigger] kept[k], slot) by {
        match found {
            Some(i) => {
                assert(!same_key(kept[k], slots[i]));
            },
            None => {},
        }
    }
    lemma_push_distinct(kept, slot);
    let stored = kept.push(slot);
    let after = insert_model(slots, capacity, slot);
    if stored.len() > capacity {
        lemma_drop_first_distinct(stored);
        assert(after.last() == stored.last());
    }
    lemma_find_slot_unique(after, after.len() - 1);
}

/// Storing a new key in a full cache evicts exactly the least recently
/// used slot: every other slot stays, in its order, and the new slot is the
/// most recent one.
pub proof fn lemma_insert_evicts_least_recent(slots: Seq<CacheSlot>, capacity: int, slot: CacheSlot)
    requires
        distinct_keys(slots),
        capacity > 0,
        slots.len() == capacity,
        find_slot(slots, slot.path, slot.bucket) is None,
    ensures
        insert_model(slots, capacity, slot) == slots.drop_first().push(slot),
        find_slot(insert_model(slots, capacity, slot), slots[0].path, slots[0].bucket) is None,
        forall|i: int|
            1 <= i < slots.len() ==> find_slot(
                insert_model(slots, capacity, slot),
                (#[trigger] slots[i]).path,
                slots[i].bucket,
            ) == Some(i - 1),
{
    let after = insert_model(slots, capacity, slot);
    assert(after =~= slots.drop_first().push(slot));
    lemma_insert_model(slots, capacity, slot);
    lemma_find_slot_from(slots, slot.path, slot.bucket, 0);
    lemma_find_slot_from(after, slots[0].path, slots[0].bucket, 0);
    if let Some(j) = find_slot(after, slots[0].path, slots[0].bucket) {
        if j < after.len() - 1 {
            assert(after[j] == slots[j + 1]);
            assert(!(slots[0].path == slots[j + 1].path && slots[0].bucket == slots[j + 1].bucket));
        } else {
            assert(after[j] == slot);
        }
    }
    assert forall|i: int| 1 <= i < slots.len() implies find_slot(
        after,
        (#[trigger] slots[i]).path,
        slots[i].bucket,
    ) == Some(i - 1) by {
        assert(after[i - 1] == slots[i]);
        lemma_find_slot_unique(after, i - 1);
    }
}

/// The slots after the first `n` slots of `batch` were stored, one after
/// the other.
pub open spec fn insert_all(slots: Seq<CacheSlot>, capacity: int, batch: Seq<CacheSlot>, n: int) -> Seq<
    CacheSlot,
>
    decreases n,
{
    if n <= 0 {
        slots
    } else {
        insert_model(insert_all(slots, capacity, batch, n - 1), capacity, batch[n - 1])
    }
}

/// Storing slots with distinct keys in an empty cache keeps the last
/// `capacity` of them, in the order in which they were stored: as long as
/// they fit all stay, and each one more evicts the one stored earliest.
pub proof fn lemma_fill_evicts_in_order(capacity: int, batch: Seq<CacheSlot>, n: int)
    requires
        capacity > 0,
        distinct_keys(batch),
        0 <= n <= batch.len(),
    ensures
        insert_all(Seq::empty(), capacity, batch, n) == batch.subrange(
            if n > capacity {
                n - capacity
            } else {
                0
            },
            n,
        ),
    decreases n,
{
    let start = if n > capacity {
        n - capacity
    } else {
        0
    };
    if n == 0 {
        assert(batch.subrange(0, 0) =~= Seq::<CacheSlot>::empty());
    } else {
        lemma_fill_evicts_in_order(capacity, batch, n - 1);
        let before_start = if n - 1 > capacity {
            n - 1 - capacity
        } else {
            0
        };
        let before = batch.subrange(before_start, n - 1);
        let slot = batch[n - 1];
        lemma_find_slot_from(before, slot.path, slot.bucket, 0);
        if let Some(j) = find_slot(before, slot.path, slot.bucket) {
            assert(before[j] == batch[before_start + j]);
            assert(!(batch[before_start + j].path == batch[n - 1].path && batch[before_start
                + j].bucket == batch[n - 1].bucket));
        }
        assert(insert_model(before, capacity, slot) =~= batch.subrange(start, n));
    }
}

/// A lookup protects what it finds from the next eviction: in a full cache
/// of at least two slots, after a hit on a key and the storing of a new
/// key, the key that was hit is still cached, and the slot that left is
/// the least recently used of the others.
pub proof fn lemma_get_protects_from_eviction(
    slots: Seq<CacheSlot>,
    capacity: int,
    path: Seq<char>,
    bucket: int,
    slot: CacheSlot,
)
    requires
        distinct_keys(slots),
        capacity >= 2,
        slots.len() == capacity,
        find_slot(slots, path, bucket) is Some,
        find_slot(slots, slot.path, slot.bucket) is None,
    ensures
        ({
            let hit = find_slot(slots, path, bucket)->0;
            let after = insert_model(get_model(slots, path, bucket), capacity, slot);
            let victim = if hit == 0 {
                1int
            } else {
                0int
            };
            &&& find_slot(after, path, bucket) is Some
            &&& after[find_slot(after, path, bucket)->0].frame == slots[hit].frame
            &&& find_slot(after, slots[victim].path, slots[victim].bucket) is None
            &&& find_slot(after, slot.path, slot.bucket) is Some
            &&& after.len() == capacity
        }),
{
    lemma_find_slot_from(slots, path, bucket, 0);
    let hit = find_slot(slots, path, bucket)->0;
    let touched = get_model(slots, path, bucket);
    lemma_get_model(slots, path, bucket);
    lemma_find_slot_from(slots, slot.path, slot.bucket, 0);
    lemma_find_slot_from(touched, slot.path, slot.bucket, 0);
    if let Some(j) = find_slot(touched, slot.path, slot.bucket) {
        let o = if j == touched.len() - 1 {
            hit
        } else if j < hit {
            j
        } else {
            j + 1
        };
        assert(touched[j] == slots[o]);
    }
    lemma_insert_evicts_least_recent(touched, capacity, slot);
    let after = insert_model(touched, capacity, slot);
    let victim = if hit == 0 {
        1int
    } else {
        0int
    };
    assert(touched[0] == slots[victim]);
    assert(touched[touched.len() - 1] == slots[hit]);
    assert(after[after.len() - 2] == slots[hit]);
    lemma_insert_model(touched, capacity, slot);
    lemma_find_slot_unique(after, after.len() - 2);
}

impl View for PreviewFrameCache {
    type V = Seq<CacheSlot>;

    closed spec fn view(&self) -> Seq<CacheSlot> {
        self.entries@.map_values(
            |e: CacheEntry| CacheSlot { path: e.path@, bucket: e.bucket as int, frame: e.frame },
        )
    }
}

impl PreviewFrameCache {
    /// The cache holds at most `capacity` slots, no key twice, and both
    /// the capacity and the bucket width are positive.
    pub closed spec fn wf(&self) -> bool {
        &&& self.capacity > 0
        &&& self.bucket_size_tl > 0
        &&& self.entries@.len() <= self.capacity
        &&& distinct_keys(self@)
    }

    /// The largest number of frames the cache holds.
    pub closed spec fn spec_capacity(&self) -> int {
        self.capacity as int
    }

    /// The width of one bucket in timeline ticks.
    pub closed spec fn spec_bucket_size_tl(&self) -> i64 {
        self.bucket_size_tl
    }

    /// The key under which a source position of `path` is cached.
    pub open spec fn key_bucket(&self, source_tl: i64) -> int {
        bucket_of(source_tl as int, self.spec_bucket_size_tl() as int)
    }

    /// Creates an empty preview cache.
    pub fn new(capacity: usize, bucket_size_tl: i64) -> (out: Self)
        requires
            capacity > 0,
            bucket_size_tl > 0,
        ensures
            out.wf(),
            out@ == Seq::<CacheSlot>::empty(),
            out.spec_capacity() == capacity,
            out.spec_bucket_size_tl() == bucket_size_tl,
    {
        let out = PreviewFrameCache { capacity, bucket_size_tl, entries: Vec::new() };
        assert(out@ =~= Seq::<CacheSlot>::empty());
        out
    }

    /// Clears all cached frames.
    pub fn clear(&mut self)
        requires
            old(self).wf(),
        ensures
            final(self).wf(),
            final(self)@ == Seq::<CacheSlot>::empty(),
            final(self).spec_capacity() == old(self).spec_capacity(),
            final(self).spec_bucket_size_tl() == old(self).spec_bucket_size_tl(),
    {
        self.entries.clear();
        assert(self@ =~= Seq::<CacheSlot>::empty());
    }

    /// Sets a new bucket width. Frames cached under the old width are
    /// dropped: their keys mean nothing under the new one.
    pub fn reconfigure_bucket_size(&mut self, bucket_size_tl: i64)
        requires
            old(self).wf(),
            bucket_size_tl > 0,
        ensures
            final(self).wf(),
            final(self)@ == Seq::<CacheSlot>::empty(),
            final(self).spec_capacity() == old(self).spec_capacity(),
            final(self).spec_bucket_size_tl() == bucket_size_tl,
    {
        self.bucket_size_tl = bucket_size_tl;
        self.entries.clear();
        assert(self@ =~= Seq::<CacheSlot>::empty());
    }

    /// Returns cache bucket size in timeline ticks.
    pub fn bucket_size_tl(&self) -> (out: i64)
        requires
            self.wf(),
        ensures
            out == self.spec_bucket_size_tl(),
            out > 0,
    {
        self.bucket_size_tl
    }

    /// Returns the number of cached frames.
    pub fn len(&self) -> (out: usize)
        ensures
            out == self@.len(),
    {
        self.entries.len()
    }

    /// Returns true when a frame for the same key bucket already exists.
    pub fn contains(&self, path: &str, source_tl: i64) -> (out: bool)
        requires
            self.wf(),
        ensures
            out == (find_slot(self@, path@, self.key_bucket(source_tl)) is Some),
            out == has_key(self@, path@, self.key_bucket(source_tl)),
    {
        let bucket = self.make_key(source_tl);
        let key_path = String::from_str(path);
        proof {
            lemma_find_slot_has_key(self@, path@, bucket as int);
        }
        self.position(&key_path, bucket).is_some()
    }

    /// Returns one cached frame and marks it as recently used.
    pub fn get(&mut self, path: &str, source_tl: i64) -> (out: Option<PreviewFrame>)
        requires
            old(self).wf(),
        ensures
            final(self).wf(),
            final(self).spec_capacity() == old(self).spec_capacity(),
            final(self).spec_bucket_size_tl() == old(self).spec_bucket_size_tl(),
            final(self)@ == get_model(old(self)@, path@, old(self).key_bucket(source_tl)),
            match find_slot(old(self)@, path@, old(self).key_bucket(source_tl)) {
                Some(i) => out == Some(old(self)@[i].frame),
                None => out is None,
            },
            out is Some <==> has_key(old(self)@, path@, old(self).key_bucket(source_tl)),
            final(self)@.len() == old(self)@.len(),
    {
        let bucket = self.make_key(source_tl);
        let key_path = String::from_str(path);
        proof {
            lemma_find_slot_has_key(self@, path@, bucket as int);
            lemma_get_model(self@, path@, bucket as int);
        }
        let index = match self.position(&key_path, bucket) {
            Some(index) => index,
            None => {
                return None;
            },
        };
        let frame = self.entries[index].frame.clone();
        proof {
            lemma_get_model(self@, path@, bucket as int);
        }
        self.touch(index);
        Some(frame)
    }

    /// Inserts or updates one cached frame. When the cache holds more
    /// frames than its capacity afterwards, the least recently used one is
    /// dropped.
    pub fn insert(&mut self, path: &str, source_tl: i64, frame: PreviewFrame)
        requires
            old(self).wf(),
        ensures
            final(self).wf(),
            final(self).spec_capacity() == old(self).spec_capacity(),
            final(self).spec_bucket_size_tl() == old(self).spec_bucket_size_tl(),
            final(self)@ == insert_model(
                old(self)@,
                old(self).spec_capacity(),
                CacheSlot { path: path@, bucket: old(self).key_bucket(source_tl), frame },
            ),
            final(self)@.len() > 0,
            final(self)@.last() == (CacheSlot {
                path: path@,
                bucket: old(self).key_bucket(source_tl),
                frame,
            }),
            final(self)@.len() == (if has_key(
                old(self)@,
                path@,
                old(self).key_bucket(source_tl),
            ) {
                old(self)@.len()
            } else if old(self)@.len() == old(self).spec_capacity() {
                old(self)@.len()
            } else {
                old(self)@.len() + 1
            }),
    {
        let bucket = self.make_key(source_tl);
        let key_path = String::from_str(path);
        let ghost before = self@;
        let ghost slot = CacheSlot { path: path@, bucket: bucket as int, frame };
        proof {
            lemma_insert_model(before, self.capacity as int, slot);
            lemma_find_slot_from(before, path@, bucket as int, 0);
            lemma_find_slot_has_key(before, path@, bucket as int);
        }
        match self.position(&key_path, bucket) {
            Some(index) => {
                let _ = self.entries.remove(index);
                assert(self@ =~= before.remove(index as int));
            },
            None => {},
        }
        let ghost kept = self@;
        self.entries.push(CacheEntry { path: key_path, bucket, frame });
        assert(self@ =~= kept.push(slot));
        self.evict_if_needed();
    }

    /// The bucket of a source position.
    fn make_key(&self, source_tl: i64) -> (out: i64)
        requires
            self.wf(),
        ensures
            out == self.key_bucket(source_tl),
            out >= 0,
    {
        let clamped = if source_tl < 0 {
            0
        } else {
            source_tl
        };
        proof {
            vstd::arithmetic::div_mod::lemma_div_pos_is_pos(
                clamped as int,
                self.bucket_size_tl as int,
            );
            vstd::arithmetic::div_mod::lemma_div_is_ordered_by_denominator(
                clamped as int,
                1,
                self.bucket_size_tl as int,
            );
        }
        clamped / self.bucket_size_tl
    }

    /// Finds the entry with the given key.
    fn position(&self, path: &String, bucket: i64) -> (out: Option<usize>)
        ensures
            out is Some ==> out->0 < self@.len() && find_slot(self@, path@, bucket as int) == Some(
                out->0 as int,
            ),
            out is None ==> find_slot(self@, path@, bucket as int) is None,
    {
        let mut i: usize = 0;
        proof {
            lemma_find_slot_from(self@, path@, bucket as int, 0);
        }
        while i < self.entries.len()
            invariant
                i <= self.entries@.len(),
                self@.len() == self.entries@.len(),
                forall|j: int|
                    0 <= j < i ==> !((#[trigger] self@[j]).path == path@ && self@[j].bucket
                        == bucket),
                match find_slot_from(self@, path@, bucket as int, 0) {
                    Some(k) => 0 <= k < self@.len() && self@[k].path == path@ && self@[k].bucket
                        == bucket && forall|j: int|
                        0 <= j < k ==> !((#[trigger] self@[j]).path == path@ && self@[j].bucket
                            == bucket),
                    None => forall|j: int|
                        0 <= j < self@.len() ==> !((#[trigger] self@[j]).path == path@
                            && self@[j].bucket == bucket),
                },
            decreases self.entries@.len() - i,
        {
            let entry = &self.entries[i];
            assert(self@[i as int].path == entry.path@ && self@[i as int].bucket == entry.bucket);
            if entry.bucket == bucket && entry.path == *path {
                return Some(i);
            }
            i += 1;
        }
        None
    }

    /// Makes the entry at `index` the most recently used one.
    fn touch(&mut self, index: usize)
        requires
            index < old(self)@.len(),
        ensures
            final(self)@ == touch_model(old(self)@, index as int),
            final(self).capacity == old(self).capacity,
            final(self).bucket_size_tl == old(self).bucket_size_tl,
            final(self).entries@.len() == old(self).entries@.len(),
    {
        let ghost before = self@;
        let entry = self.entries.remove(index);
        assert(self@ =~= before.remove(index as int));
        self.entries.push(entry);
        assert(self@ =~= touch_model(before, index as int));
    }

    /// Drops the least recently used entry when the cache is over its
    /// capacity.
    fn evict_if_needed(&mut self)
        requires
            old(self).entries@.len() <= old(self).capacity + 1,
        ensures
            final(self)@ == (if old(self)@.len() > old(self).capacity {
                old(self)@.drop_first()
            } else {
                old(self)@
            }),
            final(self).capacity == old(self).capacity,
            final(self).bucket_size_tl == old(self).bucket_size_tl,
    {
        let ghost before = self@;
        if self.entries.len() > self.capacity {
            let _ = self.entries.remove(0);
            assert(self@ =~= before.drop_first());
        }
    }
}

} // verus!
