//! The bounded store: a ring of fixed capacity that keeps the most recent
//! samples and evicts the oldest one once it is full.

use vstd::prelude::*;
use crate::sample::Sample;

verus! {

/// The number of samples a store keeps unless told otherwise: one day at one
/// sample per minute.
pub const DEFAULT_CAPACITY: usize = 1440;

/// The last `capacity` entries of `all`; all of it where it has no more.
pub open spec fn most_recent(all: Seq<Sample>, capacity: nat) -> Seq<Sample> {
    if all.len() <= capacity {
        all
    } else {
        all.skip(all.len() - capacity)
    }
}

/// What a store of the given capacity holds, oldest first, once `sample` has
/// been appended to `held`: the last `capacity` entries of `held` followed by
/// `sample`.
pub open spec fn appended(held: Seq<Sample>, capacity: nat, sample: Sample) -> Seq<Sample> {
    most_recent(held.push(sample), capacity)
}

/// What a store of the given capacity holds once every entry of `samples` has
/// been appended to `held`, in order.
pub open spec fn appended_all(held: Seq<Sample>, capacity: nat, samples: Seq<Sample>) -> Seq<
    Sample,
>
    decreases samples.len(),
{
    if samples.len() == 0 {
        held
    } else {
        appended(appended_all(held, capacity, samples.drop_last()), capacity, samples.last())
    }
}

/// The most recent entry of `held`, where `held` is ordered oldest first.
pub open spec fn newest(held: Seq<Sample>) -> Option<Sample> {
    if held.len() == 0 {
        None
    } else {
        Some(held.last())
    }
}

/// The `limit` most recent entries of `held`, most recent first; all of them
/// where `held` has fewer than `limit`.
pub open spec fn newest_first(held: Seq<Sample>, limit: nat) -> Seq<Sample> {
    let count = if limit <= held.len() { limit } else { held.len() };
    Seq::new(count, |i: int| held[held.len() - 1 - i])
}

/// Whether the timestamps of `held` never decrease from one entry to the next.
pub open spec fn chronological(held: Seq<Sample>) -> bool {
    forall|i: int, j: int| 0 <= i <= j < held.len() ==> held[i].timestamp <= held[j].timestamp
}

/// Whether `sample` may follow `held` in capture order: it is no older than
/// the most recent entry.
pub open spec fn follows(held: Seq<Sample>, sample: Sample) -> bool {
    held.len() > 0 ==> held.last().timestamp <= sample.timestamp
}

/// A fixed-capacity store of samples in order of insertion.
///
/// The view is the sequence of samples held, oldest first. It never grows
/// beyond the capacity: once the store is full each append evicts the oldest
/// entry.
pub struct TelemetryStore {
    slots: Vec<Sample>,
    capacity: usize,
    /// The slot that holds the oldest entry, which the next append overwrites
    /// once the ring is full. It stays at 0 while the ring is filling.
    next: usize,
}

impl View for TelemetryStore {
    type V = Seq<Sample>;

    closed spec fn view(&self) -> Seq<Sample> {
        self.slots@.subrange(self.next as int, self.slots@.len() as int) + self.slots@.subrange(
            0,
            self.next as int,
        )
    }
}

impl TelemetryStore {
    /// The ring is consistent: it holds no more than its capacity, and the
    /// oldest entry sits in slot 0 until the ring has filled up.
    pub closed spec fn wf(&self) -> bool {
        &&& self.slots@.len() <= self.capacity
        &&& self.next == 0 || (self.slots@.len() == self.capacity && self.next < self.capacity)
    }

    /// The capacity the store was created with.
    pub closed spec fn cap(&self) -> nat {
        self.capacity as nat
    }

    /// An empty store that keeps at most `capacity` samples.
    ///
    /// Room for the whole ring is set aside at once where the allocator
    /// grants it, so that appends need not move what is held.
    pub fn new(capacity: usize) -> (store: Self)
        ensures
            store.wf(),
            store@ == Seq::<Sample>::empty(),
            store.cap() == capacity,
    {
        let mut slots: Vec<Sample> = Vec::new();
        let _ = slots.try_reserve(capacity);
        let store = TelemetryStore { slots, capacity, next: 0 };
        assert(store@ =~= Seq::<Sample>::empty());
        store
    }

    /// The capacity the store was created with.
    pub fn capacity(&self) -> (capacity: usize)
        ensures
            capacity == self.cap(),
    {
        self.capacity
    }

    /// The number of samples held.
    pub fn len(&self) -> (len: usize)
        requires
            self.wf(),
        ensures
            len == self@.len(),
            len <= self.cap(),
    {
        self.slots.len()
    }

    /// Whether the store holds no sample.
    pub fn is_empty(&self) -> (empty: bool)
        requires
            self.wf(),
        ensures
            empty == (self@.len() == 0),
    {
        self.slots.len() == 0
    }

    /// Appends `sample` as the most recent entry. A full store first evicts
    /// its oldest entry; a store of capacity 0 stays empty.
    pub fn append(&mut self, sample: Sample)
        requires
            old(self).wf(),
        ensures
            final(self).wf(),
            final(self)@ == appended(old(self)@, old(self).cap(), sample),
            final(self).cap() == old(self).cap(),
            chronological(old(self)@) && follows(old(self)@, sample) ==> chronological(final(self)@),
    {
        proof {
            if chronological(self@) && follows(self@, sample) {
                lemma_append_keeps_order(self@, self.cap(), sample);
            }
        }
        let len: usize = self.slots.len();
        if len < self.capacity {
            self.slots.push(sample);
            assert(self@ =~= appended(old(self)@, old(self).cap(), sample));
        } else if self.capacity > 0 {
            self.slots.set(self.next, sample);
            self.next = if self.next + 1 == self.capacity {
                0
            } else {
                self.next + 1
            };
            assert(self@ =~= appended(old(self)@, old(self).cap(), sample));
        } else {
            assert(self@ =~= appended(old(self)@, old(self).cap(), sample));
        }
    }

    /// The most recently appended sample, or `None` where the store is empty.
    pub fn latest(&self) -> (latest: Option<Sample>)
        requires
            self.wf(),
        ensures
            latest == newest(self@),
    {
        let len: usize = self.slots.len();
        if len == 0 {
            None
        } else if self.next == 0 {
            Some(self.slots[len - 1])
        } else {
            Some(self.slots[self.next - 1])
        }
    }

    /// The `limit` most recent samples, most recent first; all of them where
    /// the store holds fewer.
    pub fn history(&self, limit: usize) -> (samples: Vec<Sample>)
        requires
            self.wf(),
        ensures
            samples@ == newest_first(self@, limit as nat),
            samples@.len() == if limit <= self@.len() { limit as nat } else { self@.len() },
    {
        let len: usize = self.slots.len();
        let count: usize = if limit <= len { limit } else { len };
        let mut samples: Vec<Sample> = Vec::new();
        let mut taken: usize = 0;
        while taken < count
            invariant
                taken <= count <= len,
                len == self.slots@.len(),
                self.next <= len,
                samples@.len() == taken,
                forall|i: int| 0 <= i < taken ==> samples@[i] == self@[len - 1 - i],
            decreases count - taken,
        {
            let back: usize = taken + 1;
            let slot: usize = if back <= self.next {
                self.next - back
            } else {
                len - (back - self.next)
            };
            samples.push(self.slots[slot]);
            taken = back;
        }
        assert(samples@ =~= newest_first(self@, limit as nat));
        samples
    }
}

impl Default for TelemetryStore {
    /// An empty store of the default capacity.
    fn default() -> (store: Self)
        ensures
            store.wf(),
            store@ == Seq::<Sample>::empty(),
            store.cap() == DEFAULT_CAPACITY,
    {
        TelemetryStore::new(DEFAULT_CAPACITY)
    }
}

/// What is held never exceeds the capacity.
pub proof fn lemma_within_capacity(store: TelemetryStore)
    requires
        store.wf(),
    ensures
        store@.len() <= store.cap(),
{
}

/// Appending never leaves more than the capacity, and below the capacity it
/// adds exactly one entry at the recent end.
pub proof fn lemma_appended_len(held: Seq<Sample>, capacity: nat, sample: Sample)
    requires
        held.len() <= capacity,
    ensures
        appended(held, capacity, sample).len() <= capacity,
        held.len() < capacity ==> appended(held, capacity, sample) == held.push(sample),
        held.len() == capacity && capacity > 0 ==> appended(held, capacity, sample) == held.skip(
            1,
        ).push(sample),
        capacity > 0 ==> newest(appended(held, capacity, sample)) == Some(sample),
{
    if held.len() == capacity && capacity > 0 {
        assert(appended(held, capacity, sample) =~= held.skip(1).push(sample));
    }
}

/// A run of appends keeps the most recent `capacity` of everything that was
/// ever appended.
pub proof fn lemma_appended_all(held: Seq<Sample>, capacity: nat, samples: Seq<Sample>)
    requires
        held.len() <= capacity,
    ensures
        appended_all(held, capacity, samples) == most_recent(held + samples, capacity),
    decreases samples.len(),
{
    if samples.len() == 0 {
        assert(held + samples =~= held);
    } else {
        let front = samples.drop_last();
        lemma_appended_all(held, capacity, front);
        assert((held + front).push(samples.last()) =~= held + samples);
        assert(appended(most_recent(held + front, capacity), capacity, samples.last())
            =~= most_recent(held + samples, capacity));
    }
}

/// Append, then read: after `samples` has been appended to an empty store
/// that is large enough for all of them, a history of that many entries is
/// exactly `samples` in reverse order of insertion.
pub proof fn lemma_append_then_read(capacity: nat, samples: Seq<Sample>)
    requires
        samples.len() <= capacity,
    ensures
        newest_first(appended_all(Seq::empty(), capacity, samples), samples.len())
            == samples.reverse(),
{
    lemma_appended_all(Seq::empty(), capacity, samples);
    assert(Seq::<Sample>::empty() + samples =~= samples);
    assert(newest_first(samples, samples.len()) =~= samples.reverse());
}

/// Eviction: once more samples have been appended than the store can keep,
/// it holds exactly `capacity` entries, namely the most recent ones; with one
/// sample too many, everything but the oldest. The oldest is then gone for
/// good unless a later sample equals it.
pub proof fn lemma_eviction(capacity: nat, samples: Seq<Sample>)
    requires
        samples.len() > capacity,
    ensures
        appended_all(Seq::empty(), capacity, samples) == samples.skip(samples.len() - capacity),
        appended_all(Seq::empty(), capacity, samples).len() == capacity,
        samples.len() == capacity + 1 ==> appended_all(Seq::empty(), capacity, samples)
            == samples.skip(1),
        samples.no_duplicates() ==> !appended_all(Seq::empty(), capacity, samples).contains(
            samples[0],
        ),
{
    lemma_appended_all(Seq::empty(), capacity, samples);
    assert(Seq::<Sample>::empty() + samples =~= samples);
    if samples.no_duplicates() {
        let kept = samples.skip(samples.len() - capacity);
        if kept.contains(samples[0]) {
            let i = choose|i: int| 0 <= i < kept.len() && kept[i] == samples[0];
            assert(samples[i + samples.len() - capacity] == samples[0]);
        }
    }
}

/// Reading an empty store: every history is empty, whatever the limit, and
/// there is no latest sample.
pub proof fn lemma_empty_reads(limit: nat)
    ensures
        newest_first(Seq::empty(), limit) == Seq::<Sample>::empty(),
        newest(Seq::empty()) == None::<Sample>,
{
    assert(newest_first(Seq::empty(), limit) =~= Seq::<Sample>::empty());
}

/// Clamping: a history never has more entries than the limit nor than the
/// store; a limit of 0 gives none, and a limit at or above what is stored
/// gives every entry, most recent first.
pub proof fn lemma_history_clamped(held: Seq<Sample>, limit: nat)
    ensures
        newest_first(held, limit).len() <= limit,
        newest_first(held, limit).len() <= held.len(),
        limit == 0 ==> newest_first(held, limit) == Seq::<Sample>::empty(),
        limit >= held.len() ==> newest_first(held, limit) == held.reverse(),
{
    if limit == 0 {
        assert(newest_first(held, limit) =~= Seq::<Sample>::empty());
    }
    if limit >= held.len() {
        assert(newest_first(held, limit) =~= held.reverse());
    }
}

/// The latest sample is the head of every non-empty history.
pub proof fn lemma_latest_heads_history(held: Seq<Sample>, limit: nat)
    requires
        limit > 0,
        held.len() > 0,
    ensures
        newest(held) == Some(newest_first(held, limit)[0]),
{
}

/// A shorter history is a prefix of a longer one.
pub proof fn lemma_history_prefix(held: Seq<Sample>, shorter: nat, longer: nat)
    requires
        shorter <= longer,
    ensures
        newest_first(held, shorter) == newest_first(held, longer).take(
            newest_first(held, shorter).len() as int,
        ),
{
    assert(newest_first(held, shorter) =~= newest_first(held, longer).take(
        newest_first(held, shorter).len() as int,
    ));
}

/// Samples that arrive in capture order leave the store in capture order.
pub proof fn lemma_append_keeps_order(held: Seq<Sample>, capacity: nat, sample: Sample)
    requires
        chronological(held),
        follows(held, sample),
    ensures
        chronological(appended(held, capacity, sample)),
{
    let all = held.push(sample);
    assert(chronological(all)) by {
        assert forall|i: int, j: int| 0 <= i <= j < all.len() implies all[i].timestamp
            <= all[j].timestamp by {
            if j == held.len() && i < held.len() {
                assert(held[i].timestamp <= held.last().timestamp);
            }
        }
    }
}

/// A history of a store in capture order runs from the most recent timestamp
/// downwards.
pub proof fn lemma_history_descends(held: Seq<Sample>, limit: nat)
    requires
        chronological(held),
    ensures
        forall|i: int, j: int|
            0 <= i <= j < newest_first(held, limit).len() ==> newest_first(held, limit)[i].timestamp
                >= newest_first(held, limit)[j].timestamp,
{
}

} // verus!
