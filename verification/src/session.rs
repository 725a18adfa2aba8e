//! The counter query session: which counters are subscribed, under which
//! logical key, and the raw value that each of them had at the last refresh.

use vstd::prelude::*;

verus! {

/// Identifies a subscribed counter by the metric it feeds.
#[derive(Clone, Copy, Debug, PartialEq, Eq, Structural)]
pub enum CounterKey {
    /// Busy time of all processors together.
    Total,
    /// Busy time of the processor at this position.
    Core(usize),
}

/// The platform's handle for one subscription.
#[derive(Clone, Copy, Debug, PartialEq, Eq, Structural)]
pub struct CounterHandle {
    pub raw: usize,
}

/// One subscribed counter and the raw value of its last reading, if any.
#[derive(Clone, Copy, Debug, PartialEq, Eq, Structural)]
pub struct Counter {
    pub key: CounterKey,
    pub handle: CounterHandle,
    pub sample: Option<u64>,
}

/// The raw value that the platform reported for one handle.
#[derive(Clone, Copy, Debug, PartialEq, Eq, Structural)]
pub struct RawReading {
    pub handle: CounterHandle,
    pub value: u64,
}

/// Position of the first counter subscribed under `key`, if there is one.
pub open spec fn position_of(counters: Seq<Counter>, key: CounterKey) -> Option<int>
    decreases counters.len(),
{
    if counters.len() == 0 {
        None
    } else if counters.last().key == key {
        match position_of(counters.drop_last(), key) {
            Some(i) => Some(i),
            None => Some(counters.len() - 1),
        }
    } else {
        position_of(counters.drop_last(), key)
    }
}

/// Whether a counter is subscribed under `key`.
pub open spec fn has_key(counters: Seq<Counter>, key: CounterKey) -> bool {
    position_of(counters, key) is Some
}

/// The counter subscribed under `key`.
pub open spec fn counter_of(counters: Seq<Counter>, key: CounterKey) -> Counter
    recommends
        has_key(counters, key),
{
    counters[position_of(counters, key).unwrap()]
}

/// No two counters share a key.
pub open spec fn distinct_keys(counters: Seq<Counter>) -> bool {
    forall|i: int, j: int|
        0 <= i < j < counters.len() ==> (#[trigger] counters[i]).key != (#[trigger] counters[j]).key
}

/// The counters after an attempt to subscribe `key`: unchanged where the key is
/// already subscribed or the platform gave no handle, one counter longer
/// otherwise.
pub open spec fn with_counter(
    counters: Seq<Counter>,
    key: CounterKey,
    subscription: Option<CounterHandle>,
) -> Seq<Counter> {
    match subscription {
        Some(handle) => if has_key(counters, key) {
            counters
        } else {
            counters.push(Counter { key, handle, sample: None })
        },
        None => counters,
    }
}

/// The first value that `batch` holds for `handle`, if any.
pub open spec fn reading_of(batch: Seq<RawReading>, handle: CounterHandle) -> Option<u64>
    decreases batch.len(),
{
    if batch.len() == 0 {
        None
    } else if batch[0].handle == handle {
        Some(batch[0].value)
    } else {
        reading_of(batch.drop_first(), handle)
    }
}

/// Whether `batch` holds a value for every counter.
pub open spec fn covers(batch: Seq<RawReading>, counters: Seq<Counter>) -> bool {
    forall|i: int|
        0 <= i < counters.len() ==> reading_of(batch, (#[trigger] counters[i]).handle) is Some
}

/// The counters with each sample overwritten by the value that `batch` holds
/// for its handle.
pub open spec fn resampled(counters: Seq<Counter>, batch: Seq<RawReading>) -> Seq<Counter> {
    Seq::new(
        counters.len(),
        |i: int|
            Counter {
                key: counters[i].key,
                handle: counters[i].handle,
                sample: reading_of(batch, counters[i].handle),
            },
    )
}

/// What `position_of` finds is within bounds, holds the key and is the first
/// position to do so; it finds nothing only where no counter holds the key.
pub proof fn lemma_position_of(counters: Seq<Counter>, key: CounterKey)
    ensures
        match position_of(counters, key) {
            Some(i) => {
                &&& 0 <= i < counters.len()
                &&& counters[i].key == key
                &&& forall|j: int| 0 <= j < i ==> (#[trigger] counters[j]).key != key
            },
            None => forall|j: int| 0 <= j < counters.len() ==> (#[trigger] counters[j]).key != key,
        },
    decreases counters.len(),
{
    if counters.len() > 0 {
        let front = counters.drop_last();
        lemma_position_of(front, key);
        assert(forall|j: int| 0 <= j < front.len() ==> front[j] == counters[j]);
    }
}

/// If nothing before position `i` holds `handle` and position `i` does, the
/// batch's value for the handle is the one at `i`.
pub proof fn lemma_reading_of_first(batch: Seq<RawReading>, handle: CounterHandle, i: int)
    requires
        0 <= i < batch.len(),
        batch[i].handle == handle,
        forall|j: int| 0 <= j < i ==> (#[trigger] batch[j]).handle != handle,
    ensures
        reading_of(batch, handle) == Some(batch[i].value),
    decreases i,
{
    if i > 0 {
        let rest = batch.drop_first();
        lemma_reading_of_first(rest, handle, i - 1);
    }
}

/// A batch in which no reading holds `handle` has no value for it.
pub proof fn lemma_reading_of_none(batch: Seq<RawReading>, handle: CounterHandle)
    requires
        forall|j: int| 0 <= j < batch.len() ==> (#[trigger] batch[j]).handle != handle,
    ensures
        reading_of(batch, handle) is None,
    decreases batch.len(),
{
    if batch.len() > 0 {
        let rest = batch.drop_first();
        lemma_reading_of_none(rest, handle);
    }
}

/// The first value that `batch` holds for `handle`.
pub fn find_reading(batch: &Vec<RawReading>, handle: CounterHandle) -> (r: Option<u64>)
    ensures
        r == reading_of(batch@, handle),
{
    let mut i: usize = 0;
    while i < batch.len()
        invariant
            i <= batch.len(),
            forall|j: int| 0 <= j < i ==> (#[trigger] batch@[j]).handle != handle,
        decreases batch.len() - i,
    {
        if batch[i].handle == handle {
            proof {
                lemma_reading_of_first(batch@, handle, i as int);
            }
            return Some(batch[i].value);
        }
        i += 1;
    }
    proof {
        lemma_reading_of_none(batch@, handle);
    }
    None
}

/// A stateful subscription to a set of counters.
#[derive(Debug)]
pub struct Session {
    counters: Vec<Counter>,
}

impl View for Session {
    type V = Seq<Counter>;

    /// The subscribed counters, in the order of their subscription.
    closed spec fn view(&self) -> Seq<Counter> {
        self.counters@
    }
}

impl Session {
    /// No two counters of the session share a key.
    pub open spec fn wf(&self) -> bool {
        distinct_keys(self@)
    }

    /// Opens a session with no counters. There is none where the platform's
    /// counter subsystem is unavailable.
    pub fn open(available: bool) -> (r: Option<Session>)
        ensures
            r is Some <==> available,
            r matches Some(session) ==> session@ == Seq::<Counter>::empty() && session.wf(),
    {
        if available {
            Some(Session { counters: Vec::new() })
        } else {
            None
        }
    }

    /// The number of subscribed counters.
    pub fn len(&self) -> (r: usize)
        ensures
            r == self@.len(),
    {
        self.counters.len()
    }

    /// The counter subscribed under `key`, if there is one.
    pub fn lookup(&self, key: CounterKey) -> (r: Option<Counter>)
        ensures
            r is Some <==> has_key(self@, key),
            r matches Some(counter) ==> counter == counter_of(self@, key) && counter.key == key,
    {
        let mut i: usize = 0;
        while i < self.counters.len()
            invariant
                i <= self.counters@.len(),
                forall|j: int| 0 <= j < i ==> (#[trigger] self.counters@[j]).key != key,
            decreases self.counters@.len() - i,
        {
            if self.counters[i].key == key {
                proof {
                    lemma_position_of(self@, key);
                }
                return Some(self.counters[i]);
            }
            i += 1;
        }
        proof {
            lemma_position_of(self@, key);
        }
        None
    }

    /// Whether a counter is subscribed under `key`.
    pub fn contains(&self, key: CounterKey) -> (r: bool)
        ensures
            r == has_key(self@, key),
    {
        self.lookup(key).is_some()
    }

    /// Records the outcome of subscribing a counter under `key`. A key that is
    /// already subscribed keeps its counter, and a subscription that the
    /// platform refused (`None`) adds nothing. Returns whether a counter was
    /// added.
    pub fn add_counter(&mut self, key: CounterKey, subscription: Option<CounterHandle>) -> (added:
        bool)
        requires
            old(self).wf(),
        ensures
            final(self).wf(),
            final(self)@ == with_counter(old(self)@, key, subscription),
            added <==> subscription is Some && !has_key(old(self)@, key),
            has_key(old(self)@, key) ==> final(self)@ == old(self)@,
    {
        match subscription {
            None => false,
            Some(handle) => {
                if self.contains(key) {
                    false
                } else {
                    proof {
                        lemma_with_counter_distinct(self@, key, subscription);
                    }
                    self.counters.push(Counter { key, handle, sample: None });
                    true
                }
            },
        }
    }

    /// The handles of all subscribed counters, in the order of subscription:
    /// what the platform has to read for the next refresh.
    pub fn handles(&self) -> (r: Vec<CounterHandle>)
        ensures
            r@.len() == self@.len(),
            forall|i: int| 0 <= i < self@.len() ==> r@[i] == (#[trigger] self@[i]).handle,
    {
        let mut out: Vec<CounterHandle> = Vec::new();
        let mut i: usize = 0;
        while i < self.counters.len()
            invariant
                i <= self.counters@.len(),
                out@.len() == i,
                forall|j: int| 0 <= j < i ==> out@[j] == (#[trigger] self.counters@[j]).handle,
            decreases self.counters@.len() - i,
        {
            out.push(self.counters[i].handle);
            i += 1;
        }
        out
    }

    /// Takes one batch of raw values. Where the batch holds a value for every
    /// counter, every sample is overwritten with the value for its handle and
    /// the result is `true`; otherwise nothing changes and the result is
    /// `false`.
    pub fn refresh(&mut self, batch: &Vec<RawReading>) -> (complete: bool)
        requires
            old(self).wf(),
        ensures
            final(self).wf(),
            complete == covers(batch@, old(self)@),
            complete ==> final(self)@ == resampled(old(self)@, batch@),
            !complete ==> final(self)@ == old(self)@,
    {
        let count = self.counters.len();
        let mut fresh: Vec<u64> = Vec::new();
        let mut i: usize = 0;
        while i < count
            invariant
                old(self).wf(),
                count == self.counters@.len(),
                self.counters@ == old(self).counters@,
                i <= count,
                fresh@.len() == i,
                forall|j: int|
                    0 <= j < i ==> reading_of(batch@, (#[trigger] self.counters@[j]).handle)
                        == Some(fresh@[j]),
            decreases count - i,
        {
            match find_reading(batch, self.counters[i].handle) {
                None => {
                    return false;
                },
                Some(value) => {
                    fresh.push(value);
                },
            }
            i += 1;
        }
        let mut k: usize = 0;
        while k < count
            invariant
                old(self).wf(),
                count == self.counters@.len(),
                count == old(self).counters@.len(),
                count == fresh@.len(),
                k <= count,
                forall|j: int|
                    0 <= j < count ==> reading_of(batch@, (#[trigger] old(self).counters@[j]).handle)
                        == Some(fresh@[j]),
                forall|j: int|
                    0 <= j < k ==> (#[trigger] self.counters@[j]) == (Counter {
                        key: old(self).counters@[j].key,
                        handle: old(self).counters@[j].handle,
                        sample: Some(fresh@[j]),
                    }),
                forall|j: int| k <= j < count ==> (#[trigger] self.counters@[j]) == old(self).counters@[j],
            decreases count - k,
        {
            let counter = self.counters[k];
            self.counters.set(
                k,
                Counter { key: counter.key, handle: counter.handle, sample: Some(fresh[k]) },
            );
            k += 1;
        }
        true
    }

    /// The raw value that the counter under `key` had at the last refresh.
    /// The key must be subscribed and a refresh must have given it a value.
    pub fn get(&self, key: CounterKey) -> (r: u64)
        requires
            has_key(self@, key),
            counter_of(self@, key).sample is Some,
        ensures
            Some(r) == counter_of(self@, key).sample,
    {
        match self.lookup(key) {
            Some(Counter { sample: Some(value), .. }) => value,
            _ => unreached(),
        }
    }
}

/// Overwriting the samples moves no counter: every key is found where it was,
/// with the value that the batch holds for its handle.
pub proof fn lemma_resampled_keys(counters: Seq<Counter>, batch: Seq<RawReading>, key: CounterKey)
    ensures
        position_of(resampled(counters, batch), key) == position_of(counters, key),
        has_key(resampled(counters, batch), key) == has_key(counters, key),
        has_key(counters, key) ==> counter_of(resampled(counters, batch), key) == (Counter {
            key,
            handle: counter_of(counters, key).handle,
            sample: reading_of(batch, counter_of(counters, key).handle),
        }),
        has_key(counters, key) && covers(batch, counters) ==> counter_of(
            resampled(counters, batch),
            key,
        ).sample is Some,
    decreases counters.len(),
{
    lemma_position_of(counters, key);
    if counters.len() > 0 {
        assert(resampled(counters, batch).drop_last() =~= resampled(counters.drop_last(), batch));
        lemma_resampled_keys(counters.drop_last(), batch, key);
    }
}

/// Overwriting the samples keeps the keys distinct.
pub proof fn lemma_resampled_distinct(counters: Seq<Counter>, batch: Seq<RawReading>)
    requires
        distinct_keys(counters),
    ensures
        distinct_keys(resampled(counters, batch)),
{
}

/// Subscribing a key that no counter holds keeps the keys distinct.
pub proof fn lemma_with_counter_distinct(
    counters: Seq<Counter>,
    key: CounterKey,
    subscription: Option<CounterHandle>,
)
    requires
        distinct_keys(counters),
    ensures
        distinct_keys(with_counter(counters, key, subscription)),
        subscription is Some ==> has_key(with_counter(counters, key, subscription), key),
        forall|other: CounterKey|
            has_key(counters, other) ==> has_key(with_counter(counters, key, subscription), other)
                && counter_of(with_counter(counters, key, subscription), other) == counter_of(
                counters,
                other,
            ),
        forall|other: CounterKey|
            other != key ==> has_key(with_counter(counters, key, subscription), other) == has_key(
                counters,
                other,
            ),
{
    let after = with_counter(counters, key, subscription);
    lemma_position_of(counters, key);
    if after != counters {
        assert(after.drop_last() == counters);
        assert forall|other: CounterKey| has_key(counters, other) implies has_key(after, other)
            && counter_of(after, other) == counter_of(counters, other) by {
            lemma_position_of(counters, other);
        }
    }
}

/// Adding a counter under a key that is already subscribed changes nothing,
/// whatever handle comes with it: no subscription is duplicated.
pub proof fn lemma_add_counter_idempotent(
    counters: Seq<Counter>,
    key: CounterKey,
    first: Option<CounterHandle>,
    second: Option<CounterHandle>,
)
    requires
        distinct_keys(counters),
    ensures
        first is Some ==> with_counter(with_counter(counters, key, first), key, second)
            == with_counter(counters, key, first),
        has_key(counters, key) ==> with_counter(counters, key, second) == counters,
        distinct_keys(with_counter(with_counter(counters, key, first), key, second)),
{
    let once = with_counter(counters, key, first);
    lemma_with_counter_distinct(counters, key, first);
    lemma_with_counter_distinct(once, key, second);
}

} // verus!
