//! The bulk-allocation driver: builds an outer map of `entries` inner maps,
//! each filled with a given number of placeholder keys, and says after which
//! entries resident memory is to be sampled.
use core::marker::PhantomData;

use vstd::prelude::*;

use crate::maps::{ConcurrentMap, OuterMap};

verus! {

/// The keys below `n`.
pub open spec fn keys_below(n: u64) -> Set<u64> {
    Set::new(|k: u64| k < n)
}

/// The keys below `n` are `n` keys.
pub proof fn keys_below_len(n: u64)
    ensures
        keys_below(n).finite(),
        keys_below(n).len() == n,
    decreases n,
{
    if n == 0 {
        assert(keys_below(0) =~= Set::<u64>::empty());
    } else {
        let m = (n - 1) as u64;
        keys_below_len(m);
        assert(keys_below(n) =~= keys_below(m).insert(m));
    }
}

/// The number of entries between two samples of memory: a hundredth of all
/// entries, and every entry when there are fewer than a hundred.
pub open spec fn step_of(entries: u64) -> u64 {
    if entries / 100 == 0 {
        1
    } else {
        entries / 100
    }
}

/// The number of entries between two samples of memory.
pub fn progress_step(entries: u64) -> (r: u64)
    ensures
        r == step_of(entries),
        r > 0,
{
    if entries / 100 == 0 {
        1
    } else {
        entries / 100
    }
}

/// The number of keys to put in an inner map for a drawn size: the draw
/// itself, or zero when it is negative.
pub fn inner_count(sample: i64) -> (r: u64)
    ensures
        sample < 0 ==> r == 0,
        sample >= 0 ==> r == sample,
{
    if sample < 0 {
        0
    } else {
        sample as u64
    }
}

/// The peak in megabytes after observing `bytes` of resident memory.
pub fn peak_after(peak_megs: u64, bytes: u64) -> (r: u64)
    ensures
        r == if bytes / 1_000_000 > peak_megs { bytes / 1_000_000 } else { peak_megs },
        r >= peak_megs,
{
    let megs = bytes / 1_000_000;
    if megs > peak_megs {
        megs
    } else {
        peak_megs
    }
}

/// A new inner map holding the keys below `count`.
pub fn fill_inner<I: ConcurrentMap>(count: u64, shards: usize) -> (r: I)
    requires
        I::accepts_shards(shards),
    ensures
        r.key_set() == keys_below(count),
{
    let mut inner = I::new_empty(shards);
    let mut x: u64 = 0;
    while x < count
        invariant
            x <= count,
            inner.key_set() == keys_below(x),
        decreases count - x,
    {
        inner.insert(x);
        assert(inner.key_set() =~= keys_below((x + 1) as u64));
        x = x + 1;
    }
    inner
}

/// A run of the allocation driver in progress.
pub struct InitRun<I, O> {
    outer: O,
    entries: u64,
    step: u64,
    next: u64,
    peak_megs: u64,
    shards: usize,
    counts: Ghost<Seq<u64>>,
    inner: PhantomData<I>,
}

impl<I: ConcurrentMap, O: OuterMap<I>> InitRun<I, O> {
    /// The outer map built so far, by key.
    pub closed spec fn built(&self) -> Map<u64, Set<u64>> {
        self.outer.entries()
    }

    /// The sizes of the inner maps added so far, in order.
    pub closed spec fn counts(&self) -> Seq<u64> {
        self.counts@
    }

    /// The number of entries the run is to build.
    pub closed spec fn total(&self) -> u64 {
        self.entries
    }

    /// The peak resident memory observed so far, in megabytes.
    pub closed spec fn peak(&self) -> u64 {
        self.peak_megs
    }

    /// The entries added so far are keyed from zero on, each holding an inner
    /// map of the keys below its size.
    pub closed spec fn wf(&self) -> bool {
        &&& I::accepts_shards(self.shards)
        &&& O::accepts_shards(self.shards)
        &&& self.step == step_of(self.entries)
        &&& self.next <= self.entries
        &&& self.counts@.len() == self.next
        &&& self.outer.entries().dom() == keys_below(self.next)
        &&& forall|k: u64| k < self.next ==> #[trigger] self.outer.entries()[k] == keys_below(self.counts@[k as int])
    }

    /// A run that is to build `entries` entries, with maps of `shards` shards.
    pub fn new(entries: u64, shards: usize) -> (r: Self)
        requires
            I::accepts_shards(shards),
            O::accepts_shards(shards),
        ensures
            r.wf(),
            r.total() == entries,
            r.counts() == Seq::<u64>::empty(),
            r.peak() == 0,
    {
        let outer = O::new_empty(shards);
        assert(outer.entries().dom() =~= keys_below(0));
        InitRun {
            outer,
            entries,
            step: progress_step(entries),
            next: 0,
            peak_megs: 0,
            shards,
            counts: Ghost(Seq::empty()),
            inner: PhantomData,
        }
    }

    /// Whether all entries have been added.
    pub fn is_done(&self) -> (r: bool)
        requires
            self.wf(),
        ensures
            r == (self.counts().len() == self.total()),
    {
        self.next == self.entries
    }

    /// Adds the next entry: an inner map holding the keys below `count`.
    /// Returns whether memory is to be sampled now, which it is after every
    /// step-th entry, the first included.
    pub fn push(&mut self, count: u64) -> (sample: bool)
        requires
            old(self).wf(),
            old(self).counts().len() < old(self).total(),
        ensures
            final(self).wf(),
            final(self).total() == old(self).total(),
            final(self).peak() == old(self).peak(),
            final(self).counts() == old(self).counts().push(count),
            final(self).built() == old(self).built().insert(
                old(self).counts().len() as u64,
                keys_below(count),
            ),
            sample == (old(self).counts().len() as int % step_of(old(self).total()) as int == 0),
    {
        let i = self.next;
        let inner: I = fill_inner(count, self.shards);
        self.outer.insert(i, inner);
        self.next = i + 1;
        self.counts = Ghost(self.counts@.push(count));
        assert(self.outer.entries().dom() =~= keys_below(self.next));
        assert forall|k: u64| k < self.next implies #[trigger] self.outer.entries()[k] == keys_below(
            self.counts@[k as int],
        ) by {
            if k < i {
                assert(old(self).outer.entries()[k] == keys_below(old(self).counts@[k as int]));
            }
        }
        i % self.step == 0
    }

    /// Records a sample of resident memory taken after the last entry, and
    /// returns the progress of the run, in whole percent, before that entry.
    pub fn record_memory(&mut self, bytes: u64) -> (percent: u64)
        requires
            old(self).wf(),
            old(self).counts().len() > 0,
        ensures
            final(self).wf(),
            final(self).total() == old(self).total(),
            final(self).counts() == old(self).counts(),
            final(self).built() == old(self).built(),
            final(self).peak() == if bytes / 1_000_000 > old(self).peak() {
                bytes / 1_000_000
            } else {
                old(self).peak()
            },
            percent == 100 * (old(self).counts().len() as int - 1) / old(self).total() as int,
            percent < 100,
    {
        self.peak_megs = peak_after(self.peak_megs, bytes);
        let done = (self.next - 1) as u128;
        let total = self.entries as u128;
        assert((100 * done as int) / (total as int) < 100) by (nonlinear_arith)
            requires
                done < total,
                total > 0,
        ;
        (100 * done / total) as u64
    }

    /// The peak resident memory observed so far, in megabytes.
    pub fn peak_megs(&self) -> (r: u64)
        ensures
            r == self.peak(),
    {
        self.peak_megs
    }

    /// Ends the run and hands over the outer map.
    pub fn into_outer(self) -> (r: O)
        ensures
            r.entries() == self.built(),
    {
        self.outer
    }
}

/// A finished run holds exactly `entries` inner maps, under the keys below
/// `entries`, and the one under `k` holds as many keys as the `k`-th count.
pub proof fn finished_run_law<I: ConcurrentMap, O: OuterMap<I>>(run: InitRun<I, O>)
    requires
        run.wf(),
        run.counts().len() == run.total(),
    ensures
        run.built().dom() == keys_below(run.total()),
        run.built().dom().len() == run.total(),
        forall|k: u64| #![auto] k < run.total() ==> run.built()[k].len() == run.counts()[k as int],
{
    keys_below_len(run.total());
    assert forall|k: u64| #![auto] k < run.total() implies run.built()[k].len() == run.counts()[k as int] by {
        keys_below_len(run.counts()[k as int]);
    }
}

} // verus!
