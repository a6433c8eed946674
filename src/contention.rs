//! Decisions of the contention driver: which workers run, how often, how
//! many operations each makes, which of them loop, and which are waited for.
use vstd::prelude::*;

use crate::maps::{inserted, random_key, ConcurrentMap};
use crate::pacing::{gap_nanos, gap_of, ops_per_thread};

verus! {

/// If a focus is selected, the other operation is looped indefinitely and the
/// run ends as soon as the focused operation completes.
#[derive(Clone, Copy, Debug, PartialEq, Eq, Structural)]
pub enum ContentionFocus {
    Read,
    Write,
}

/// Whether each writer repeats its batch until the process exits: it does
/// when reads are the focus.
pub fn writers_repeat(focus: Option<ContentionFocus>) -> (r: bool)
    ensures
        r == (focus == Some(ContentionFocus::Read)),
{
    focus == Some(ContentionFocus::Read)
}

/// Whether each reader repeats its batch until the process exits: it does
/// when writes are the focus.
pub fn readers_repeat(focus: Option<ContentionFocus>) -> (r: bool)
    ensures
        r == (focus == Some(ContentionFocus::Write)),
{
    focus == Some(ContentionFocus::Write)
}

/// Everything the contention driver decides before it starts its workers.
pub struct ContentionPlan {
    /// Workers of each kind.
    pub threads: u64,
    /// Gap between two writes of one writer; `None`: no writers are started.
    pub write_gap: Option<u128>,
    /// Gap between two reads of one reader; `None`: no readers are started.
    pub read_gap: Option<u128>,
    /// Writes in one batch of one writer.
    pub writes_per_thread: u64,
    /// Reads in one batch of one reader.
    pub reads_per_thread: u64,
    /// Whether writers repeat their batch indefinitely.
    pub writers_repeat: bool,
    /// Whether readers repeat their batch indefinitely.
    pub readers_repeat: bool,
    /// Whether the driver waits for the writers before it returns.
    pub await_writers: bool,
    /// Whether the driver waits for the readers before it returns.
    pub await_readers: bool,
}

/// The plan for `threads` workers of each kind, `writes_per_second` writes
/// and `reads_per_second` reads in all, and the given focus.
pub fn plan_contention(
    focus: Option<ContentionFocus>,
    threads: u64,
    writes_per_second: u64,
    reads_per_second: u64,
) -> (r: ContentionPlan)
    requires
        threads > 0,
    ensures
        r.threads == threads,
        writes_per_second == 0 ==> r.write_gap is None,
        writes_per_second > 0 ==> r.write_gap == Some(gap_of(threads, writes_per_second) as u128),
        reads_per_second == 0 ==> r.read_gap is None,
        reads_per_second > 0 ==> r.read_gap == Some(gap_of(threads, reads_per_second) as u128),
        r.writes_per_thread == writes_per_second / threads,
        r.reads_per_thread == reads_per_second / threads,
        r.writers_repeat == (focus == Some(ContentionFocus::Read)),
        r.readers_repeat == (focus == Some(ContentionFocus::Write)),
        r.await_writers == (focus != Some(ContentionFocus::Read)),
        r.await_readers == (focus != Some(ContentionFocus::Write)),
        r.await_writers == !r.writers_repeat,
        r.await_readers == !r.readers_repeat,
        r.await_writers || r.await_readers,
{
    let writers_loop = writers_repeat(focus);
    let readers_loop = readers_repeat(focus);
    ContentionPlan {
        threads,
        write_gap: gap_nanos(threads, writes_per_second),
        read_gap: gap_nanos(threads, reads_per_second),
        writes_per_thread: ops_per_thread(writes_per_second, threads),
        reads_per_thread: ops_per_thread(reads_per_second, threads),
        writers_repeat: writers_loop,
        readers_repeat: readers_loop,
        await_writers: !writers_loop,
        await_readers: !readers_loop,
    }
}

/// The keys from zero up to `range`, both included.
pub open spec fn keys_up_to(range: u64) -> Set<u64> {
    Set::new(|k: u64| k <= range)
}

/// Fills `map` before a run with `prior_writes` keys drawn at random from
/// zero up to `range`. Keys already present stay; every key added is in range.
pub fn prefill<M: ConcurrentMap>(map: &mut M, prior_writes: u64, range: u64)
    ensures
        old(map).key_set().subset_of(final(map).key_set()),
        final(map).key_set().subset_of(old(map).key_set().union(keys_up_to(range))),
        prior_writes == 0 ==> final(map).key_set() == old(map).key_set(),
        prior_writes > 0 ==> exists|k: u64| k <= range && final(map).key_set().contains(k),
        exists|s: Seq<u64>|
            s.len() == prior_writes && (forall|j: int| 0 <= j < s.len() ==> #[trigger] s[j] <= range)
                && final(map).key_set() == inserted(old(map).key_set(), s),
{
    let ghost start = map.key_set();
    let ghost drawn: Seq<u64> = Seq::empty();
    let mut i: u64 = 0;
    while i < prior_writes
        invariant
            i <= prior_writes,
            drawn.len() == i,
            forall|j: int| 0 <= j < drawn.len() ==> #[trigger] drawn[j] <= range,
            map.key_set() == inserted(start, drawn),
            start.subset_of(map.key_set()),
            map.key_set().subset_of(start.union(keys_up_to(range))),
            i == 0 ==> map.key_set() == start,
            i > 0 ==> exists|k: u64| k <= range && map.key_set().contains(k),
        decreases prior_writes - i,
    {
        let key = random_key(range);
        map.insert(key);
        proof {
            let next = drawn.push(key);
            assert(next.drop_last() =~= drawn);
            drawn = next;
        }
        assert(map.key_set().contains(key));
        i = i + 1;
    }
}

/// A set of keys none of which exceeds `range` has at most `range + 1`
/// members, however many writes produced it.
pub proof fn bounded_keys_law(keys: Set<u64>, range: u64)
    requires
        keys.finite(),
        keys.subset_of(keys_up_to(range)),
    ensures
        keys.len() <= range + 1,
    decreases range,
{
    if range == 0 {
        vstd::set_lib::lemma_len_subset(keys, set![0u64]);
    } else {
        let rest = keys.remove(range);
        assert(rest.subset_of(keys_up_to((range - 1) as u64)));
        bounded_keys_law(rest, (range - 1) as u64);
    }
}

} // verus!
