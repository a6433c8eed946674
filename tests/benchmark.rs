use dashmap_benchmark::contention::{plan_contention, prefill, readers_repeat, writers_repeat, ContentionFocus};
use dashmap_benchmark::init::{fill_inner, inner_count, peak_after, progress_step, InitRun};
use dashmap_benchmark::maps::{insert_keys, new_dashmap, new_rwlock_hashmap, ConcurrentMap, LockedInner, LockedOuter, OuterMap, Shared, SharedAccess, ShardedInner, ShardedOuter};
use dashmap_benchmark::pacing::{duration_nanos, gap_nanos, ops_per_thread, unix_timestamp_nanos, Pacer};
use rand_distr::{Distribution, Normal};

const SHARDS: usize = 8;

#[test]
fn gap_is_threads_seconds_over_rate() {
    assert_eq!(gap_nanos(8, 1000), Some(8_000_000));
    assert_eq!(gap_nanos(3, 7), Some(428_571_428));
    assert_eq!(gap_nanos(1, 1_000_000_000), Some(1));
    assert_eq!(gap_nanos(1, 3_000_000_000), Some(0));
    assert_eq!(gap_nanos(u64::MAX, 1), Some(u64::MAX as u128 * 1_000_000_000));
}

#[test]
fn gap_absent_for_zero_rate() {
    assert_eq!(gap_nanos(4, 0), None);
    assert_eq!(gap_nanos(1, 0), None);
}

#[test]
fn duration_in_nanoseconds() {
    assert_eq!(duration_nanos(0, 0), 0);
    assert_eq!(duration_nanos(2, 5), 2_000_000_005);
    assert_eq!(duration_nanos(u64::MAX, 999_999_999), u64::MAX as u128 * 1_000_000_000 + 999_999_999);
}

#[test]
fn remainder_operations_are_dropped() {
    assert_eq!(ops_per_thread(10, 3), 3);
    assert_eq!(ops_per_thread(1000, 4), 250);
    assert_eq!(ops_per_thread(2, 4), 0);
}

#[test]
fn pacer_keeps_a_fixed_cadence() {
    let mut p = Pacer::new(1_000, 250);
    assert_eq!(p.delay_before(900), 100);
    assert_eq!(p.delay_before(1_000), 0);
    assert_eq!(p.delay_before(5_000), 0);
    p.advance();
    assert_eq!(p.next, 1_250);
    p.advance();
    assert_eq!(p.next, 1_500);
    assert_eq!(p.delay_before(1_400), 100);
}

#[test]
fn clock_reads_after_the_epoch() {
    let a = unix_timestamp_nanos();
    let b = unix_timestamp_nanos();
    assert!(a > 1_000_000_000_000_000_000);
    assert!(b > 1_000_000_000_000_000_000);
}

fn insert_then_get<M: ConcurrentMap>() {
    let mut m = M::new_empty(SHARDS);
    assert_eq!(m.get(&7), None);
    m.insert(7);
    assert_eq!(m.get(&7), Some(()));
    assert_eq!(m.get(&8), None);
    assert_eq!(m.keys(), vec![7]);
}

#[test]
fn sharded_insert_then_get() {
    insert_then_get::<ShardedInner>();
}

#[test]
fn locked_insert_then_get() {
    insert_then_get::<LockedInner>();
}

fn reinsert_keeps_size<M: ConcurrentMap>() {
    let mut m = M::new_empty(SHARDS);
    m.insert(1);
    m.insert(2);
    assert_eq!(m.keys().len(), 2);
    m.insert(2);
    let mut keys = m.keys();
    keys.sort();
    assert_eq!(keys, vec![1, 2]);
}

#[test]
fn sharded_reinsert_keeps_size() {
    reinsert_keeps_size::<ShardedInner>();
}

#[test]
fn locked_reinsert_keeps_size() {
    reinsert_keeps_size::<LockedInner>();
}

fn interleaved_batches<M: ConcurrentMap>() {
    let mut m = M::new_empty(SHARDS);
    // Two writers' disjoint batches, their inserts interleaved.
    let order: Vec<u64> = vec![0, 100, 1, 101, 2, 102, 3, 103];
    insert_keys(&mut m, &order);
    let mut keys = m.keys();
    keys.sort();
    assert_eq!(keys, vec![0, 1, 2, 3, 100, 101, 102, 103]);
}

#[test]
fn sharded_interleaved_batches() {
    interleaved_batches::<ShardedInner>();
}

#[test]
fn locked_interleaved_batches() {
    interleaved_batches::<LockedInner>();
}

#[test]
fn inner_map_holds_keys_below_count() {
    let mut m: ShardedInner = fill_inner(5, SHARDS);
    let mut keys = m.keys();
    keys.sort();
    assert_eq!(keys, vec![0, 1, 2, 3, 4]);
    let mut e: LockedInner = fill_inner(0, SHARDS);
    assert!(e.keys().is_empty());
}

#[test]
fn progress_step_never_zero() {
    assert_eq!(progress_step(0), 1);
    assert_eq!(progress_step(99), 1);
    assert_eq!(progress_step(100), 1);
    assert_eq!(progress_step(1000), 10);
    assert_eq!(progress_step(12_345), 123);
}

#[test]
fn negative_draws_insert_nothing() {
    assert_eq!(inner_count(-3), 0);
    assert_eq!(inner_count(0), 0);
    assert_eq!(inner_count(12), 12);
}

#[test]
fn peak_memory_only_rises() {
    assert_eq!(peak_after(0, 5_500_000), 5);
    assert_eq!(peak_after(7, 5_500_000), 7);
    assert_eq!(peak_after(7, 999_999), 7);
}

fn init_empty_inner<I: ConcurrentMap, O: OuterMap<I>>() {
    let mut run: InitRun<I, O> = InitRun::new(1000, SHARDS);
    let mut samples = 0;
    while !run.is_done() {
        if run.push(0) {
            samples += 1;
            let percent = run.record_memory(3_000_000);
            assert!(percent < 100);
        }
    }
    assert_eq!(samples, 100);
    assert_eq!(run.peak_megs(), 3);
    let mut outer = run.into_outer();
    let mut keys = outer.keys();
    assert_eq!(keys.len(), 1000);
    keys.sort();
    assert_eq!(keys, (0..1000).collect::<Vec<u64>>());
    for k in 0..1000u64 {
        assert_eq!(outer.inner_size(&k), Some(0));
    }
    assert_eq!(outer.inner_size(&1000), None);
}

#[test]
fn init_thousand_empty_sharded() {
    init_empty_inner::<ShardedInner, ShardedOuter>();
}

#[test]
fn init_thousand_empty_locked() {
    init_empty_inner::<LockedInner, LockedOuter>();
}

fn init_normal_inner<I: ConcurrentMap, O: OuterMap<I>>() {
    let dist = Normal::new(10.0, 10.0 / 3.0).unwrap();
    let mut rng = rand::thread_rng();
    let mut run: InitRun<I, O> = InitRun::new(100, SHARDS);
    let mut counts = vec![];
    let mut samples = 0;
    while !run.is_done() {
        let count = inner_count(dist.sample(&mut rng) as i64);
        counts.push(count);
        if run.push(count) {
            samples += 1;
        }
    }
    assert_eq!(samples, 100);
    let mut outer = run.into_outer();
    assert_eq!(outer.keys().len(), 100);
    for k in 0..100u64 {
        assert_eq!(outer.inner_size(&k), Some(counts[k as usize] as usize));
    }
}

#[test]
fn init_hundred_normal_sharded() {
    init_normal_inner::<ShardedInner, ShardedOuter>();
}

#[test]
fn init_hundred_normal_locked() {
    init_normal_inner::<LockedInner, LockedOuter>();
}

#[test]
fn progress_percent_of_each_sample() {
    let mut run: InitRun<ShardedInner, ShardedOuter> = InitRun::new(250, SHARDS);
    assert!(run.push(0));
    assert_eq!(run.record_memory(0), 0);
    assert!(!run.push(0));
    assert!(run.push(0));
    assert_eq!(run.record_memory(2_000_000), 0);
    assert_eq!(run.peak_megs(), 2);
    let mut run: InitRun<LockedInner, LockedOuter> = InitRun::new(150, 3);
    let mut last = 0;
    while !run.is_done() {
        run.push(0);
        last = run.record_memory(0);
        assert!(last < 100);
    }
    assert_eq!(last, 99);
}

fn shared_workers<M: SharedAccess>() {
    let mut map = M::new_empty(SHARDS);
    map.insert(9);
    let shared = Shared::new(map);
    assert_eq!(shared.get(&9), Some(()));
    shared.insert(4);
    assert_eq!(shared.get(&4), Some(()));
    assert_eq!(shared.get(&5), None);
    for _ in 0..200 {
        assert!(shared.write_random(3) <= 3);
        shared.read_random(3, true);
        shared.read_random(3, false);
    }
    let keys = shared.keys();
    assert!(keys.contains(&9) && keys.contains(&4));
    assert!(keys.len() <= 6);
    assert!(keys.iter().all(|k| *k <= 4 || *k == 9));
}

#[test]
fn sharded_shared_workers() {
    shared_workers::<ShardedInner>();
}

#[test]
fn locked_shared_workers() {
    shared_workers::<LockedInner>();
}

#[test]
fn constructors_start_empty() {
    let mut d = new_dashmap(4);
    assert!(d.keys().is_empty());
    let mut l = new_rwlock_hashmap();
    assert!(l.keys().is_empty());
    let mut l3 = LockedInner::new_empty(3);
    l3.insert(1);
    assert_eq!(l3.keys(), vec![1]);
}

#[test]
fn unfocused_run_waits_for_both_kinds() {
    let plan = plan_contention(None, 4, 1000, 1000);
    assert_eq!(plan.threads, 4);
    assert_eq!(plan.write_gap, Some(4_000_000));
    assert_eq!(plan.read_gap, Some(4_000_000));
    assert_eq!(plan.writes_per_thread, 250);
    assert_eq!(plan.reads_per_thread, 250);
    assert!(!plan.writers_repeat && !plan.readers_repeat);
    assert!(plan.await_writers && plan.await_readers);
}

fn keys_stay_in_range<M: ConcurrentMap>() {
    let mut m = M::new_empty(SHARDS);
    prefill(&mut m, 0, 10);
    assert!(m.keys().is_empty());
    prefill(&mut m, 1000, 10);
    let keys = m.keys();
    assert!(!keys.is_empty());
    assert!(keys.len() <= 11);
    assert!(keys.iter().all(|k| *k <= 10));
}

#[test]
fn sharded_keys_stay_in_range() {
    keys_stay_in_range::<ShardedInner>();
}

#[test]
fn locked_keys_stay_in_range() {
    keys_stay_in_range::<LockedInner>();
}

#[test]
fn read_focus_leaves_writers_running() {
    let plan = plan_contention(Some(ContentionFocus::Read), 2, 1000, 1000);
    assert!(plan.writers_repeat);
    assert!(!plan.readers_repeat);
    assert!(plan.await_readers);
    assert!(!plan.await_writers);
    assert!(writers_repeat(Some(ContentionFocus::Read)));
    assert!(!readers_repeat(Some(ContentionFocus::Read)));
}

#[test]
fn write_focus_leaves_readers_running() {
    let plan = plan_contention(Some(ContentionFocus::Write), 2, 1000, 0);
    assert!(plan.readers_repeat);
    assert!(!plan.writers_repeat);
    assert!(plan.await_writers);
    assert!(!plan.await_readers);
    assert_eq!(plan.read_gap, None);
    assert_eq!(plan.write_gap, Some(2_000_000));
}
