//! The map contract that both drivers are written against, and its two
//! backends: a sharded map whose shards lock independently, and one hash map
//! behind a single read/write lock.
//!
//! A map is modelled by the set of its keys (values are the unit placeholder),
//! an outer map by the key sets of the inner maps that it holds.
use std::collections::hash_map::RandomState;
use std::collections::HashMap;

use dashmap::DashMap;
use parking_lot::RwLock;
use rand::Rng;
use vstd::prelude::*;

verus! {

/// A sharded map of unit values.
pub type ShardedInner = DashMap<u64, ()>;

/// A sharded map whose values are sharded maps.
pub type ShardedOuter = DashMap<u64, ShardedInner>;

/// A hash map of unit values behind one read/write lock.
pub type LockedInner = RwLock<HashMap<u64, ()>>;

/// A locked hash map whose values are locked hash maps.
pub type LockedOuter = RwLock<HashMap<u64, LockedInner>>;

/// Whether `n` is a valid number of shards: a power of two greater than one.
pub open spec fn valid_shard_amount(n: usize) -> bool {
    n > 1 && exists|k: nat| vstd::arithmetic::power2::pow2(k) == n
}

/// A map from `u64` keys to unit values, the subject of the benchmark.
///
/// The exact contracts hold of a map that one owner uses: reads take `&mut`,
/// so that no insert through a shared reference can come between a read and
/// what it reports. A map that several threads use at once is moved into a
/// [`Shared`], whose operations hold whatever the other threads do.
pub trait ConcurrentMap: Sized {
    /// The keys present in the map.
    spec fn key_set(&self) -> Set<u64>;

    /// Whether `new_empty` accepts `shards` as the number of shards.
    spec fn accepts_shards(shards: usize) -> bool;

    /// An empty map; `shards` is the number of shards of a sharded backend.
    fn new_empty(shards: usize) -> (r: Self)
        requires
            Self::accepts_shards(shards),
        ensures
            r.key_set() == Set::<u64>::empty(),
    ;

    /// Inserts `key`, replacing the value already there if any.
    fn insert(&mut self, key: u64)
        ensures
            final(self).key_set() == old(self).key_set().insert(key),
    ;

    /// The value under `key`, if the key is present.
    fn get(&mut self, key: &u64) -> (r: Option<()>)
        ensures
            final(self).key_set() == old(self).key_set(),
            r is Some <==> old(self).key_set().contains(*key),
    ;

    /// A fresh copy of all keys present, each once, in no particular order.
    fn keys(&mut self) -> (r: Vec<u64>)
        ensures
            final(self).key_set() == old(self).key_set(),
            r@.no_duplicates(),
            r@.to_set() == old(self).key_set(),
    ;

}

/// A map handed to several threads. It owns the map for good, so the exact
/// model of [`ConcurrentMap`] is never read again once others may write.
/// What still holds is that keys are never removed: every key present at
/// the handover stays present.
pub struct Shared<M> {
    map: M,
}

impl<M: ConcurrentMap> Shared<M> {
    /// The keys present when the map was handed over.
    pub closed spec fn handed(&self) -> Set<u64> {
        self.map.key_set()
    }

    /// Hands `map` over to shared use.
    pub fn new(map: M) -> (r: Shared<M>)
        ensures
            r.handed() == map.key_set(),
    {
        Shared { map }
    }
}

/// The operations on a map that other threads may use at the same time.
/// Others may insert between and during them, so they promise only what
/// holds however the inserts fall.
pub trait SharedAccess: ConcurrentMap {
    /// Inserts `key`.
    fn insert_shared(shared: &Shared<Self>, key: u64);

    /// Looks `key` up: a key present at the handover is always found.
    fn get_shared(shared: &Shared<Self>, key: &u64) -> (r: Option<()>)
        ensures
            shared.handed().contains(*key) ==> r is Some,
    ;

    /// Copies the keys: each at most once, and every key present at the
    /// handover among them, but not one state of the map if others insert.
    fn keys_shared(shared: &Shared<Self>) -> (r: Vec<u64>)
        ensures
            r@.no_duplicates(),
            shared.handed().subset_of(r@.to_set()),
    ;
}

impl<M: SharedAccess> Shared<M> {
    /// Inserts `key`.
    pub fn insert(&self, key: u64) {
        M::insert_shared(self, key)
    }

    /// Looks `key` up: a key present at the handover is always found.
    pub fn get(&self, key: &u64) -> (r: Option<()>)
        ensures
            self.handed().contains(*key) ==> r is Some,
    {
        M::get_shared(self, key)
    }

    /// Copies the keys present, each at most once, those present at the
    /// handover among them.
    pub fn keys(&self) -> (r: Vec<u64>)
        ensures
            r@.no_duplicates(),
            self.handed().subset_of(r@.to_set()),
    {
        M::keys_shared(self)
    }

    /// One write of the contention run: inserts a key drawn at random from
    /// zero up to `range`, and returns it.
    pub fn write_random(&self, range: u64) -> (key: u64)
        ensures
            key <= range,
    {
        let key = random_key(range);
        self.insert(key);
        key
    }

    /// One read of the contention run: looks up a key drawn at random from
    /// zero up to `range` when reads are cheap, else copies all keys.
    pub fn read_random(&self, range: u64, cheap_reads: bool) {
        if cheap_reads {
            let key = random_key(range);
            let _ = self.get(&key);
        } else {
            let _ = self.keys();
        }
    }
}

/// Relies on `rand::thread_rng` and `Rng::gen_range` over an inclusive
/// range: a key drawn from zero up to `range`.
#[verifier::external_body]
pub(crate) fn random_key(range: u64) -> (r: u64)
    ensures
        r <= range,
{
    rand::thread_rng().gen_range(0..=range)
}

/// A map from `u64` keys to inner maps of type `I`.
pub trait OuterMap<I: ConcurrentMap>: Sized {
    /// For each key present, the key set of the inner map stored under it.
    spec fn entries(&self) -> Map<u64, Set<u64>>;

    /// Whether `new_empty` accepts `shards` as the number of shards.
    spec fn accepts_shards(shards: usize) -> bool;

    /// An empty map; `shards` is the number of shards of a sharded backend.
    fn new_empty(shards: usize) -> (r: Self)
        requires
            Self::accepts_shards(shards),
        ensures
            r.entries().dom() == Set::<u64>::empty(),
    ;

    /// Stores `inner` under `key`, replacing the inner map already there if any.
    fn insert(&mut self, key: u64, inner: I)
        ensures
            final(self).entries() == old(self).entries().insert(key, inner.key_set()),
    ;

    /// The number of keys in the inner map under `key`, if the key is present.
    fn inner_size(&mut self, key: &u64) -> (r: Option<usize>)
        ensures
            final(self).entries() == old(self).entries(),
            r is Some <==> old(self).entries().contains_key(*key),
            r is Some ==> r->0 == old(self).entries()[*key].len(),
    ;

    /// A fresh copy of all keys present, each once, in no particular order.
    fn keys(&mut self) -> (r: Vec<u64>)
        ensures
            final(self).entries() == old(self).entries(),
            r@.no_duplicates(),
            r@.to_set() == old(self).entries().dom(),
    ;
}

/// The key set after inserting the keys of `order` one after the other into
/// a map whose key set was `start`.
pub open spec fn inserted(start: Set<u64>, order: Seq<u64>) -> Set<u64>
    decreases order.len(),
{
    if order.len() == 0 {
        start
    } else {
        inserted(start, order.drop_last()).insert(order.last())
    }
}

/// The keys that occur in any of `batches`.
pub open spec fn batch_keys(batches: Seq<Seq<u64>>) -> Set<u64> {
    Set::new(|k: u64| exists|t: int| 0 <= t < batches.len() && #[trigger] batches[t].contains(k))
}

/// Inserts the keys of `keys` into `map` one after the other.
pub fn insert_keys<M: ConcurrentMap>(map: &mut M, keys: &Vec<u64>)
    ensures
        final(map).key_set() == inserted(old(map).key_set(), keys@),
{
    let ghost start = map.key_set();
    let mut i: usize = 0;
    while i < keys.len()
        invariant
            i <= keys.len(),
            map.key_set() == inserted(start, keys@.take(i as int)),
        decreases keys.len() - i,
    {
        map.insert(keys[i]);
        assert(keys@.take(i as int + 1).drop_last() =~= keys@.take(i as int));
        i = i + 1;
    }
    assert(keys@.take(keys.len() as int) =~= keys@);
}

/// Inserting keys one after the other adds exactly those keys, whatever
/// their order.
pub proof fn inserted_law(start: Set<u64>, order: Seq<u64>)
    ensures
        inserted(start, order) == start.union(order.to_set()),
    decreases order.len(),
{
    if order.len() == 0 {
        assert(order.to_set() =~= Set::<u64>::empty());
        assert(start.union(order.to_set()) =~= start);
    } else {
        let rest = order.drop_last();
        inserted_law(start, rest);
        assert(order =~= rest.push(order.last()));
        assert(order.to_set() =~= rest.to_set().insert(order.last())) by {
            assert forall|k: u64| order.to_set().contains(k) implies rest.to_set().insert(order.last()).contains(k) by {
                let j = choose|j: int| 0 <= j < order.len() && order[j] == k;
                if j < order.len() - 1 {
                    assert(rest[j] == k);
                }
            }
            assert forall|k: u64| rest.to_set().contains(k) implies order.to_set().contains(k) by {
                let j = choose|j: int| 0 <= j < rest.len() && rest[j] == k;
                assert(order[j] == k);
            }
        }
        assert(inserted(start, order) =~= start.union(order.to_set()));
    }
}

/// Several writers insert their batches of keys into one empty map, the
/// single inserts interleaved in any order: afterwards the map holds exactly
/// the keys of all batches. With `keys`, which lists each key once, a reader
/// then sees each of those keys once and no other.
pub proof fn interleaved_inserts_law(batches: Seq<Seq<u64>>, order: Seq<u64>)
    requires
        order.to_set() == batch_keys(batches),
    ensures
        inserted(Set::<u64>::empty(), order) == batch_keys(batches),
{
    inserted_law(Set::<u64>::empty(), order);
    assert(Set::<u64>::empty().union(order.to_set()) =~= order.to_set());
}

/// The total length of `batches`.
pub open spec fn total_len(batches: Seq<Seq<u64>>) -> int
    decreases batches.len(),
{
    if batches.len() == 0 {
        0
    } else {
        total_len(batches.drop_last()) + batches.last().len()
    }
}

/// When no batch repeats a key and no two batches share one, the batches
/// hold as many distinct keys as their total length.
pub proof fn disjoint_batches_law(batches: Seq<Seq<u64>>)
    requires
        forall|t: int| 0 <= t < batches.len() ==> (#[trigger] batches[t]).no_duplicates(),
        forall|t: int, u: int, k: u64|
            0 <= t < batches.len() && 0 <= u < batches.len() && t != u && #[trigger] batches[t].contains(k)
                ==> !(#[trigger] batches[u].contains(k)),
    ensures
        batch_keys(batches).finite(),
        batch_keys(batches).len() == total_len(batches),
    decreases batches.len(),
{
    if batches.len() == 0 {
        assert(batch_keys(batches) =~= Set::<u64>::empty());
    } else {
        let rest = batches.drop_last();
        let last = batches.last();
        assert forall|t: int| 0 <= t < rest.len() implies (#[trigger] rest[t]).no_duplicates() by {
            assert(rest[t] == batches[t]);
        }
        assert forall|t: int, u: int, k: u64|
            0 <= t < rest.len() && 0 <= u < rest.len() && t != u && #[trigger] rest[t].contains(k)
                implies !(#[trigger] rest[u].contains(k)) by {
            assert(rest[t] == batches[t] && rest[u] == batches[u]);
        }
        disjoint_batches_law(rest);
        assert(batches[batches.len() - 1] == last);
        last.unique_seq_to_set();
        assert(batch_keys(batches) =~= batch_keys(rest).union(last.to_set())) by {
            assert forall|k: u64| batch_keys(batches).contains(k) implies
                batch_keys(rest).union(last.to_set()).contains(k) by {
                let t = choose|t: int| 0 <= t < batches.len() && #[trigger] batches[t].contains(k);
                if t < batches.len() - 1 {
                    assert(rest[t] == batches[t]);
                }
            }
            assert forall|k: u64| batch_keys(rest).union(last.to_set()).contains(k) implies
                batch_keys(batches).contains(k) by {
                if batch_keys(rest).contains(k) {
                    let t = choose|t: int| 0 <= t < rest.len() && #[trigger] rest[t].contains(k);
                    assert(batches[t] == rest[t]);
                } else {
                    assert(batches[batches.len() - 1].contains(k));
                }
            }
        }
        assert(batch_keys(rest).disjoint(last.to_set())) by {
            assert forall|k: u64| batch_keys(rest).contains(k) implies !last.to_set().contains(k) by {
                let t = choose|t: int| 0 <= t < rest.len() && #[trigger] rest[t].contains(k);
                assert(batches[t] == rest[t]);
                assert(batches[t].contains(k));
            }
        }
        vstd::set_lib::lemma_set_disjoint_lens(batch_keys(rest), last.to_set());
    }
}

/// A key that was just inserted is found by a lookup.
pub proof fn insert_then_get_law<M: ConcurrentMap>(before: M, after: M, key: u64)
    requires
        after.key_set() == before.key_set().insert(key),
    ensures
        after.key_set().contains(key),
{
}

/// Inserting a key that is already present leaves the key set, and so its
/// size, unchanged.
pub proof fn reinsert_law<M: ConcurrentMap>(before: M, after: M, key: u64)
    requires
        before.key_set().contains(key),
        after.key_set() == before.key_set().insert(key),
    ensures
        after.key_set() == before.key_set(),
        after.key_set().len() == before.key_set().len(),
{
    assert(after.key_set() =~= before.key_set());
}

/// `dashmap::DashMap`, held opaque: its contents are named by `sharded_keys`
/// and `sharded_entries`.
#[verifier::external_type_specification]
#[verifier::external_body]
#[verifier::reject_recursive_types(K)]
#[verifier::reject_recursive_types(V)]
#[verifier::reject_recursive_types(S)]
pub struct ExDashMap<K, V, S>(DashMap<K, V, S>);


/// The keys of a sharded map of unit values.
pub uninterp spec fn sharded_keys(m: ShardedInner) -> Set<u64>;

/// The number of shards a sharded map of unit values was built with.
pub uninterp spec fn sharded_shard_amount(m: ShardedInner) -> usize;

/// Relies on `DashMap::with_capacity_and_hasher_and_shard_amount`, which
/// panics unless the shard amount is a power of two greater than one: a new
/// map is empty and has the shards asked for.
#[verifier::external_body]
fn sharded_new(shards: usize) -> (r: ShardedInner)
    requires
        valid_shard_amount(shards),
    ensures
        sharded_keys(r) == Set::<u64>::empty(),
        sharded_shard_amount(r) == shards,
{
    DashMap::with_capacity_and_hasher_and_shard_amount(0, RandomState::default(), shards)
}

/// Relies on `DashMap::insert`: afterwards the key is present, the others
/// are unchanged, and so are the shards.
#[verifier::external_body]
fn sharded_insert(m: &mut ShardedInner, key: u64)
    ensures
        sharded_keys(*final(m)) == sharded_keys(*old(m)).insert(key),
        sharded_shard_amount(*final(m)) == sharded_shard_amount(*old(m)),
{
    DashMap::insert(m, key, ());
}

/// Relies on `DashMap::contains_key`, which changes nothing: whether the key
/// is present.
#[verifier::external_body]
fn sharded_contains(m: &mut ShardedInner, key: &u64) -> (r: bool)
    ensures
        *final(m) == *old(m),
        r == sharded_keys(*old(m)).contains(*key),
{
    m.contains_key(key)
}

/// Relies on `DashMap::iter`, which changes nothing and visits every entry
/// once: the keys, each once.
#[verifier::external_body]
fn sharded_key_list(m: &mut ShardedInner) -> (r: Vec<u64>)
    ensures
        *final(m) == *old(m),
        r@.no_duplicates(),
        r@.to_set() == sharded_keys(*old(m)),
{
    m.iter().map(|e| *e.key()).collect()
}

/// Relies on `DashMap::insert`, through a shared reference.
#[verifier::external_body]
fn sharded_insert_shared(m: &ShardedInner, key: u64) {
    DashMap::insert(m, key, ());
}

/// Relies on `DashMap::get`, through a shared reference. Nothing removes
/// keys, so a key of the map as last held alone is found.
#[verifier::external_body]
fn sharded_get_shared(m: &ShardedInner, key: &u64) -> (r: Option<()>)
    ensures
        sharded_keys(*m).contains(*key) ==> r is Some,
{
    m.get(key).map(|_| ())
}

/// Relies on `DashMap::iter`, through a shared reference: a key lives in one
/// shard, and each shard is read under its lock, so no key comes twice;
/// nothing removes keys, so each key of the map as last held alone comes.
#[verifier::external_body]
fn sharded_keys_shared(m: &ShardedInner) -> (r: Vec<u64>)
    ensures
        r@.no_duplicates(),
        sharded_keys(*m).subset_of(r@.to_set()),
{
    m.iter().map(|e| *e.key()).collect()
}

/// A new sharded map with `shards` shards and no keys.
pub fn new_dashmap(shards: usize) -> (r: ShardedInner)
    requires
        valid_shard_amount(shards),
    ensures
        sharded_keys(r) == Set::<u64>::empty(),
        sharded_shard_amount(r) == shards,
{
    sharded_new(shards)
}

impl ConcurrentMap for ShardedInner {
    open spec fn key_set(&self) -> Set<u64> {
        sharded_keys(*self)
    }

    open spec fn accepts_shards(shards: usize) -> bool {
        valid_shard_amount(shards)
    }

    fn new_empty(shards: usize) -> (r: Self) {
        new_dashmap(shards)
    }

    fn insert(&mut self, key: u64) {
        sharded_insert(self, key);
    }

    fn get(&mut self, key: &u64) -> (r: Option<()>) {
        if sharded_contains(self, key) {
            Some(())
        } else {
            None
        }
    }

    fn keys(&mut self) -> (r: Vec<u64>) {
        sharded_key_list(self)
    }
}

impl SharedAccess for ShardedInner {
    fn insert_shared(shared: &Shared<Self>, key: u64) {
        sharded_insert_shared(&shared.map, key);
    }

    fn get_shared(shared: &Shared<Self>, key: &u64) -> (r: Option<()>) {
        sharded_get_shared(&shared.map, key)
    }

    fn keys_shared(shared: &Shared<Self>) -> (r: Vec<u64>) {
        sharded_keys_shared(&shared.map)
    }
}

/// `lock_api::RwLock`, which `parking_lot::RwLock` instantiates, held opaque:
/// its contents are named by `locked_keys` and `locked_entries`.
#[verifier::external_type_specification]
#[verifier::external_body]
#[verifier::reject_recursive_types(R)]
#[verifier::reject_recursive_types(T)]
pub struct ExRwLock<R, T: ?Sized>(parking_lot::lock_api::RwLock<R, T>);

/// `parking_lot::RawRwLock`, the lock inside `parking_lot::RwLock`, held opaque.
#[verifier::external_type_specification]
#[verifier::external_body]
pub struct ExRawRwLock(parking_lot::RawRwLock);

/// The keys of a hash map of unit values behind one read/write lock.
pub uninterp spec fn locked_keys(m: LockedInner) -> Set<u64>;

/// Relies on `RwLock::new`: the lock holds the map it is given.
#[verifier::external_body]
fn lock_map(h: HashMap<u64, ()>) -> (r: LockedInner)
    ensures
        locked_keys(r) == h@.dom(),
{
    RwLock::new(h)
}

/// Relies on `RwLock::get_mut`, which needs no locking, and
/// `HashMap::insert`: afterwards the key is present, the others are unchanged.
#[verifier::external_body]
fn locked_insert(m: &mut LockedInner, key: u64)
    ensures
        locked_keys(*final(m)) == locked_keys(*old(m)).insert(key),
{
    HashMap::insert(m.get_mut(), key, ());
}

/// Relies on `RwLock::get_mut` and `HashMap::contains_key`, which change
/// nothing: whether the key is present.
#[verifier::external_body]
fn locked_contains(m: &mut LockedInner, key: &u64) -> (r: bool)
    ensures
        *final(m) == *old(m),
        r == locked_keys(*old(m)).contains(*key),
{
    m.get_mut().contains_key(key)
}

/// Relies on `RwLock::get_mut` and `HashMap::keys`, which change nothing and
/// visit every key once: the keys, each once.
#[verifier::external_body]
fn locked_key_list(m: &mut LockedInner) -> (r: Vec<u64>)
    ensures
        *final(m) == *old(m),
        r@.no_duplicates(),
        r@.to_set() == locked_keys(*old(m)),
{
    m.get_mut().keys().cloned().collect()
}

/// Relies on `RwLock::write` and `HashMap::insert`, through a shared reference.
#[verifier::external_body]
fn locked_insert_shared(m: &LockedInner, key: u64) {
    m.write().insert(key, ());
}

/// Relies on `RwLock::read` and `HashMap::get`, through a shared reference.
/// Nothing removes keys, so a key of the map as last held alone is found.
#[verifier::external_body]
fn locked_get_shared(m: &LockedInner, key: &u64) -> (r: Option<()>)
    ensures
        locked_keys(*m).contains(*key) ==> r is Some,
{
    m.read().get(key).copied()
}

/// Relies on `RwLock::read` and `HashMap::keys`, through a shared reference:
/// the keys are read under one lock, so no key comes twice; nothing removes
/// keys, so each key of the map as last held alone comes.
#[verifier::external_body]
fn locked_keys_shared(m: &LockedInner) -> (r: Vec<u64>)
    ensures
        r@.no_duplicates(),
        locked_keys(*m).subset_of(r@.to_set()),
{
    m.read().keys().cloned().collect()
}

/// A new hash map behind one read/write lock, with no keys.
pub fn new_rwlock_hashmap() -> (r: LockedInner)
    ensures
        locked_keys(r) == Set::<u64>::empty(),
{
    let h: HashMap<u64, ()> = HashMap::new();
    lock_map(h)
}

impl ConcurrentMap for LockedInner {
    open spec fn key_set(&self) -> Set<u64> {
        locked_keys(*self)
    }

    open spec fn accepts_shards(shards: usize) -> bool {
        true
    }

    fn new_empty(shards: usize) -> (r: Self) {
        new_rwlock_hashmap()
    }

    fn insert(&mut self, key: u64) {
        locked_insert(self, key);
    }

    fn get(&mut self, key: &u64) -> (r: Option<()>) {
        if locked_contains(self, key) {
            Some(())
        } else {
            None
        }
    }

    fn keys(&mut self) -> (r: Vec<u64>) {
        locked_key_list(self)
    }
}

impl SharedAccess for LockedInner {
    fn insert_shared(shared: &Shared<Self>, key: u64) {
        locked_insert_shared(&shared.map, key);
    }

    fn get_shared(shared: &Shared<Self>, key: &u64) -> (r: Option<()>) {
        locked_get_shared(&shared.map, key)
    }

    fn keys_shared(shared: &Shared<Self>) -> (r: Vec<u64>) {
        locked_keys_shared(&shared.map)
    }
}

/// For each key of a sharded map of sharded maps, the keys of the inner map.
pub uninterp spec fn sharded_entries(m: ShardedOuter) -> Map<u64, Set<u64>>;

/// Relies on `DashMap::with_capacity_and_hasher_and_shard_amount`, which
/// panics unless the shard amount is a power of two greater than one: a new
/// map is empty.
#[verifier::external_body]
fn sharded_outer_new(shards: usize) -> (r: ShardedOuter)
    requires
        valid_shard_amount(shards),
    ensures
        sharded_entries(r).dom() == Set::<u64>::empty(),
{
    DashMap::with_capacity_and_hasher_and_shard_amount(0, RandomState::default(), shards)
}

/// Relies on `DashMap::insert`: afterwards the key holds the inner map, the
/// other keys are unchanged.
#[verifier::external_body]
fn sharded_outer_insert(m: &mut ShardedOuter, key: u64, inner: ShardedInner)
    ensures
        sharded_entries(*final(m)) == sharded_entries(*old(m)).insert(key, sharded_keys(inner)),
{
    DashMap::insert(m, key, inner);
}

/// Relies on `DashMap::get` and `DashMap::len`, which change nothing: the
/// size of the inner map under the key, if present.
#[verifier::external_body]
fn sharded_outer_inner_size(m: &mut ShardedOuter, key: &u64) -> (r: Option<usize>)
    ensures
        *final(m) == *old(m),
        r is Some <==> sharded_entries(*old(m)).contains_key(*key),
        r is Some ==> r->0 == sharded_entries(*old(m))[*key].len(),
{
    m.get(key).map(|inner| inner.len())
}

/// Relies on `DashMap::iter`, which changes nothing and visits every entry
/// once: the keys, each once.
#[verifier::external_body]
fn sharded_outer_key_list(m: &mut ShardedOuter) -> (r: Vec<u64>)
    ensures
        *final(m) == *old(m),
        r@.no_duplicates(),
        r@.to_set() == sharded_entries(*old(m)).dom(),
{
    m.iter().map(|e| *e.key()).collect()
}

impl OuterMap<ShardedInner> for ShardedOuter {
    open spec fn entries(&self) -> Map<u64, Set<u64>> {
        sharded_entries(*self)
    }

    open spec fn accepts_shards(shards: usize) -> bool {
        valid_shard_amount(shards)
    }

    fn new_empty(shards: usize) -> (r: Self) {
        sharded_outer_new(shards)
    }

    fn insert(&mut self, key: u64, inner: ShardedInner) {
        sharded_outer_insert(self, key, inner);
    }

    fn inner_size(&mut self, key: &u64) -> (r: Option<usize>) {
        sharded_outer_inner_size(self, key)
    }

    fn keys(&mut self) -> (r: Vec<u64>) {
        sharded_outer_key_list(self)
    }
}

/// For each key of a locked map of locked maps, the keys of the inner map.
pub uninterp spec fn locked_entries(m: LockedOuter) -> Map<u64, Set<u64>>;

/// Relies on `RwLock::new`: the lock holds the map it is given.
#[verifier::external_body]
fn lock_outer_map(h: HashMap<u64, LockedInner>) -> (r: LockedOuter)
    ensures
        locked_entries(r).dom() == h@.dom(),
        forall|k: u64| #[trigger] h@.contains_key(k) ==> locked_entries(r)[k] == locked_keys(h@[k]),
{
    RwLock::new(h)
}

/// Relies on `RwLock::get_mut`, which needs no locking, and
/// `HashMap::insert`: afterwards the key holds the inner map, the other keys
/// are unchanged.
#[verifier::external_body]
fn locked_outer_insert(m: &mut LockedOuter, key: u64, inner: LockedInner)
    ensures
        locked_entries(*final(m)) == locked_entries(*old(m)).insert(key, locked_keys(inner)),
{
    HashMap::insert(m.get_mut(), key, inner);
}

/// Relies on `RwLock::get_mut`, `HashMap::get` and, on the inner lock,
/// `RwLock::read` and `HashMap::len`, which change nothing: the size of the
/// inner map under the key, if present.
#[verifier::external_body]
fn locked_outer_inner_size(m: &mut LockedOuter, key: &u64) -> (r: Option<usize>)
    ensures
        *final(m) == *old(m),
        r is Some <==> locked_entries(*old(m)).contains_key(*key),
        r is Some ==> r->0 == locked_entries(*old(m))[*key].len(),
{
    m.get_mut().get(key).map(|inner| inner.read().len())
}

/// Relies on `RwLock::get_mut` and `HashMap::keys`, which change nothing and
/// visit every key once: the keys, each once.
#[verifier::external_body]
fn locked_outer_key_list(m: &mut LockedOuter) -> (r: Vec<u64>)
    ensures
        *final(m) == *old(m),
        r@.no_duplicates(),
        r@.to_set() == locked_entries(*old(m)).dom(),
{
    m.get_mut().keys().cloned().collect()
}

impl OuterMap<LockedInner> for LockedOuter {
    open spec fn entries(&self) -> Map<u64, Set<u64>> {
        locked_entries(*self)
    }

    open spec fn accepts_shards(shards: usize) -> bool {
        true
    }

    fn new_empty(shards: usize) -> (r: Self) {
        let h: HashMap<u64, LockedInner> = HashMap::new();
        let r = lock_outer_map(h);
        assert(r.entries().dom() =~= Set::<u64>::empty());
        r
    }

    fn insert(&mut self, key: u64, inner: LockedInner) {
        locked_outer_insert(self, key, inner);
    }

    fn inner_size(&mut self, key: &u64) -> (r: Option<usize>) {
        locked_outer_inner_size(self, key)
    }

    fn keys(&mut self) -> (r: Vec<u64>) {
        locked_outer_key_list(self)
    }
}

} // verus!
