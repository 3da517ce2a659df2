//! Concurrently updatable keyed maps, from the `dashmap` crate.
//!
//! Each collection of the shared state lives in a `DashMap`, so one
//! sender's entry can be updated without blocking any other sender's.
//! Verus sees each map through an abstract view of its contents and
//! through the small trusted wrappers below, one per `dashmap` method the
//! library calls; their contracts state what the crate's source shows.

use vstd::prelude::*;

use crate::bucket::TokenBucket;
use crate::state::DebounceEntry;
use crate::state::SessionRec;
use dashmap::DashMap;

verus! {

#[verifier::external_type_specification]
#[verifier::external_body]
#[verifier::reject_recursive_types(K)]
#[verifier::reject_recursive_types(V)]
#[verifier::reject_recursive_types(S)]
pub struct ExDashMap<K, V, S>(DashMap<K, V, S>);

/// The sessions held by a session map, keyed by sender.
pub uninterp spec fn sessions_of(m: DashMap<String, SessionRec>) -> Map<Seq<char>, SessionRec>;

/// The debounce buffers held by a debounce map, keyed by sender.
pub uninterp spec fn debounce_of(m: DashMap<String, DebounceEntry>) -> Map<Seq<char>, DebounceEntry>;

/// The rate-limit buckets held by a bucket map, keyed by sender.
pub uninterp spec fn buckets_of(m: DashMap<String, TokenBucket>) -> Map<Seq<char>, TokenBucket>;

/// The senders held by an allow set.
pub uninterp spec fn members_of(m: DashMap<String, ()>) -> Set<Seq<char>>;

/// The hashes held by a sent-hash set.
pub uninterp spec fn hashes_of(m: DashMap<u64, ()>) -> Set<u64>;

/// An empty session map.
pub open spec fn empty_sessions() -> Map<Seq<char>, SessionRec> {
    Map::empty()
}

/// An empty debounce map.
pub open spec fn empty_debounce() -> Map<Seq<char>, DebounceEntry> {
    Map::empty()
}

/// An empty bucket map.
pub open spec fn empty_buckets() -> Map<Seq<char>, TokenBucket> {
    Map::empty()
}

/// Relies on DashMap::new: a fresh map holds nothing.
#[verifier::external_body]
pub fn sess_new() -> (m: DashMap<String, SessionRec>)
    ensures
        sessions_of(m) == empty_sessions(),
{
    DashMap::new()
}

/// Relies on DashMap::get: the value stored under `k`, if any.
#[verifier::external_body]
pub fn sess_get(m: &DashMap<String, SessionRec>, k: &str) -> (r: Option<SessionRec>)
    ensures
        match r {
            Some(v) => sessions_of(*m).dom().contains(k@) && v == sessions_of(*m)[k@],
            None => !sessions_of(*m).dom().contains(k@),
        },
{
    m.get(k).map(|e| e.value().clone())
}

/// Relies on DashMap::insert: stores `v` under `k`, replacing any old value.
#[verifier::external_body]
pub fn sess_insert(m: &mut DashMap<String, SessionRec>, k: String, v: SessionRec)
    ensures
        sessions_of(*final(m)) == sessions_of(*old(m)).insert(k@, v),
{
    m.insert(k, v);
}

/// Relies on DashMap::remove: discards the entry under `k`, if any.
#[verifier::external_body]
pub fn sess_remove(m: &mut DashMap<String, SessionRec>, k: &str)
    ensures
        sessions_of(*final(m)) == sessions_of(*old(m)).remove(k@),
{
    m.remove(k);
}

/// Relies on DashMap::len: the number of entries held.
#[verifier::external_body]
pub fn sess_len(m: &DashMap<String, SessionRec>) -> (n: usize)
    ensures
        n == sessions_of(*m).dom().len(),
{
    m.len()
}

/// Relies on DashMap::iter: every entry, each key once, in no fixed order.
#[verifier::external_body]
pub fn sess_entries(m: &DashMap<String, SessionRec>) -> (v: Vec<(String, SessionRec)>)
    ensures
        forall|i: int|
            0 <= i < v@.len() ==> sessions_of(*m).contains_pair(
                #[trigger] v@[i].0@,
                v@[i].1,
            ),
        forall|i: int, j: int|
            #![trigger v@[i].0@, v@[j].0@]
            0 <= i < j < v@.len() ==> v@[i].0@ != v@[j].0@,
        forall|k: Seq<char>|
            sessions_of(*m).dom().contains(k) ==> exists|i: int|
                0 <= i < v@.len() && #[trigger] v@[i].0@ == k,
{
    let mut v = Vec::new();
    for e in m.iter() {
        v.push((e.key().clone(), e.value().clone()));
    }
    v
}

/// Relies on DashMap::new: a fresh map holds nothing.
#[verifier::external_body]
pub fn deb_new() -> (m: DashMap<String, DebounceEntry>)
    ensures
        debounce_of(m) == empty_debounce(),
{
    DashMap::new()
}

/// Relies on DashMap::get: the value stored under `k`, if any.
#[verifier::external_body]
pub fn deb_get(m: &DashMap<String, DebounceEntry>, k: &str) -> (r: Option<DebounceEntry>)
    ensures
        match r {
            Some(v) => debounce_of(*m).dom().contains(k@) && v == debounce_of(*m)[k@],
            None => !debounce_of(*m).dom().contains(k@),
        },
{
    m.get(k).map(|e| e.value().clone())
}

/// Relies on DashMap::insert: stores `v` under `k`, replacing any old value.
#[verifier::external_body]
pub fn deb_insert(m: &mut DashMap<String, DebounceEntry>, k: String, v: DebounceEntry)
    ensures
        debounce_of(*final(m)) == debounce_of(*old(m)).insert(k@, v),
{
    m.insert(k, v);
}

/// Relies on DashMap::remove: discards the entry under `k`, if any.
#[verifier::external_body]
pub fn deb_remove(m: &mut DashMap<String, DebounceEntry>, k: &str)
    ensures
        debounce_of(*final(m)) == debounce_of(*old(m)).remove(k@),
{
    m.remove(k);
}

/// Relies on DashMap::new: a fresh map holds nothing.
#[verifier::external_body]
pub fn rate_new() -> (m: DashMap<String, TokenBucket>)
    ensures
        buckets_of(m) == empty_buckets(),
{
    DashMap::new()
}

/// Relies on DashMap::get: the value stored under `k`, if any.
#[verifier::external_body]
pub fn rate_get(m: &DashMap<String, TokenBucket>, k: &str) -> (r: Option<TokenBucket>)
    ensures
        match r {
            Some(v) => buckets_of(*m).dom().contains(k@) && v == buckets_of(*m)[k@],
            None => !buckets_of(*m).dom().contains(k@),
        },
{
    m.get(k).map(|e| e.value().clone())
}

/// Relies on DashMap::insert: stores `v` under `k`, replacing any old value.
#[verifier::external_body]
pub fn rate_insert(m: &mut DashMap<String, TokenBucket>, k: String, v: TokenBucket)
    ensures
        buckets_of(*final(m)) == buckets_of(*old(m)).insert(k@, v),
{
    m.insert(k, v);
}

/// Relies on DashMap::new: a fresh map holds nothing.
#[verifier::external_body]
pub fn allow_new() -> (m: DashMap<String, ()>)
    ensures
        members_of(m) == Set::<Seq<char>>::empty(),
{
    DashMap::new()
}

/// Relies on DashMap::insert: adds `k` to the set.
#[verifier::external_body]
pub fn allow_insert(m: &mut DashMap<String, ()>, k: String)
    ensures
        members_of(*final(m)) == members_of(*old(m)).insert(k@),
{
    m.insert(k, ());
}

/// Relies on DashMap::contains_key: membership of `k`.
#[verifier::external_body]
pub fn allow_contains(m: &DashMap<String, ()>, k: &str) -> (r: bool)
    ensures
        r == members_of(*m).contains(k@),
{
    m.contains_key(k)
}

/// Relies on DashMap::len: the number of members held.
#[verifier::external_body]
pub fn allow_len(m: &DashMap<String, ()>) -> (n: usize)
    ensures
        n == members_of(*m).len(),
{
    m.len()
}

/// Relies on DashMap::new: a fresh map holds nothing.
#[verifier::external_body]
pub fn hashes_new() -> (m: DashMap<u64, ()>)
    ensures
        hashes_of(m) == Set::<u64>::empty(),
{
    DashMap::new()
}

/// Relies on DashMap::insert: adds `k` to the set.
#[verifier::external_body]
pub fn hashes_insert(m: &mut DashMap<u64, ()>, k: u64)
    ensures
        hashes_of(*final(m)) == hashes_of(*old(m)).insert(k),
{
    m.insert(k, ());
}

/// Relies on DashMap::contains_key: membership of `k`.
#[verifier::external_body]
pub fn hashes_contains(m: &DashMap<u64, ()>, k: u64) -> (r: bool)
    ensures
        r == hashes_of(*m).contains(k),
{
    m.contains_key(&k)
}

} // verus!
