//! The transaction store: a bounded cache keyed by gid. The cache itself is
//! `moka::sync::Cache`; what this module states of it is trusted, and the
//! engine's own logic is verified on top of these statements. Every call
//! that may change the cache is followed by `run_pending_tasks`, so that
//! the cache is at rest between calls and what it holds does not depend on
//! when it is asked.

use crate::text::str_eq;
use crate::traffic::{head_of, Traffic, TrafficHead, TrafficHeadView, TrafficView};
use moka::sync::Cache;
use std::sync::Arc;
use vstd::prelude::*;

verus! {

#[verifier::external_type_specification]
#[verifier::external_body]
#[verifier::reject_recursive_types(K)]
#[verifier::reject_recursive_types(V)]
#[verifier::reject_recursive_types(S)]
pub struct ExCache<K, V, S>(Cache<K, V, S>);

/// The entries that a cache holds: each gid with the record kept under it.
pub uninterp spec fn cache_entries(c: Cache<u64, Arc<Traffic>>) -> Map<u64, TrafficView>;

/// The number of entries that a cache was made to hold.
pub uninterp spec fn cache_capacity(c: Cache<u64, Arc<Traffic>>) -> nat;

/// Whether a cache is at rest: every insertion and removal that was made
/// has been applied to its eviction policy, so that nothing waits to be
/// admitted, rejected or evicted.
pub uninterp spec fn cache_at_rest(c: Cache<u64, Arc<Traffic>>) -> bool;

/// A cache that is at rest and holds no more than it was made for. Such a
/// cache loses no entry until one is inserted that it has no room for.
pub open spec fn settled(c: Cache<u64, Arc<Traffic>>) -> bool {
    &&& cache_at_rest(c)
    &&& cache_entries(c).dom().finite()
    &&& cache_entries(c).len() <= cache_capacity(c)
}

/// A settled cache that takes an entry under `key` without losing one: it
/// holds the key already, or is not full.
pub open spec fn takes(c: Cache<u64, Arc<Traffic>>, key: u64) -> bool {
    &&& settled(c)
    &&& cache_entries(c).contains_key(key) || cache_entries(c).len() < cache_capacity(c)
}

/// The entries of an empty cache.
pub open spec fn no_entries() -> Map<u64, TrafficView> {
    Map::empty()
}

/// Trusted: `moka::sync::Cache::new`. The new cache is empty, at rest, and
/// keeps the capacity it was given.
#[verifier::external_body]
pub(crate) fn cache_new(capacity: u64) -> (c: Cache<u64, Arc<Traffic>>)
    ensures
        cache_entries(c) == no_entries(),
        cache_capacity(c) == capacity,
        cache_at_rest(c),
{
    Cache::new(capacity)
}

/// Trusted: `moka::sync::Cache::insert`, followed by `run_pending_tasks`,
/// which applies the insertion to the eviction policy at once. No entry
/// appears but the new one, and no other entry changes its value. A
/// settled cache that holds the key, or is not full, holds exactly the old
/// entries and the new one afterwards, and is settled again. Of a full
/// cache the policy decides which entry leaves, the new one or others:
/// nothing is claimed of that.
#[verifier::external_body]
pub(crate) fn cache_insert(c: &mut Cache<u64, Arc<Traffic>>, key: u64, value: Arc<Traffic>)
    ensures
        cache_capacity(*final(c)) == cache_capacity(*old(c)),
        cache_entries(*final(c)).dom().finite(),
        cache_entries(*final(c)).submap_of(cache_entries(*old(c)).insert(key, value@)),
        takes(*old(c), key) ==> cache_entries(*final(c)) == cache_entries(*old(c)).insert(
            key,
            value@,
        ) && settled(*final(c)),
{
    c.insert(key, value);
    c.run_pending_tasks();
}

/// Trusted: `moka::sync::Cache::get`, followed by `run_pending_tasks`. The
/// value given is the one held under the key, and nothing is given exactly
/// where the key is not held. No entry appears, and a settled cache stays
/// as it is.
#[verifier::external_body]
pub(crate) fn cache_get(c: &mut Cache<u64, Arc<Traffic>>, key: u64) -> (r: Option<Arc<Traffic>>)
    ensures
        cache_capacity(*final(c)) == cache_capacity(*old(c)),
        cache_entries(*final(c)).dom().finite(),
        cache_entries(*final(c)).submap_of(cache_entries(*old(c))),
        settled(*old(c)) ==> cache_entries(*final(c)) == cache_entries(*old(c)) && settled(
            *final(c),
        ),
        r matches Some(v) ==> cache_entries(*old(c)).contains_key(key) && v@ == cache_entries(
            *old(c),
        )[key],
        r is None ==> !cache_entries(*old(c)).contains_key(key),
{
    let r = c.get(&key);
    c.run_pending_tasks();
    r
}

/// Trusted: `moka::sync::Cache::remove`, followed by `run_pending_tasks`.
/// The key is held no longer; the value given back is the one that was
/// held, and nothing is given back exactly where the key was not held. No
/// entry appears, and a settled cache loses no other entry and stays
/// settled.
#[verifier::external_body]
pub(crate) fn cache_remove(c: &mut Cache<u64, Arc<Traffic>>, key: u64) -> (r: Option<Arc<Traffic>>)
    ensures
        cache_capacity(*final(c)) == cache_capacity(*old(c)),
        cache_entries(*final(c)).dom().finite(),
        cache_entries(*final(c)).submap_of(cache_entries(*old(c)).remove(key)),
        settled(*old(c)) ==> cache_entries(*final(c)) == cache_entries(*old(c)).remove(key)
            && settled(*final(c)),
        r matches Some(v) ==> cache_entries(*old(c)).contains_key(key) && v@ == cache_entries(
            *old(c),
        )[key],
        r is None ==> !cache_entries(*old(c)).contains_key(key),
{
    let r = c.remove(&key);
    c.run_pending_tasks();
    r
}

/// The pairs of a list as a map; a later pair wins over an earlier one with
/// the same gid.
pub open spec fn pairs_map(pairs: Seq<(u64, TrafficView)>) -> Map<u64, TrafficView>
    decreases pairs.len(),
{
    if pairs.len() == 0 {
        Map::empty()
    } else {
        let last = pairs.last();
        pairs_map(pairs.drop_last()).insert(last.0, last.1)
    }
}

/// No gid occurs twice in the list.
pub open spec fn distinct_gids(pairs: Seq<(u64, TrafficView)>) -> bool {
    forall|i: int, j: int|
        0 <= i < j < pairs.len() ==> (#[trigger] pairs[i]).0 != (#[trigger] pairs[j]).0
}

/// A list without a repeated gid makes a map with one entry for each of its
/// pairs.
pub proof fn lemma_pairs_len(pairs: Seq<(u64, TrafficView)>)
    requires
        distinct_gids(pairs),
    ensures
        pairs_map(pairs).dom().finite(),
        pairs_map(pairs).len() == pairs.len(),
        forall|k: u64|
            pairs_map(pairs).contains_key(k) ==> exists|i: int|
                0 <= i < pairs.len() && (#[trigger] pairs[i]).0 == k,
    decreases pairs.len(),
{
    if pairs.len() > 0 {
        let rest = pairs.drop_last();
        lemma_pairs_len(rest);
        let last = pairs.last();
        if pairs_map(rest).contains_key(last.0) {
            let i = choose|i: int| 0 <= i < rest.len() && (#[trigger] rest[i]).0 == last.0;
            assert(pairs[i].0 == pairs[pairs.len() - 1].0);
        }
        assert forall|k: u64| pairs_map(pairs).contains_key(k) implies exists|i: int|
            0 <= i < pairs.len() && (#[trigger] pairs[i]).0 == k by {
            if k == last.0 {
                assert(pairs[pairs.len() - 1].0 == k);
            } else {
                let i = choose|i: int| 0 <= i < rest.len() && (#[trigger] rest[i]).0 == k;
                assert(pairs[i].0 == k);
            }
        }
    }
}

/// In a list without a repeated gid, each pair is an entry of the map.
pub proof fn lemma_pairs_get(pairs: Seq<(u64, TrafficView)>, i: int)
    requires
        distinct_gids(pairs),
        0 <= i < pairs.len(),
    ensures
        pairs_map(pairs).contains_key(pairs[i].0),
        pairs_map(pairs)[pairs[i].0] == pairs[i].1,
    decreases pairs.len(),
{
    if i < pairs.len() - 1 {
        let rest = pairs.drop_last();
        lemma_pairs_get(rest, i);
        assert(rest[i] == pairs[i]);
        assert(pairs[i].0 != pairs[pairs.len() - 1].0);
    }
}

/// Trusted: `moka::sync::Cache::iter`, collected. The iterator changes
/// nothing in the cache. No entry comes twice, and each one that comes is
/// held; a settled cache hands out all it holds. The order is the cache's
/// own.
#[verifier::external_body]
pub(crate) fn cache_list(c: &Cache<u64, Arc<Traffic>>) -> (r: Vec<(u64, Arc<Traffic>)>)
    ensures
        distinct_gids(r.deep_view()),
        pairs_map(r.deep_view()).submap_of(cache_entries(*c)),
        settled(*c) ==> pairs_map(r.deep_view()) == cache_entries(*c),
{
    c.iter().map(|(k, v)| (*k, v)).collect()
}

/// Every entry of `m` is an entry of `a` or of `b`.
pub open spec fn drawn_from(
    m: Map<u64, TrafficView>,
    a: Map<u64, TrafficView>,
    b: Map<u64, TrafficView>,
) -> bool {
    forall|k: u64| #[trigger]
        m.contains_key(k) ==> (a.contains_key(k) && m[k] == a[k]) || (b.contains_key(k) && m[k]
            == b[k])
}

/// An entry of a map is an entry of every map that it is part of.
pub proof fn lemma_submap_at(a: Map<u64, TrafficView>, b: Map<u64, TrafficView>, k: u64)
    requires
        a.submap_of(b),
        a.dom().contains(k),
    ensures
        b.dom().contains(k),
        a[k] == b[k],
{
    assert(b.dom().contains(k));
}

/// Puts every listed record into the cache under its gid.
pub fn copy_into(target: &mut Cache<u64, Arc<Traffic>>, items: &Vec<(u64, Arc<Traffic>)>)
    requires
        distinct_gids(items.deep_view()),
    ensures
        cache_capacity(*final(target)) == cache_capacity(*old(target)),
        drawn_from(
            cache_entries(*final(target)),
            cache_entries(*old(target)),
            pairs_map(items.deep_view()),
        ),
        settled(*old(target)) && cache_entries(*old(target)) == no_entries() && items.len()
            <= cache_capacity(*old(target)) ==> cache_entries(*final(target)) == pairs_map(
            items.deep_view(),
        ) && settled(*final(target)),
{
    let ghost list = items.deep_view();
    let ghost start = cache_entries(*target);
    let ghost exact = settled(*target) && start == no_entries() && items.len() <= cache_capacity(
        *target,
    );
    proof {
        assert(list.take(0) =~= Seq::empty());
    }
    let mut i: usize = 0;
    while i < items.len()
        invariant
            i <= items.len(),
            list == items.deep_view(),
            distinct_gids(list),
            cache_capacity(*target) == cache_capacity(*old(target)),
            exact ==> items.len() <= cache_capacity(*target),
            drawn_from(cache_entries(*target), start, pairs_map(list.take(i as int))),
            exact ==> cache_entries(*target) == pairs_map(list.take(i as int)) && settled(*target),
        decreases items.len() - i,
    {
        let key = items[i].0;
        let value = items[i].1.clone();
        let ghost before = cache_entries(*target);
        proof {
            assert(list[i as int] == (key, value@));
            assert(list.take(i + 1).drop_last() =~= list.take(i as int));
            assert(list.take(i + 1).last() == list[i as int]);
            assert(pairs_map(list.take(i + 1)) == pairs_map(list.take(i as int)).insert(
                key,
                value@,
            ));
            assert(distinct_gids(list.take(i as int)));
            lemma_pairs_len(list.take(i as int));
        }
        cache_insert(target, key, value);
        proof {
            let now = cache_entries(*target);
            let wide = pairs_map(list.take(i + 1));
            assert forall|k: u64| #[trigger] now.contains_key(k) implies (start.contains_key(k)
                && now[k] == start[k]) || (wide.contains_key(k) && now[k] == wide[k]) by {
                lemma_submap_at(now, before.insert(key, value@), k);
                if k != key {
                    assert(before.contains_key(k));
                }
            }
        }
        i += 1;
    }
    proof {
        assert(list.take(list.len() as int) =~= list);
    }
}

/// The heads of the listed records, each under its gid and `session_id`.
pub fn heads_of(items: &Vec<(u64, Arc<Traffic>)>, session_id: &str) -> (heads: Vec<TrafficHead>)
    ensures
        heads.len() == items.len(),
        forall|j: int|
            0 <= j < heads.len() ==> (#[trigger] heads[j]).id == items[j].0 && heads[j]@ == head_of(
                items[j].1@,
                items[j].0,
                session_id@,
            ),
{
    let mut heads: Vec<TrafficHead> = Vec::new();
    let mut i: usize = 0;
    while i < items.len()
        invariant
            i <= items.len(),
            heads.len() == i,
            forall|j: int|
                0 <= j < i ==> (#[trigger] heads[j]).id == items[j].0 && heads[j]@ == head_of(
                    items[j].1@,
                    items[j].0,
                    session_id@,
                ),
        decreases items.len() - i,
    {
        let head = items[i].1.head(items[i].0, session_id);
        heads.push(head);
        i += 1;
    }
    heads
}

/// The heads of the first `n` listed records that belong to a session.
pub open spec fn session_heads(
    list: Seq<(u64, TrafficView)>,
    session_id: Seq<char>,
    n: int,
) -> Seq<TrafficHeadView>
    decreases n,
{
    if n <= 0 || n > list.len() {
        Seq::empty()
    } else {
        let rest = session_heads(list, session_id, n - 1);
        if list[n - 1].1.session_id == session_id {
            rest.push(head_of(list[n - 1].1, list[n - 1].0, session_id))
        } else {
            rest
        }
    }
}

/// The heads of the listed records that belong to a session, in their
/// order.
pub fn heads_of_session(items: &Vec<(u64, Arc<Traffic>)>, session_id: &str) -> (heads: Vec<
    TrafficHead,
>)
    ensures
        heads.deep_view() == session_heads(items.deep_view(), session_id@, items.len() as int),
{
    let mut heads: Vec<TrafficHead> = Vec::new();
    assert(heads.deep_view() =~= Seq::empty());
    let mut i: usize = 0;
    while i < items.len()
        invariant
            i <= items.len(),
            heads.deep_view() == session_heads(items.deep_view(), session_id@, i as int),
        decreases items.len() - i,
    {
        assert(items.deep_view()[i as int] == (items[i as int].0, items[i as int].1@));
        if str_eq(items[i].1.session_id.as_str(), session_id) {
            let ghost before = heads.deep_view();
            let head = items[i].1.head(items[i].0, session_id);
            let ghost h = head@;
            heads.push(head);
            assert(heads.deep_view() =~= before.push(h));
        }
        i += 1;
    }
    heads
}

} // verus!
