//! Trusted boundary around `lru::LruCache`, the least-recently-used cache
//! this crate builds its bounded object caches on.
//!
//! The cache is used with `String` keys and unit values: it tracks which
//! keys are held and their recency order, while the cached objects
//! themselves live in a verified side table (see [`crate::cache`]).
//!
//! The key order is named by [`lru_keys`], most recently used first, and
//! the fixed capacity by [`lru_capacity`]. Each wrapper states, over those
//! two names, what the corresponding `lru` method does according to its
//! source: `get` and a repeated `push` move a key to the front, `push` on a
//! full cache drops the least recently used key (the back), `pop` removes a
//! key wherever it stands.

use vstd::prelude::*;

verus! {

/// The concrete cache type: `String` keys, unit values, and the hasher of
/// std's `HashMap`.
pub type KeyLru = lru::LruCache<String, (), std::collections::hash_map::RandomState>;

#[verifier::external_type_specification]
#[verifier::external_body]
#[verifier::reject_recursive_types(K)]
#[verifier::reject_recursive_types(V)]
#[verifier::reject_recursive_types(S)]
pub struct ExLruCache<K, V, S>(lru::LruCache<K, V, S>);

/// The keys held by the cache, in recency order: the most recently used
/// key first, the least recently used key last.
pub uninterp spec fn lru_keys(c: KeyLru) -> Seq<Seq<char>>;

/// The fixed capacity the cache was created with.
pub uninterp spec fn lru_capacity(c: KeyLru) -> nat;

/// Relies on `lru::LruCache::new`: a cache created with capacity `cap`
/// holds no keys.
#[verifier::external_body]
pub(crate) fn lru_new(cap: usize) -> (r: KeyLru)
    requires
        1 <= cap,
    ensures
        lru_keys(r) == Seq::<Seq<char>>::empty(),
        lru_capacity(r) == cap as nat,
{
    lru::LruCache::with_hasher(
        std::num::NonZeroUsize::new(cap).unwrap(),
        std::collections::hash_map::RandomState::new(),
    )
}

/// Relies on `lru::LruCache::get`: answers whether the key is held, and
/// moves a held key to the front of the recency order.
#[verifier::external_body]
pub(crate) fn lru_get(c: &mut KeyLru, k: &str) -> (hit: bool)
    ensures
        lru_capacity(*final(c)) == lru_capacity(*old(c)),
        hit == lru_keys(*old(c)).contains(k@),
        hit ==> lru_keys(*final(c)) == seq![k@] + lru_keys(*old(c)).remove_value(k@),
        !hit ==> lru_keys(*final(c)) == lru_keys(*old(c)),
{
    c.get(k).is_some()
}

/// Relies on `lru::LruCache::push`: inserts the key at the front. A key
/// already held is moved to the front and returned; otherwise, when the
/// cache is full, the least recently used key is dropped and returned.
#[verifier::external_body]
pub(crate) fn lru_push(c: &mut KeyLru, k: String) -> (evicted: Option<String>)
    requires
        lru_keys(*old(c)).len() <= lru_capacity(*old(c)),
        1 <= lru_capacity(*old(c)),
    ensures
        lru_capacity(*final(c)) == lru_capacity(*old(c)),
        ({
            let ks = lru_keys(*old(c));
            let ks2 = lru_keys(*final(c));
            if ks.contains(k@) {
                &&& ks2 == seq![k@] + ks.remove_value(k@)
                &&& evicted matches Some(e) && e@ == k@
            } else if ks.len() < lru_capacity(*old(c)) {
                &&& ks2 == seq![k@] + ks
                &&& evicted is None
            } else {
                &&& ks2 == seq![k@] + ks.drop_last()
                &&& evicted matches Some(e) && e@ == ks.last()
            }
        }),
{
    c.push(k, ()).map(|kv: (String, ())| kv.0)
}

/// Relies on `lru::LruCache::pop`: removes the key from the cache if it is
/// held, leaving the order of the other keys unchanged.
#[verifier::external_body]
pub(crate) fn lru_pop(c: &mut KeyLru, k: &str) -> (removed: bool)
    ensures
        lru_capacity(*final(c)) == lru_capacity(*old(c)),
        removed == lru_keys(*old(c)).contains(k@),
        lru_keys(*final(c)) == lru_keys(*old(c)).remove_value(k@),
{
    c.pop(k).is_some()
}

/// Relies on `lru::LruCache::contains`: answers whether the key is held,
/// without touching the recency order.
#[verifier::external_body]
pub(crate) fn lru_contains(c: &KeyLru, k: &str) -> (r: bool)
    ensures
        r == lru_keys(*c).contains(k@),
{
    c.contains(k)
}

/// Relies on `lru::LruCache::len`: the number of keys held.
#[verifier::external_body]
pub(crate) fn lru_len(c: &KeyLru) -> (r: usize)
    ensures
        r == lru_keys(*c).len(),
{
    c.len()
}

} // verus!
