use std::collections::hash_map::RandomState;
use std::num::NonZeroUsize;

use lru::LruCache;
use vstd::prelude::*;

use crate::attr::FileAttr;

verus! {

#[verifier::external_type_specification]
#[verifier::external_body]
#[verifier::reject_recursive_types(K)]
#[verifier::reject_recursive_types(V)]
#[verifier::reject_recursive_types(S)]
pub struct ExLruCache<K, V, S>(LruCache<K, V, S>);

/// The records an attribute cache holds, by inode.
pub uninterp spec fn lru_attr_entries(c: LruCache<u64, FileAttr, RandomState>) -> Map<u64, FileAttr>;

/// The inodes an attribute cache holds, least recently used first: the
/// first is the next to be evicted.
pub uninterp spec fn lru_attr_order(c: LruCache<u64, FileAttr, RandomState>) -> Seq<u64>;

/// The capacity an attribute cache was made with.
pub uninterp spec fn lru_attr_cap(c: LruCache<u64, FileAttr, RandomState>) -> nat;

/// What every cache satisfies: the order lists each held key once, and
/// no more keys than the capacity, which is at least 1.
pub open spec fn lru_consistent(entries: Map<u64, FileAttr>, order: Seq<u64>, cap: nat) -> bool {
    &&& cap >= 1
    &&& order.no_duplicates()
    &&& order.to_set() == entries.dom()
    &&& order.len() == entries.dom().len()
    &&& order.len() <= cap
}

/// The order after `k` is used: it moves to the most recent end.
pub open spec fn touched(order: Seq<u64>, k: u64) -> Seq<u64> {
    order.filter(|x: u64| x != k).push(k)
}

/// The order after `k` is demoted: it moves to the least recent end.
pub open spec fn demoted(order: Seq<u64>, k: u64) -> Seq<u64> {
    seq![k] + order.filter(|x: u64| x != k)
}

/// Relies on `LruCache::with_hasher`: an empty cache of capacity `cap`.
#[verifier::external_body]
fn lru_new(cap: usize) -> (r: LruCache<u64, FileAttr, RandomState>)
    requires
        cap > 0,
    ensures
        lru_attr_entries(r).is_empty(),
        lru_attr_order(r).len() == 0,
        lru_attr_cap(r) == cap,
{
    LruCache::with_hasher(NonZeroUsize::new(cap).unwrap(), RandomState::new())
}

/// Relies on `LruCache::get`: the cached value, if any; a key found moves
/// to the most recent end; the entries stay.
#[verifier::external_body]
fn lru_get(c: &mut LruCache<u64, FileAttr, RandomState>, ino: u64) -> (r: Option<FileAttr>)
    ensures
        lru_attr_entries(*final(c)) == lru_attr_entries(*old(c)),
        lru_attr_cap(*final(c)) == lru_attr_cap(*old(c)),
        lru_consistent(lru_attr_entries(*final(c)), lru_attr_order(*final(c)), lru_attr_cap(*final(c))),
        lru_attr_order(*final(c)) == if lru_attr_entries(*old(c)).contains_key(ino) {
            touched(lru_attr_order(*old(c)), ino)
        } else {
            lru_attr_order(*old(c))
        },
        r == if lru_attr_entries(*old(c)).contains_key(ino) {
            Some(lru_attr_entries(*old(c))[ino])
        } else {
            None
        },
{
    c.get(&ino).copied()
}

/// Relies on `LruCache::put`: the key maps to the value afterwards and is
/// the most recently used; a key already held keeps its place otherwise;
/// a new key in a full cache evicts the least recently used entry.
#[verifier::external_body]
fn lru_put(c: &mut LruCache<u64, FileAttr, RandomState>, ino: u64, attr: FileAttr)
    ensures
        lru_attr_cap(*final(c)) == lru_attr_cap(*old(c)),
        lru_consistent(lru_attr_entries(*final(c)), lru_attr_order(*final(c)), lru_attr_cap(*final(c))),
        lru_attr_entries(*old(c)).contains_key(ino) ==> lru_attr_entries(*final(c))
            == lru_attr_entries(*old(c)).insert(ino, attr) && lru_attr_order(*final(c)) == touched(
            lru_attr_order(*old(c)),
            ino,
        ),
        !lru_attr_entries(*old(c)).contains_key(ino) && lru_attr_entries(*old(c)).dom().len()
            < lru_attr_cap(*old(c)) ==> lru_attr_entries(*final(c)) == lru_attr_entries(
            *old(c),
        ).insert(ino, attr) && lru_attr_order(*final(c)) == lru_attr_order(*old(c)).push(ino),
        !lru_attr_entries(*old(c)).contains_key(ino) && lru_attr_entries(*old(c)).dom().len()
            >= lru_attr_cap(*old(c)) ==> lru_attr_entries(*final(c)) == lru_attr_entries(
            *old(c),
        ).remove(lru_attr_order(*old(c))[0]).insert(ino, attr) && lru_attr_order(*final(c))
            == lru_attr_order(*old(c)).drop_first().push(ino),
{
    c.put(ino, attr);
}

/// Relies on `LruCache::demote`: a key held moves to the least recent end,
/// the first to be evicted; the entries stay.
#[verifier::external_body]
fn lru_demote(c: &mut LruCache<u64, FileAttr, RandomState>, ino: u64)
    ensures
        lru_attr_entries(*final(c)) == lru_attr_entries(*old(c)),
        lru_attr_cap(*final(c)) == lru_attr_cap(*old(c)),
        lru_consistent(lru_attr_entries(*final(c)), lru_attr_order(*final(c)), lru_attr_cap(*final(c))),
        lru_attr_order(*final(c)) == if lru_attr_entries(*old(c)).contains_key(ino) {
            demoted(lru_attr_order(*old(c)), ino)
        } else {
            lru_attr_order(*old(c))
        },
{
    c.demote(&ino);
}

/// How many attribute records the cache keeps.
pub const ATTR_CACHE_CAPACITY: usize = 2000;

/// Recently used attribute records, by inode, bounded in number.
pub struct AttrCache {
    cache: LruCache<u64, FileAttr, RandomState>,
}

impl AttrCache {
    /// The records held, by inode.
    pub closed spec fn entries(&self) -> Map<u64, FileAttr> {
        lru_attr_entries(self.cache)
    }

    /// The inodes held, least recently used first.
    pub closed spec fn order(&self) -> Seq<u64> {
        lru_attr_order(self.cache)
    }

    /// The cache's invariant: made with capacity `ATTR_CACHE_CAPACITY`, and
    /// its order lists each record held once. `new` establishes it and
    /// every method keeps it.
    pub closed spec fn wf(self) -> bool {
        &&& lru_attr_cap(self.cache) == ATTR_CACHE_CAPACITY
        &&& lru_consistent(lru_attr_entries(self.cache), lru_attr_order(self.cache), lru_attr_cap(self.cache))
    }

    /// An empty cache.
    pub fn new() -> (r: AttrCache)
        ensures
            r.wf(),
            r.entries().is_empty(),
            r.order().len() == 0,
            lru_consistent(r.entries(), r.order(), ATTR_CACHE_CAPACITY as nat),
    {
        let cache = lru_new(ATTR_CACHE_CAPACITY);
        proof {
            let order = lru_attr_order(cache);
            assert(order =~= Seq::<u64>::empty());
            assert(order.to_set() =~= Set::<u64>::empty());
            assert(lru_attr_entries(cache).dom() =~= Set::<u64>::empty());
        }
        AttrCache { cache }
    }

    /// The record cached for `ino`, if any; a record found becomes the most
    /// recently used.
    pub fn lookup(&mut self, ino: u64) -> (r: Option<FileAttr>)
        requires
            old(self).wf(),
        ensures
            final(self).wf(),
            lru_consistent(final(self).entries(), final(self).order(), ATTR_CACHE_CAPACITY as nat),
            final(self).entries() == old(self).entries(),
            final(self).order() == if old(self).entries().contains_key(ino) {
                touched(old(self).order(), ino)
            } else {
                old(self).order()
            },
            r == if old(self).entries().contains_key(ino) {
                Some(old(self).entries()[ino])
            } else {
                None
            },
    {
        lru_get(&mut self.cache, ino)
    }

    /// Caches `attr` under its inode, as the most recently used record.
    /// While there is room, or the inode is already cached, nothing else
    /// changes; otherwise the least recently used record leaves.
    pub fn store(&mut self, attr: FileAttr)
        requires
            old(self).wf(),
        ensures
            final(self).wf(),
            lru_consistent(final(self).entries(), final(self).order(), ATTR_CACHE_CAPACITY as nat),
            old(self).entries().contains_key(attr.ino) ==> final(self).entries() == old(
                self,
            ).entries().insert(attr.ino, attr) && final(self).order() == touched(
                old(self).order(),
                attr.ino,
            ),
            !old(self).entries().contains_key(attr.ino) && old(self).entries().dom().len()
                < ATTR_CACHE_CAPACITY ==> final(self).entries() == old(self).entries().insert(
                attr.ino,
                attr,
            ) && final(self).order() == old(self).order().push(attr.ino),
            !old(self).entries().contains_key(attr.ino) && old(self).entries().dom().len()
                >= ATTR_CACHE_CAPACITY ==> final(self).entries() == old(self).entries().remove(
                old(self).order()[0],
            ).insert(attr.ino, attr) && final(self).order() == old(self).order().drop_first().push(
                attr.ino,
            ),
    {
        lru_put(&mut self.cache, attr.ino, attr);
    }

    /// Makes the record of `ino` the least recently used, the first to be
    /// evicted; the records held stay.
    pub fn demote(&mut self, ino: u64)
        requires
            old(self).wf(),
        ensures
            final(self).wf(),
            lru_consistent(final(self).entries(), final(self).order(), ATTR_CACHE_CAPACITY as nat),
            final(self).entries() == old(self).entries(),
            final(self).order() == if old(self).entries().contains_key(ino) {
                demoted(old(self).order(), ino)
            } else {
                old(self).order()
            },
            old(self).entries().contains_key(ino) ==> final(self).order()[0] == ino,
    {
        lru_demote(&mut self.cache, ino);
    }
}

} // verus!
