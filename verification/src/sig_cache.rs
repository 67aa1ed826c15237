//! The cache of signature checks: for a transaction hash, the public key that its signature gave,
//! or the fact that it gave none.

use crate::bytes::{opt_view, H256};
use crate::crypto::PUBKEY_BYTES_LEN;
use lru::LruCache;
use vstd::prelude::*;

verus! {

/// The cache type of the `lru` crate.
#[verifier::external_type_specification]
#[verifier::external_body]
#[verifier::reject_recursive_types(K)]
#[verifier::reject_recursive_types(V)]
#[verifier::reject_recursive_types(S)]
pub struct ExLruCache<K, V, S>(LruCache<K, V, S>);

/// The hasher that the `lru` crate uses where none is named.
#[verifier::external_type_specification]
#[verifier::external_body]
pub struct ExDefaultHasher(lru::DefaultHasher);

/// A hash and what is known of the signature under it.
pub type Entry = (Seq<u8>, Option<Seq<u8>>);

/// The entries of a cache, the least recently written first.
pub uninterp spec fn cache_entries(cache: LruCache<H256, Option<Vec<u8>>>) -> Seq<Entry>;

/// The number of entries that a cache was made for.
pub uninterp spec fn cache_capacity(cache: LruCache<H256, Option<Vec<u8>>>) -> nat;

/// What `entries` say of `hash`.
pub open spec fn lookup(entries: Seq<Entry>, hash: Seq<u8>) -> Option<Option<Seq<u8>>>
    decreases entries.len(),
{
    if entries.len() == 0 {
        None
    } else if entries.last().0 == hash {
        Some(entries.last().1)
    } else {
        lookup(entries.drop_last(), hash)
    }
}

/// `entries` without those under `hash`.
pub open spec fn without(entries: Seq<Entry>, hash: Seq<u8>) -> Seq<Entry> {
    entries.filter(|e: Entry| e.0 != hash)
}

/// `entries` after `value` was written under `hash`: the entry becomes the most recent one, and
/// where a new entry finds the cache full the oldest one leaves.
pub open spec fn put(
    entries: Seq<Entry>,
    capacity: nat,
    hash: Seq<u8>,
    value: Option<Seq<u8>>,
) -> Seq<Entry> {
    if lookup(entries, hash) is Some {
        without(entries, hash).push((hash, value))
    } else if capacity == 0 {
        entries
    } else if entries.len() == capacity {
        entries.drop_first().push((hash, value))
    } else {
        entries.push((hash, value))
    }
}

/// `entries` after all of `news` were written, in their order.
pub open spec fn put_all(entries: Seq<Entry>, capacity: nat, news: Seq<Entry>) -> Seq<Entry>
    decreases news.len(),
{
    if news.len() == 0 {
        entries
    } else {
        put(
            put_all(entries, capacity, news.drop_last()),
            capacity,
            news.last().0,
            news.last().1,
        )
    }
}

/// A remembered key, where there is one, has the length of a public key.
pub open spec fn key_fits(value: Option<Seq<u8>>) -> bool {
    value matches Some(key) ==> key.len() == PUBKEY_BYTES_LEN
}

/// No more entries than there is room for, one entry to a hash, and only proper keys.
pub open spec fn entries_well_formed(entries: Seq<Entry>, capacity: nat) -> bool {
    &&& entries.len() <= capacity
    &&& forall|i: int, j: int|
        0 <= i < j < entries.len() ==> (#[trigger] entries[i]).0 != (#[trigger] entries[j]).0
    &&& forall|i: int| 0 <= i < entries.len() ==> key_fits((#[trigger] entries[i]).1)
}

/// Makes a cache with `lru`'s `LruCache::new`.
///
/// Claimed of it: the cache is empty and has room for `capacity` entries. It allocates its table at
/// once, which panics for a capacity that no memory can hold; those capacities are left out.
#[verifier::external_body]
pub(crate) fn cache_new(capacity: usize) -> (cache: LruCache<H256, Option<Vec<u8>>>)
    requires
        capacity <= usize::MAX / 256,
    ensures
        cache_entries(cache) == Seq::<Entry>::empty(),
        cache_capacity(cache) == capacity,
{
    LruCache::new(capacity)
}

/// Looks a hash up with `lru`'s `LruCache::peek`.
///
/// Claimed of it: it gives the value under the hash, if there is one, and leaves the order of the
/// entries as it is.
#[verifier::external_body]
pub(crate) fn cache_peek(cache: &LruCache<H256, Option<Vec<u8>>>, hash: &H256) -> (value: Option<
    Option<Vec<u8>>,
>)
    ensures
        lookup(cache_entries(*cache), hash@) == (match value {
            Some(v) => Some(opt_view(v)),
            None => None,
        }),
{
    cache.peek(hash).cloned()
}

/// Writes an entry with `lru`'s `LruCache::put`.
///
/// Claimed of it: the entry replaces the one under the same hash, or is added, and is then the most
/// recent one; where it is added to a full cache, the oldest entry leaves; and a cache without room
/// stays empty.
#[verifier::external_body]
pub(crate) fn cache_put(
    cache: &mut LruCache<H256, Option<Vec<u8>>>,
    hash: H256,
    value: Option<Vec<u8>>,
)
    ensures
        cache_entries(*final(cache)) == put(
            cache_entries(*old(cache)),
            cache_capacity(*old(cache)),
            hash@,
            opt_view(value),
        ),
        cache_capacity(*final(cache)) == cache_capacity(*old(cache)),
{
    cache.put(hash, value);
}

/// Empties a cache with `lru`'s `LruCache::clear`.
///
/// Claimed of it: no entry is left, and there is as much room as before.
#[verifier::external_body]
pub(crate) fn cache_clear(cache: &mut LruCache<H256, Option<Vec<u8>>>)
    ensures
        cache_entries(*final(cache)) == Seq::<Entry>::empty(),
        cache_capacity(*final(cache)) == cache_capacity(*old(cache)),
{
    cache.clear();
}

/// What is looked up stands in one of the entries.
pub(crate) proof fn lookup_finds_entry(entries: Seq<Entry>, hash: Seq<u8>)
    ensures
        lookup(entries, hash) is Some ==> exists|i: int|
            0 <= i < entries.len() && #[trigger] entries[i] == (hash, lookup(entries, hash)->0),
        lookup(entries, hash) is None ==> forall|i: int|
            0 <= i < entries.len() ==> (#[trigger] entries[i]).0 != hash,
    decreases entries.len(),
{
    if entries.len() > 0 {
        let rest = entries.drop_last();
        lookup_finds_entry(rest, hash);
        if entries.last().0 == hash {
            assert(entries[entries.len() - 1] == (hash, lookup(entries, hash)->0));
        } else if lookup(rest, hash) is Some {
            let i = choose|i: int|
                0 <= i < rest.len() && #[trigger] rest[i] == (hash, lookup(rest, hash)->0);
            assert(entries[i] == (hash, lookup(entries, hash)->0));
        } else {
            assert forall|i: int| 0 <= i < entries.len() implies (#[trigger] entries[i]).0
                != hash by {
                if i < rest.len() {
                    assert(rest[i] == entries[i]);
                }
            }
        }
    }
}

/// What is looked up is a proper key, where all entries are.
pub(crate) proof fn remembered_key_fits(entries: Seq<Entry>, hash: Seq<u8>)
    requires
        forall|i: int| 0 <= i < entries.len() ==> key_fits((#[trigger] entries[i]).1),
    ensures
        lookup(entries, hash) matches Some(value) ==> key_fits(value),
{
    lookup_finds_entry(entries, hash);
    if lookup(entries, hash) is Some {
        let i = choose|i: int|
            0 <= i < entries.len() && #[trigger] entries[i] == (hash, lookup(entries, hash)->0);
        assert(key_fits(entries[i].1));
    }
}

/// Looking up after an entry was added at the end.
pub(crate) proof fn lookup_after_push(entries: Seq<Entry>, entry: Entry, hash: Seq<u8>)
    ensures
        lookup(entries.push(entry), hash) == (if entry.0 == hash {
            Some(entry.1)
        } else {
            lookup(entries, hash)
        }),
{
    assert(entries.push(entry).drop_last() =~= entries);
}

/// Looking up after a hash was taken out.
pub(crate) proof fn lookup_after_removal(entries: Seq<Entry>, removed: Seq<u8>, hash: Seq<u8>)
    ensures
        lookup(without(entries, removed), hash) == (if removed == hash {
            None
        } else {
            lookup(entries, hash)
        }),
    decreases entries.len(),
{
    reveal(Seq::filter);
    if entries.len() > 0 {
        lookup_after_removal(entries.drop_last(), removed, hash);
        lookup_after_push(without(entries.drop_last(), removed), entries.last(), hash);
    }
}

/// Without the first entry, a hash is found as before, or not at all.
pub(crate) proof fn lookup_in_rest(entries: Seq<Entry>, hash: Seq<u8>)
    requires
        entries.len() > 0,
    ensures
        lookup(entries.drop_first(), hash) is None || lookup(entries.drop_first(), hash) == lookup(
            entries,
            hash,
        ),
    decreases entries.len(),
{
    if entries.len() > 1 {
        assert(entries.drop_first().drop_last() =~= entries.drop_last().drop_first());
        lookup_in_rest(entries.drop_last(), hash);
    }
}

/// Taking entries out keeps the rest one to a hash.
pub(crate) proof fn removal_keeps_distinct(entries: Seq<Entry>, capacity: nat, removed: Seq<u8>)
    requires
        entries_well_formed(entries, capacity),
    ensures
        entries_well_formed(without(entries, removed), capacity),
        forall|i: int|
            0 <= i < without(entries, removed).len() ==> (
            #[trigger] without(entries, removed)[i]).0 != removed
                && entries.contains(without(entries, removed)[i]),
        (exists|i: int| 0 <= i < entries.len() && (#[trigger] entries[i]).0 == removed)
            ==> without(entries, removed).len() < entries.len(),
        without(entries, removed).len() <= entries.len(),
    decreases entries.len(),
{
    reveal(Seq::filter);
    if entries.len() > 0 {
        let init = entries.drop_last();
        removal_keeps_distinct(init, capacity, removed);
        let rest = without(init, removed);
        let all = without(entries, removed);
        let last = entries.last();
        assert(all == if last.0 != removed {
            rest.push(last)
        } else {
            rest
        });
        assert forall|i: int| 0 <= i < all.len() implies (#[trigger] all[i]).0 != removed
            && entries.contains(all[i]) by {
            if i < rest.len() {
                assert(all[i] == rest[i]);
                let k = choose|k: int| 0 <= k < init.len() && init[k] == rest[i];
                assert(entries[k] == all[i]);
            } else {
                assert(entries[entries.len() - 1] == all[i]);
            }
        }
        assert forall|i: int, j: int| 0 <= i < j < all.len() implies (#[trigger] all[i]).0 != (
        #[trigger] all[j]).0 by {
            if j == rest.len() {
                assert(all[i] == rest[i]);
                let k = choose|k: int| 0 <= k < init.len() && init[k] == rest[i];
                assert(entries[k].0 != entries[entries.len() - 1].0);
            } else {
                assert(all[i] == rest[i] && all[j] == rest[j]);
            }
        }
        assert forall|i: int| 0 <= i < all.len() implies key_fits((#[trigger] all[i]).1) by {
            let k = choose|k: int| 0 <= k < entries.len() && entries[k] == all[i];
            assert(key_fits(entries[k].1));
        }
        if exists|i: int| 0 <= i < entries.len() && (#[trigger] entries[i]).0 == removed {
            let i = choose|i: int| 0 <= i < entries.len() && (#[trigger] entries[i]).0 == removed;
            if last.0 != removed {
                assert(init[i] == entries[i]);
            }
        }
    }
}

/// Writing keeps the cache well formed: it never outgrows its room and never holds a hash twice.
pub proof fn put_keeps_well_formed(
    entries: Seq<Entry>,
    capacity: nat,
    hash: Seq<u8>,
    value: Option<Seq<u8>>,
)
    requires
        entries_well_formed(entries, capacity),
        key_fits(value),
    ensures
        entries_well_formed(put(entries, capacity, hash, value), capacity),
{
    lookup_finds_entry(entries, hash);
    if lookup(entries, hash) is Some {
        removal_keeps_distinct(entries, capacity, hash);
    }
}

/// Writing several entries keeps the cache well formed.
pub proof fn put_all_keeps_well_formed(entries: Seq<Entry>, capacity: nat, news: Seq<Entry>)
    requires
        entries_well_formed(entries, capacity),
        forall|i: int| 0 <= i < news.len() ==> key_fits((#[trigger] news[i]).1),
    ensures
        entries_well_formed(put_all(entries, capacity, news), capacity),
    decreases news.len(),
{
    if news.len() > 0 {
        let before = news.drop_last();
        assert forall|i: int| 0 <= i < before.len() implies key_fits((#[trigger] before[i]).1) by {
            assert(before[i] == news[i]);
        }
        put_all_keeps_well_formed(entries, capacity, before);
        assert(key_fits(news[news.len() - 1].1));
        put_keeps_well_formed(
            put_all(entries, capacity, before),
            capacity,
            news.last().0,
            news.last().1,
        );
    }
}

/// What was written last under a hash is what is found there.
pub proof fn put_is_found(
    entries: Seq<Entry>,
    capacity: nat,
    hash: Seq<u8>,
    value: Option<Seq<u8>>,
)
    requires
        capacity > 0,
    ensures
        lookup(put(entries, capacity, hash, value), hash) == Some(value),
{
    let after = put(entries, capacity, hash, value);
    assert(after.last() == (hash, value));
}

/// Writing under one hash leaves every other hash as it was, except that the oldest entry of a full
/// cache makes room for a new one.
pub proof fn put_leaves_others(
    entries: Seq<Entry>,
    capacity: nat,
    hash: Seq<u8>,
    value: Option<Seq<u8>>,
    other: Seq<u8>,
)
    requires
        other != hash,
        !(lookup(entries, hash) is None && entries.len() == capacity && capacity > 0
            && entries.first().0 == other),
    ensures
        lookup(put(entries, capacity, hash, value), other) == lookup(entries, other),
{
    if lookup(entries, hash) is Some {
        lookup_after_removal(entries, hash, other);
        lookup_after_push(without(entries, hash), (hash, value), other);
    } else if capacity > 0 {
        if entries.len() == capacity {
            lookup_after_push(entries.drop_first(), (hash, value), other);
            lookup_without_first(entries, other);
        } else {
            lookup_after_push(entries, (hash, value), other);
        }
    }
}

/// The first entry does not matter for a hash that is not its own.
proof fn lookup_without_first(entries: Seq<Entry>, hash: Seq<u8>)
    requires
        entries.len() > 0,
        entries.first().0 != hash,
    ensures
        lookup(entries.drop_first(), hash) == lookup(entries, hash),
    decreases entries.len(),
{
    if entries.len() > 1 {
        assert(entries.drop_first().drop_last() =~= entries.drop_last().drop_first());
        lookup_without_first(entries.drop_last(), hash);
    } else {
        assert(entries.drop_last() =~= Seq::<Entry>::empty());
        assert(entries.drop_first() =~= Seq::<Entry>::empty());
    }
}

} // verus!
