use vstd::prelude::*;
use crate::barrier::{leader_key, leave_step, present, wait_step, waiting_key, waiting_prefix, Arrival};
use crate::codec::{decimal, Codec};
use crate::generic::{loaded, stored};
use crate::mutex::{draw, expand_step, guarded_store_step, holds, lock_key, lock_step, release_step, uuids_key};
use crate::rwlock::{
    intent_key, may_read, reader_key, reader_prefix, reader_step, writer_release_step, writer_step,
};
use crate::set_load::{order_key, set_load_db, set_load_order};
use crate::store::{lapse, num_at, prefixed, text_at, Db};

verus! {

proof fn lemma_prefix_of_sum(p: Seq<char>, x: Seq<char>)
    ensures
        p.is_prefix_of(p + x),
{
    assert((p + x).subrange(0, p.len() as int) =~= p);
}

/// Keys of a set that one key joins or leaves, filtered by a prefix the key lacks, stay the
/// same.
proof fn lemma_prefixed_other(db: Db, p: Seq<char>, x: Seq<char>, r: crate::store::Rec)
    requires
        !p.is_prefix_of(x),
    ensures
        prefixed(db.insert(x, r), p) == prefixed(db, p),
        prefixed(db.remove(x), p) == prefixed(db, p),
{
    assert(prefixed(db.insert(x, r), p) =~= prefixed(db, p));
    assert(prefixed(db.remove(x), p) =~= prefixed(db, p));
}

/// A key that carries a prefix makes the set of keys with that prefix non-empty.
proof fn lemma_prefixed_nonempty(db: Db, p: Seq<char>, x: Seq<char>)
    requires
        db.dom().finite(),
        db.contains_key(x),
        p.is_prefix_of(x),
    ensures
        prefixed(db, p).len() > 0,
{
    db.dom().lemma_len_filter(|k: Seq<char>| p.is_prefix_of(k));
    assert(prefixed(db, p).contains(x));
}

/// The sibling keys differ from one another at the character after the separator.
proof fn lemma_key_shapes(k: Seq<char>, u: u64, w: u64)
    ensures
        !reader_prefix(k).is_prefix_of(lock_key(k)),
        !reader_prefix(k).is_prefix_of(intent_key(k, w)),
        reader_key(k, u) != lock_key(k),
        reader_key(k, u) != k,
        intent_key(k, w) != k,
        intent_key(k, w) != lock_key(k),
        lock_key(k) != k,
        waiting_key(k, u) != leader_key(k),
        order_key(k) != k,
{
    reveal_strlit(":lock");
    reveal_strlit(":reader_locks:");
    reveal_strlit(":writer_waiting_list:");
    reveal_strlit(":waiting:");
    reveal_strlit(":leader");
    reveal_strlit(":order");
    let n = k.len() as int;
    assert(lock_key(k)[n + 1] == 'l');
    assert(reader_prefix(k)[n + 1] == 'r');
    assert(reader_key(k, u)[n + 1] == 'r');
    assert(intent_key(k, w)[n + 1] == 'w');
    assert(waiting_key(k, u)[n + 1] == 'w');
    assert(leader_key(k)[n + 1] == 'l');
    assert(lock_key(k).len() == n + 5);
    assert(order_key(k).len() == n + 6);
    assert(reader_key(k, u).len() > n);
    assert(intent_key(k, w).len() > n);
    if reader_prefix(k).is_prefix_of(lock_key(k)) {
        assert(lock_key(k).subrange(0, reader_prefix(k).len() as int)[n + 1] == 'r');
    }
    if reader_prefix(k).is_prefix_of(intent_key(k, w)) {
        assert(intent_key(k, w).subrange(0, reader_prefix(k).len() as int)[n + 1] == 'r');
    }
}

/// Mutual exclusion of the mutex: while token `u1` holds the lease on `k`, every other token
/// is refused the lock, its guarded writes, its extension and its release, and the server is
/// left as it was. A successful lock step leaves its token holding the lease.
pub proof fn lemma_mutex_exclusive(db: Db, now: u64, k: Seq<char>, u1: u64, u2: u64, text: Seq<char>)
    requires
        holds(db, k, u1),
        u1 != u2,
    ensures
        lock_step(db, now, k, u2) == (db, false),
        guarded_store_step(db, now, k, u2, text) == (db, false),
        expand_step(db, now, k, u2) == (db, false),
        release_step(db, k, u2) == db,
        lock_step(db, now, k, u1).1 && holds(lock_step(db, now, k, u1).0, k, u1),
{
}

/// Whether the read/write lock under `k` is in a consistent state: never a writer's lock
/// together with a reader's lease.
pub open spec fn rw_exclusive(db: Db, k: Seq<char>) -> bool {
    !(db.contains_key(lock_key(k)) && prefixed(db, reader_prefix(k)).len() > 0)
}

/// The lock steps, the release of a writer, a guarded write and the passing of time all keep
/// the read/write lock consistent.
pub proof fn lemma_rw_consistent_kept(db: Db, now: u64, t: u64, k: Seq<char>, u: u64, text: Seq<char>)
    requires
        db.dom().finite(),
        rw_exclusive(db, k),
    ensures
        rw_exclusive(reader_step(db, now, k, u).0, k),
        rw_exclusive(writer_step(db, now, k, u).0, k),
        rw_exclusive(writer_release_step(db, k, u), k),
        rw_exclusive(guarded_store_step(db, now, k, u, text).0, k),
        rw_exclusive(lapse(db, t), k),
{
    lemma_key_shapes(k, u, u);
    let rp = reader_prefix(k);
    let (db1, ok1) = reader_step(db, now, k, u);
    if ok1 {
        assert(!db1.contains_key(lock_key(k)));
    }
    let (db2, ok2) = writer_step(db, now, k, u);
    let with_intent = crate::store::put(db, now, intent_key(k, u), crate::store::Val::Num(1), Some(crate::rwlock::RW_TTL_MS));
    lemma_prefixed_other(db, rp, intent_key(k, u), with_intent[intent_key(k, u)]);
    assert(with_intent == db.insert(intent_key(k, u), with_intent[intent_key(k, u)]));
    if ok2 {
        lemma_prefixed_other(with_intent, rp, lock_key(k), db2[lock_key(k)]);
        assert(db2 == with_intent.insert(lock_key(k), db2[lock_key(k)]));
    }
    let no_intent = db.remove(intent_key(k, u));
    lemma_prefixed_other(db, rp, intent_key(k, u), with_intent[intent_key(k, u)]);
    if holds(no_intent, k, u) {
        lemma_prefixed_other(no_intent, rp, lock_key(k), with_intent[intent_key(k, u)]);
    }
    let (db3, ok3) = guarded_store_step(db, now, k, u, text);
    if ok3 {
        assert(!rp.is_prefix_of(k)) by {
            if rp.is_prefix_of(k) {
                assert(rp.len() <= k.len());
                reveal_strlit(":reader_locks:");
            }
        }
        lemma_prefixed_other(db, rp, k, db3[k]);
        assert(db3 == db.insert(k, db3[k]));
    }
    let l = lapse(db, t);
    assert(prefixed(l, rp).subset_of(prefixed(db, rp)));
    db.dom().lemma_len_filter(|x: Seq<char>| rp.is_prefix_of(x));
    vstd::set_lib::lemma_len_subset(prefixed(l, rp), prefixed(db, rp));
}

/// Readers exclude writers: while a reader's lease is live on a consistent lock, no token's
/// guarded write lands.
pub proof fn lemma_reader_blocks_writes(db: Db, now: u64, k: Seq<char>, r: u64, u: u64, text: Seq<char>)
    requires
        db.dom().finite(),
        rw_exclusive(db, k),
        db.contains_key(reader_key(k, r)),
    ensures
        guarded_store_step(db, now, k, u, text) == (db, false),
        writer_step(db, now, k, u).1 == false,
{
    lemma_prefix_of_sum(reader_prefix(k), decimal(r as int));
    lemma_prefixed_nonempty(db, reader_prefix(k), reader_key(k, r));
    lemma_key_shapes(k, r, u);
    let dbi = crate::store::put(db, now, intent_key(k, u), crate::store::Val::Num(1), Some(crate::rwlock::RW_TTL_MS));
    lemma_prefixed_other(db, reader_prefix(k), intent_key(k, u), dbi[intent_key(k, u)]);
    assert(dbi == db.insert(intent_key(k, u), dbi[intent_key(k, u)]));
}

/// Writers exclude readers: while writer `w` holds a consistent lock, no other token may read
/// or be admitted as a reader; the value a writer stored stays what readers admitted after its
/// release read.
pub proof fn lemma_writer_blocks_reads(db: Db, now: u64, k: Seq<char>, w: u64, r: u64, text: Seq<char>)
    requires
        db.dom().finite(),
        rw_exclusive(db, k),
        holds(db, k, w),
        r != w,
    ensures
        !may_read(db, k, r),
        reader_step(db, now, k, r) == (db, false),
        ({
            let (db1, ok) = guarded_store_step(db, now, k, w, text);
            &&& ok
            &&& text_at(db1, k) == Some(text)
            &&& text_at(writer_release_step(db1, k, w), k) == Some(text)
            &&& text_at(reader_step(writer_release_step(db1, k, w), now, k, r).0, k) == Some(text)
        }),
{
    lemma_key_shapes(k, r, w);
    if db.contains_key(reader_key(k, r)) {
        lemma_prefix_of_sum(reader_prefix(k), decimal(r as int));
        lemma_prefixed_nonempty(db, reader_prefix(k), reader_key(k, r));
    }
}

/// Leader election of the barrier: a party told it leads is the one recorded as leader; once a
/// leader is recorded every other party is told it follows and the record stays; and without a
/// record no party leaves the waiting state before all `n` presences are live at once.
pub proof fn lemma_barrier_one_leader(db: Db, now: u64, k: Seq<char>, u: u64, v: u64, n: nat)
    ensures
        wait_step(db, now, k, u, n).1 == Arrival::Leader ==> num_at(wait_step(db, now, k, u, n).0, leader_key(k))
            == Some(u),
        (num_at(db, leader_key(k)) == Some(v) && u != v) ==> wait_step(db, now, k, u, n).1 == Arrival::Follower
            && num_at(wait_step(db, now, k, u, n).0, leader_key(k)) == Some(v),
        (!db.contains_key(leader_key(k)) && wait_step(db, now, k, u, n).1 != Arrival::Waiting) ==> prefixed(
            present(db, now, k, u),
            waiting_prefix(k),
        ).len() >= n,
{
    lemma_key_shapes(k, u, u);
}

/// Ordering of the set-load register: a write whose ordering number does not exceed the one
/// on the server changes nothing and hears that number back; one that exceeds it lands,
/// value and number together; and the number on the server never goes down.
pub proof fn lemma_set_load_order(db: Db, now: u64, k: Seq<char>, c: u64, text: Seq<char>)
    ensures
        match num_at(db, order_key(k)) {
            Some(o) => {
                &&& c <= o ==> set_load_db(db, now, k, c, text) == db && set_load_order(db, k, c) == o
                &&& o < c ==> text_at(set_load_db(db, now, k, c, text), k) == Some(text) && num_at(
                    set_load_db(db, now, k, c, text),
                    order_key(k),
                ) == Some(c) && set_load_order(db, k, c) == c
                &&& num_at(set_load_db(db, now, k, c, text), order_key(k)) matches Some(o2) && o2 >= o
            },
            None => text_at(set_load_db(db, now, k, c, text), k) == Some(text) && num_at(
                set_load_db(db, now, k, c, text),
                order_key(k),
            ) == Some(c) && set_load_order(db, k, c) == c,
        },
{
    lemma_key_shapes(k, c, c);
}

/// Round trip: a cell that loads the key another cell just stored `v` under caches `v`.
pub proof fn lemma_round_trip<T: Codec>(db: Db, now: u64, k: Seq<char>, v: T::V, cache: Option<T::V>)
    requires
        loaded::<T>(stored::<T>(db, now, k, v), k, cache),
    ensures
        cache == Some(v),
{
    assert(text_at(stored::<T>(db, now, k, v), k) == Some(T::encoding(v)));
}

/// Storing the same value twice leaves the server as storing it once.
pub proof fn lemma_store_idempotent<T: Codec>(db: Db, now: u64, k: Seq<char>, v: T::V)
    ensures
        stored::<T>(stored::<T>(db, now, k, v), now, k, v) == stored::<T>(db, now, k, v),
{
    assert(stored::<T>(stored::<T>(db, now, k, v), now, k, v) =~= stored::<T>(db, now, k, v));
}

/// Reuse of the barrier: when the last party leaves, no presence, no leader record and no
/// token counter remain, so the next party drawn under the key gets token 1.
pub proof fn lemma_barrier_reusable(db: Db, k: Seq<char>, u: u64)
    requires
        prefixed(db.remove(waiting_key(k, u)), waiting_prefix(k)).len() == 0,
    ensures
        !leave_step(db, k, u).contains_key(leader_key(k)),
        !leave_step(db, k, u).contains_key(uuids_key(k)),
        draw(leave_step(db, k, u), uuids_key(k)).1 == Some(1u64),
{
}

} // verus!
