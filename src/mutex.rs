use vstd::prelude::*;
use crate::codec::Codec;
use crate::generic::{loaded, Generic};
use crate::store::{deadline, lapse, num_at, put, text_at, Db, Rec, Server, Val};

verus! {

/// Lease of a mutex holder, in ms.
pub const LEASE_MS: u64 = 1000;

/// Lease after the one extension a guard may take, in ms.
pub const EXPAND_MS: u64 = 2000;

/// Why a lock operation failed.
#[derive(Debug, PartialEq, Eq, Structural)]
pub enum LockError {
    /// The lock could not be taken.
    LockFailed,
    /// The lease had already ended when the guard was released.
    UnlockFailed,
    /// The lease of this token has ended: the guarded operation was refused.
    LockExpired(u64),
    /// The guarded value is absent.
    NotFound,
    /// The guarded value does not read back.
    Serialization,
}

/// Key of the holder's token.
pub open spec fn lock_key(k: Seq<char>) -> Seq<char> {
    k + ":lock"@
}

/// Key of the token counter.
pub open spec fn uuids_key(k: Seq<char>) -> Seq<char> {
    k + ":uuids"@
}

/// Token `u` holds the lease on `k`.
pub open spec fn holds(db: Db, k: Seq<char>, u: u64) -> bool {
    num_at(db, lock_key(k)) == Some(u)
}

/// The lock step: `u` takes (or renews) the lease where it is free or already its own.
pub open spec fn lock_step(db: Db, now: u64, k: Seq<char>, u: u64) -> (Db, bool) {
    if !db.contains_key(lock_key(k)) || holds(db, k, u) {
        (put(db, now, lock_key(k), Val::Num(u), Some(LEASE_MS)), true)
    } else {
        (db, false)
    }
}

/// The guarded store step: the text is written only while `u` holds the lease.
pub open spec fn guarded_store_step(db: Db, now: u64, k: Seq<char>, u: u64, text: Seq<char>) -> (Db, bool) {
    if holds(db, k, u) {
        (put(db, now, k, Val::Text(text), None), true)
    } else {
        (db, false)
    }
}

/// The release step: the lease is deleted only where `u` still holds it.
pub open spec fn release_step(db: Db, k: Seq<char>, u: u64) -> Db {
    if holds(db, k, u) {
        db.remove(lock_key(k))
    } else {
        db
    }
}

/// The extension step: a lease still held by `u` runs for `EXPAND_MS` from now.
pub open spec fn expand_step(db: Db, now: u64, k: Seq<char>, u: u64) -> (Db, bool) {
    if holds(db, k, u) {
        (
            db.insert(lock_key(k), Rec { val: Val::Num(u), expires: Some(deadline(now, EXPAND_MS)) }),
            true,
        )
    } else {
        (db, false)
    }
}

/// Runs the lock step on the server.
pub fn lock_script(srv: &mut Server, k: &String, u: u64) -> (r: bool)
    requires
        old(srv).wf(),
    ensures
        final(srv).wf(),
        final(srv).clock() == old(srv).clock(),
        (final(srv).data(), r) == lock_step(old(srv).data(), old(srv).clock(), k@, u),
{
    let lk = crate::codec::sub_key(k, ":lock");
    let free = !srv.contains(&lk);
    let own = srv.get_num(&lk) == Some(u);
    if free || own {
        srv.set_num(&lk, u, Some(LEASE_MS));
        true
    } else {
        false
    }
}

/// Runs the guarded store step on the server.
pub fn guarded_store_script(srv: &mut Server, k: &String, u: u64, text: String) -> (r: bool)
    requires
        old(srv).wf(),
    ensures
        final(srv).wf(),
        final(srv).clock() == old(srv).clock(),
        (final(srv).data(), r) == guarded_store_step(old(srv).data(), old(srv).clock(), k@, u, text@),
{
    let lk = crate::codec::sub_key(k, ":lock");
    if srv.get_num(&lk) == Some(u) {
        srv.set_text(k, text, None);
        true
    } else {
        false
    }
}

/// Runs the release step on the server; returns whether `u` still held the lease.
pub fn release_script(srv: &mut Server, k: &String, u: u64) -> (r: bool)
    requires
        old(srv).wf(),
    ensures
        final(srv).wf(),
        final(srv).clock() == old(srv).clock(),
        r == holds(old(srv).data(), k@, u),
        final(srv).data() == release_step(old(srv).data(), k@, u),
{
    let lk = crate::codec::sub_key(k, ":lock");
    if srv.get_num(&lk) == Some(u) {
        srv.del(&lk);
        true
    } else {
        false
    }
}

/// Runs the extension step on the server.
pub fn expand_script(srv: &mut Server, k: &String, u: u64) -> (r: bool)
    requires
        old(srv).wf(),
    ensures
        final(srv).wf(),
        final(srv).clock() == old(srv).clock(),
        (final(srv).data(), r) == expand_step(old(srv).data(), old(srv).clock(), k@, u),
{
    let lk = crate::codec::sub_key(k, ":lock");
    if srv.get_num(&lk) == Some(u) {
        srv.expire(&lk, EXPAND_MS)
    } else {
        false
    }
}

/// Drawing a token from the counter under `c`: one more than the last one drawn (the first is
/// 1); `None` where `c` holds no number or the counter is spent.
pub open spec fn draw(db: Db, c: Seq<char>) -> (Db, Option<u64>) {
    if !db.contains_key(c) {
        (db.insert(c, Rec { val: Val::Num(1), expires: None }), Some(1u64))
    } else {
        match db[c].val {
            Val::Num(n) => if n < u64::MAX {
                (db.insert(c, Rec { val: Val::Num((n + 1) as u64), expires: db[c].expires }), Some((n + 1) as u64))
            } else {
                (db, None)
            },
            _ => (db, None),
        }
    }
}

/// Draws a fresh token from the counter under `counter`.
pub fn next_token(srv: &mut Server, counter: &String) -> (r: Option<u64>)
    requires
        old(srv).wf(),
    ensures
        final(srv).wf(),
        final(srv).clock() == old(srv).clock(),
        (final(srv).data(), r) == draw(old(srv).data(), counter@),
{
    srv.incr(counter)
}

/// A lock on a cell, held through a lease on the server so that every process naming the key
/// sees one holder at a time.
pub struct Mutex<T> {
    data: Generic<T>,
    uuid: u64,
}

impl<T: Codec> Mutex<T> {
    /// The fencing token of this handle.
    pub closed spec fn token(&self) -> u64 {
        self.uuid
    }

    /// The cell it guards.
    pub closed spec fn cell(&self) -> Generic<T> {
        self.data
    }

    /// Wraps `data`, drawing a fresh token from the key's token counter; `LockFailed` where
    /// no token can be drawn.
    pub fn new(data: Generic<T>, srv: &mut Server) -> (r: Result<Mutex<T>, LockError>)
        requires
            old(srv).wf(),
        ensures
            final(srv).wf(),
            final(srv).clock() == old(srv).clock(),
            ({
                let (db, t) = draw(old(srv).data(), uuids_key(data.key()));
                &&& final(srv).data() == db
                &&& t matches Some(u) ==> (r matches Ok(m) && m.token() == u && m.cell() == data)
                &&& t is None ==> r == Err::<Mutex<T>, LockError>(LockError::LockFailed)
            }),
    {
        let counter = data.sibling(":uuids");
        match next_token(srv, &counter) {
            Some(uuid) => Ok(Mutex { data, uuid }),
            None => Err(LockError::LockFailed),
        }
    }

    /// Takes the lease. Where another token holds it, waits out the longest lease
    /// (`EXPAND_MS`) once and tries again; `LockFailed` where it is still held.
    pub fn lock(&mut self, srv: &mut Server) -> (r: Result<Guard<'_, T>, LockError>)
        requires
            old(srv).wf(),
        ensures
            final(srv).wf(),
            ({
                let (db1, ok1) = lock_step(old(srv).data(), old(srv).clock(), old(self).cell().key(), old(self).token());
                if ok1 {
                    final(srv).clock() == old(srv).clock() && final(srv).data() == db1 && r is Ok
                } else if old(srv).clock() + EXPAND_MS < u64::MAX {
                    let t = (old(srv).clock() + EXPAND_MS) as u64;
                    let (db2, ok2) = lock_step(lapse(old(srv).data(), t), t, old(self).cell().key(), old(self).token());
                    final(srv).clock() == t && final(srv).data() == db2 && (r is Ok <==> ok2)
                } else {
                    final(srv).clock() == old(srv).clock() && final(srv).data() == old(srv).data() && r is Err
                }
            }),
            r matches Ok(g) ==> g.token() == old(self).token() && g.key() == old(self).cell().key() && !g.expanded(),
            r matches Err(e) ==> e == LockError::LockFailed,
    {
        if lock_script(srv, self.data.key_name(), self.uuid) {
            return Ok(Guard { lock: self, expanded: false });
        }
        if srv.now() >= u64::MAX - EXPAND_MS {
            return Err(LockError::LockFailed);
        }
        srv.advance(EXPAND_MS);
        if lock_script(srv, self.data.key_name(), self.uuid) {
            Ok(Guard { lock: self, expanded: false })
        } else {
            Err(LockError::LockFailed)
        }
    }

    /// The guarded cell.
    pub fn data(&self) -> (r: &Generic<T>)
        ensures
            *r == self.cell(),
    {
        &self.data
    }
}

/// Access to a locked cell. Every read and write checks on the server that this token still
/// holds the lease.
pub struct Guard<'a, T> {
    lock: &'a mut Mutex<T>,
    expanded: bool,
}

impl<'a, T: Codec> Guard<'a, T> {
    pub closed spec fn token(&self) -> u64 {
        self.lock.uuid
    }

    pub closed spec fn key(&self) -> Seq<char> {
        self.lock.data.key()
    }

    /// The cache of the guarded cell.
    pub closed spec fn cache(&self) -> Option<T::V> {
        self.lock.data.cache()
    }

    /// Whether the lease has been extended already.
    pub closed spec fn expanded(&self) -> bool {
        self.expanded
    }

    /// Extends the lease to `EXPAND_MS` from now, once per guard and only while this token
    /// holds it; returns whether it was extended.
    pub fn expand(&mut self, srv: &mut Server) -> (r: bool)
        requires
            old(srv).wf(),
        ensures
            final(srv).wf(),
            final(srv).clock() == old(srv).clock(),
            final(self).token() == old(self).token(),
            final(self).key() == old(self).key(),
            final(self).cache() == old(self).cache(),
            old(self).expanded() ==> !r && final(srv).data() == old(srv).data() && final(self).expanded(),
            !old(self).expanded() ==> (final(srv).data(), r) == expand_step(
                old(srv).data(),
                old(srv).clock(),
                old(self).key(),
                old(self).token(),
            ) && final(self).expanded() == r,
    {
        if self.expanded {
            return false;
        }
        let done = expand_script(srv, self.lock.data.key_name(), self.lock.uuid);
        self.expanded = done;
        done
    }

    /// Writes `value` while this token holds the lease; `LockExpired` (nothing written)
    /// otherwise.
    pub fn store(&mut self, value: T, srv: &mut Server) -> (r: Result<(), LockError>)
        requires
            old(srv).wf(),
        ensures
            final(srv).wf(),
            final(srv).clock() == old(srv).clock(),
            final(self).token() == old(self).token(),
            final(self).key() == old(self).key(),
            final(self).expanded() == old(self).expanded(),
            ({
                let (db, ok) = guarded_store_step(
                    old(srv).data(),
                    old(srv).clock(),
                    old(self).key(),
                    old(self).token(),
                    T::encoding(value@),
                );
                final(srv).data() == db && (ok ==> r is Ok && final(self).cache() == Some(value@)) && (!ok
                    ==> r == Err::<(), LockError>(LockError::LockExpired(old(self).token()))
                    && final(self).cache() == old(self).cache())
            }),
    {
        let text = value.encode();
        if guarded_store_script(srv, self.lock.data.key_name(), self.lock.uuid, text) {
            self.lock.data.set_cache(Some(value));
            Ok(())
        } else {
            Err(LockError::LockExpired(self.lock.uuid))
        }
    }

    /// Reads the value while this token holds the lease and caches it. `LockExpired` where
    /// the lease has ended (cache kept), `NotFound` where the key holds no text,
    /// `Serialization` where it does not read back (cache emptied).
    pub fn acquire(&mut self, srv: &Server) -> (r: Result<&T, LockError>)
        requires
            srv.wf(),
        ensures
            final(self).token() == old(self).token(),
            final(self).key() == old(self).key(),
            final(self).expanded() == old(self).expanded(),
            !holds(srv.data(), old(self).key(), old(self).token()) ==> r == Err::<&T, LockError>(
                LockError::LockExpired(old(self).token()),
            ) && final(self).cache() == old(self).cache(),
            holds(srv.data(), old(self).key(), old(self).token()) ==> {
                &&& loaded::<T>(srv.data(), old(self).key(), final(self).cache())
                &&& text_at(srv.data(), old(self).key()) is None ==> r == Err::<&T, LockError>(LockError::NotFound)
                &&& r matches Ok(x) ==> final(self).cache() == Some(x@)
                &&& r is Err ==> final(self).cache() is None
                &&& r is Err ==> r == Err::<&T, LockError>(LockError::NotFound) || r == Err::<&T, LockError>(
                    LockError::Serialization,
                )
            },
    {
        let lk = self.lock.data.sibling(":lock");
        if srv.get_num(&lk) != Some(self.lock.uuid) {
            return Err(LockError::LockExpired(self.lock.uuid));
        }
        match self.lock.data.acquire(srv) {
            Ok(x) => Ok(x),
            Err(crate::generic::CellError::NotFound) => Err(LockError::NotFound),
            Err(crate::generic::CellError::Serialization) => Err(LockError::Serialization),
        }
    }

    /// The cached value of the guarded cell.
    pub fn cached(&self) -> (r: Option<&T>)
        ensures
            match r {
                Some(x) => self.cache() == Some(x@),
                None => self.cache() is None,
            },
    {
        self.lock.data.cached()
    }

    /// Gives the lease back where this token still holds it; `UnlockFailed` where it had
    /// already ended.
    pub fn release(self, srv: &mut Server) -> (r: Result<(), LockError>)
        requires
            old(srv).wf(),
        ensures
            final(srv).wf(),
            final(srv).clock() == old(srv).clock(),
            final(srv).data() == release_step(old(srv).data(), self.key(), self.token()),
            r is Ok <==> holds(old(srv).data(), self.key(), self.token()),
            r is Err ==> r == Err::<(), LockError>(LockError::UnlockFailed),
    {
        if release_script(srv, self.lock.data.key_name(), self.lock.uuid) {
            Ok(())
        } else {
            Err(LockError::UnlockFailed)
        }
    }
}

} // verus!
