use vstd::prelude::*;
use crate::codec::{decimal, numbered_key, sub_key, Codec};
use crate::generic::{loaded, Generic};
use crate::mutex::{draw, guarded_store_script, guarded_store_step, holds, lock_key, next_token, LockError};
use crate::store::{lapse, num_at, prefixed, put, text_at, Db, Server, Val};

verus! {

/// Lease of a reader, of a writer and of a writer's intent, in ms.
pub const RW_TTL_MS: u64 = 2000;

/// Why a read or write lock could not be had or given back.
#[derive(Debug, PartialEq, Eq, Structural)]
pub enum RwLockError {
    /// A writer holds the lock.
    WriterAlreadyLocked,
    /// Readers hold the lock, or a writer waits for it.
    StillReader,
    /// The lease had already ended when the guard was released.
    LockNotDroppable,
    /// No token could be drawn.
    LockFailed,
}

/// Key of the token counter.
pub open spec fn counter_key(k: Seq<char>) -> Seq<char> {
    k + ":lock_counter"@
}

/// Prefix of the readers' presence keys.
pub open spec fn reader_prefix(k: Seq<char>) -> Seq<char> {
    k + ":reader_locks:"@
}

/// Presence key of reader `u`.
pub open spec fn reader_key(k: Seq<char>, u: u64) -> Seq<char> {
    reader_prefix(k) + decimal(u as int)
}

/// Prefix of the writers' intent keys.
pub open spec fn intent_prefix(k: Seq<char>) -> Seq<char> {
    k + ":writer_waiting_list:"@
}

/// Intent key of writer `u`.
pub open spec fn intent_key(k: Seq<char>, u: u64) -> Seq<char> {
    intent_prefix(k) + decimal(u as int)
}

/// The read-lock step: a reader is admitted only where no writer holds the lock and none
/// has announced that it waits.
pub open spec fn reader_step(db: Db, now: u64, k: Seq<char>, u: u64) -> (Db, bool) {
    if db.contains_key(lock_key(k)) || prefixed(db, intent_prefix(k)).len() > 0 {
        (db, false)
    } else {
        (put(db, now, reader_key(k, u), Val::Num(1), Some(RW_TTL_MS)), true)
    }
}

/// The write-lock step: the writer announces its intent at once, then takes the lock where
/// neither a writer nor any reader holds it.
pub open spec fn writer_step(db: Db, now: u64, k: Seq<char>, u: u64) -> (Db, bool) {
    let db1 = put(db, now, intent_key(k, u), Val::Num(1), Some(RW_TTL_MS));
    if db1.contains_key(lock_key(k)) || prefixed(db1, reader_prefix(k)).len() > 0 {
        (db1, false)
    } else {
        (put(db1, now, lock_key(k), Val::Num(u), Some(RW_TTL_MS)), true)
    }
}

/// The writer's release step: its intent goes, and the lock where it still holds it.
pub open spec fn writer_release_step(db: Db, k: Seq<char>, u: u64) -> Db {
    let db1 = db.remove(intent_key(k, u));
    if holds(db1, k, u) {
        db1.remove(lock_key(k))
    } else {
        db1
    }
}

/// Token `u` may read: it holds the write lock or a live read lease.
pub open spec fn may_read(db: Db, k: Seq<char>, u: u64) -> bool {
    holds(db, k, u) || db.contains_key(reader_key(k, u))
}

/// Runs the read-lock step.
pub fn reader_script(srv: &mut Server, k: &String, u: u64) -> (r: bool)
    requires
        old(srv).wf(),
    ensures
        final(srv).wf(),
        final(srv).clock() == old(srv).clock(),
        (final(srv).data(), r) == reader_step(old(srv).data(), old(srv).clock(), k@, u),
{
    let lk = sub_key(k, ":lock");
    let ip = sub_key(k, ":writer_waiting_list:");
    if srv.contains(&lk) || srv.count_prefixed(&ip) > 0 {
        return false;
    }
    let mine = numbered_key(k, ":reader_locks:", u);
    srv.set_num(&mine, 1, Some(RW_TTL_MS));
    true
}

/// Runs the write-lock step.
pub fn writer_script(srv: &mut Server, k: &String, u: u64) -> (r: bool)
    requires
        old(srv).wf(),
    ensures
        final(srv).wf(),
        final(srv).clock() == old(srv).clock(),
        (final(srv).data(), r) == writer_step(old(srv).data(), old(srv).clock(), k@, u),
{
    let intent = numbered_key(k, ":writer_waiting_list:", u);
    srv.set_num(&intent, 1, Some(RW_TTL_MS));
    let lk = sub_key(k, ":lock");
    let rp = sub_key(k, ":reader_locks:");
    if srv.contains(&lk) || srv.count_prefixed(&rp) > 0 {
        return false;
    }
    srv.set_num(&lk, u, Some(RW_TTL_MS));
    true
}

/// Runs the reader's release step; returns whether its lease was still live.
pub fn reader_release_script(srv: &mut Server, k: &String, u: u64) -> (r: bool)
    requires
        old(srv).wf(),
    ensures
        final(srv).wf(),
        final(srv).clock() == old(srv).clock(),
        r == old(srv).data().contains_key(reader_key(k@, u)),
        final(srv).data() == old(srv).data().remove(reader_key(k@, u)),
{
    let mine = numbered_key(k, ":reader_locks:", u);
    srv.del(&mine)
}

/// Runs the writer's release step; returns whether it still held the lock.
pub fn writer_release_script(srv: &mut Server, k: &String, u: u64) -> (r: bool)
    requires
        old(srv).wf(),
    ensures
        final(srv).wf(),
        final(srv).clock() == old(srv).clock(),
        r == holds(old(srv).data().remove(intent_key(k@, u)), k@, u),
        final(srv).data() == writer_release_step(old(srv).data(), k@, u),
{
    let intent = numbered_key(k, ":writer_waiting_list:", u);
    srv.del(&intent);
    let lk = sub_key(k, ":lock");
    if srv.get_num(&lk) == Some(u) {
        srv.del(&lk);
        true
    } else {
        false
    }
}

/// The value under `k` where `u` may read, `None` where it may not.
pub fn guarded_load_script(srv: &Server, k: &String, u: u64) -> (r: Option<Option<String>>)
    requires
        srv.wf(),
    ensures
        !may_read(srv.data(), k@, u) ==> r is None,
        may_read(srv.data(), k@, u) ==> (r matches Some(t) && match t {
            Some(s) => text_at(srv.data(), k@) == Some(s@),
            None => text_at(srv.data(), k@) is None,
        }),
{
    let lk = sub_key(k, ":lock");
    let mine = numbered_key(k, ":reader_locks:", u);
    if srv.get_num(&lk) == Some(u) || srv.contains(&mine) {
        Some(srv.get_text(k))
    } else {
        None
    }
}

/// A lock attempt that may wait out the leases once: the step on `db` at `now`, and where it
/// fails, the same step once `RW_TTL_MS` have passed. Gives the server, the clock and whether
/// the lock was had.
pub open spec fn one_wait(step: spec_fn(Db, u64) -> (Db, bool), db: Db, now: u64) -> (Db, u64, bool) {
    let (db1, ok1) = step(db, now);
    if ok1 {
        (db1, now, true)
    } else if now + RW_TTL_MS < u64::MAX {
        let t = (now + RW_TTL_MS) as u64;
        let (db2, ok2) = step(lapse(db1, t), t);
        (db2, t, ok2)
    } else {
        (db1, now, false)
    }
}

/// A read/write lock on a cell: many readers or one writer at a time, with writers
/// announcing themselves so that no new reader slips in ahead of them.
pub struct RwLock<T> {
    data: Generic<T>,
}

impl<T: Codec> RwLock<T> {
    pub closed spec fn cell(&self) -> Generic<T> {
        self.data
    }

    /// Wraps `data`.
    pub fn new(data: Generic<T>) -> (r: RwLock<T>)
        ensures
            r.cell() == data,
    {
        RwLock { data }
    }

    /// The guarded cell.
    pub fn data(&self) -> (r: &Generic<T>)
        ensures
            *r == self.cell(),
    {
        &self.data
    }

    /// Draws a token from the key's lock counter.
    pub fn generate_uuid(&self, srv: &mut Server) -> (r: Option<u64>)
        requires
            old(srv).wf(),
        ensures
            final(srv).wf(),
            final(srv).clock() == old(srv).clock(),
            (final(srv).data(), r) == draw(old(srv).data(), counter_key(self.cell().key())),
    {
        let counter = self.data.sibling(":lock_counter");
        next_token(srv, &counter)
    }

    /// Runs the read-lock step (or the write-lock step) for `u`; where it fails, waits out
    /// the leases once and runs it again.
    pub fn acquire_via_script(&self, srv: &mut Server, u: u64, writer: bool) -> (r: bool)
        requires
            old(srv).wf(),
        ensures
            final(srv).wf(),
            (final(srv).data(), final(srv).clock(), r) == one_wait(
                |db: Db, now: u64|
                    if writer {
                        writer_step(db, now, self.cell().key(), u)
                    } else {
                        reader_step(db, now, self.cell().key(), u)
                    },
                old(srv).data(),
                old(srv).clock(),
            ),
    {
        let k = self.data.key_name();
        let first = if writer {
            writer_script(srv, k, u)
        } else {
            reader_script(srv, k, u)
        };
        if first {
            return true;
        }
        if srv.now() >= u64::MAX - RW_TTL_MS {
            return false;
        }
        srv.advance(RW_TTL_MS);
        if writer {
            writer_script(srv, k, u)
        } else {
            reader_script(srv, k, u)
        }
    }

    /// Takes a read lease; waits out the leases once where a writer holds or wants the lock.
    /// `WriterAlreadyLocked` where one still does, `LockFailed` where no token can be drawn.
    pub fn read(&self, srv: &mut Server) -> (r: Result<RwLockReadGuard<'_, T>, RwLockError>)
        requires
            old(srv).wf(),
        ensures
            final(srv).wf(),
            ({
                let (db0, t) = draw(old(srv).data(), counter_key(self.cell().key()));
                &&& t is None ==> final(srv).data() == db0 && final(srv).clock() == old(srv).clock()
                    && r == Err::<RwLockReadGuard<'_, T>, RwLockError>(RwLockError::LockFailed)
                &&& t matches Some(u) ==> (final(srv).data(), final(srv).clock(), r is Ok) == one_wait(
                    |db: Db, now: u64| reader_step(db, now, self.cell().key(), u),
                    db0,
                    old(srv).clock(),
                )
                &&& r matches Ok(g) ==> t == Some(g.token()) && g.key() == self.cell().key() && g.cache() is None
                &&& (t is Some && r is Err) ==> r == Err::<RwLockReadGuard<'_, T>, RwLockError>(
                    RwLockError::WriterAlreadyLocked,
                )
            }),
    {
        let u = match self.generate_uuid(srv) {
            Some(u) => u,
            None => {
                return Err(RwLockError::LockFailed);
            },
        };
        if self.acquire_via_script(srv, u, false) {
            Ok(RwLockReadGuard { lock: self, uuid: u, cache: None })
        } else {
            Err(RwLockError::WriterAlreadyLocked)
        }
    }

    /// Takes the write lock; waits out the leases once where readers or another writer hold
    /// it. Where it still cannot, withdraws its intent and reports who holds the lock:
    /// `WriterAlreadyLocked` or `StillReader`. `LockFailed` where no token can be drawn.
    pub fn write(&mut self, srv: &mut Server) -> (r: Result<RwLockWriteGuard<'_, T>, RwLockError>)
        requires
            old(srv).wf(),
        ensures
            final(srv).wf(),
            ({
                let (db0, t) = draw(old(srv).data(), counter_key(old(self).cell().key()));
                &&& t is None ==> final(srv).data() == db0 && final(srv).clock() == old(srv).clock()
                    && r == Err::<RwLockWriteGuard<'_, T>, RwLockError>(RwLockError::LockFailed)
                &&& t matches Some(u) ==> {
                    let (db, now, ok) = one_wait(
                        |d: Db, now: u64| writer_step(d, now, old(self).cell().key(), u),
                        db0,
                        old(srv).clock(),
                    );
                    &&& final(srv).clock() == now
                    &&& ok ==> r is Ok && final(srv).data() == db
                    &&& !ok ==> r is Err && final(srv).data() == db.remove(intent_key(old(self).cell().key(), u))
                    &&& !ok ==> (r == Err::<RwLockWriteGuard<'_, T>, RwLockError>(RwLockError::WriterAlreadyLocked)
                        <==> db.contains_key(lock_key(old(self).cell().key())))
                    &&& !ok ==> (r == Err::<RwLockWriteGuard<'_, T>, RwLockError>(RwLockError::WriterAlreadyLocked)
                        || r == Err::<RwLockWriteGuard<'_, T>, RwLockError>(RwLockError::StillReader))
                }
                &&& r matches Ok(g) ==> t == Some(g.token()) && g.key() == old(self).cell().key()
            }),
    {
        let u = match self.generate_uuid(srv) {
            Some(u) => u,
            None => {
                return Err(RwLockError::LockFailed);
            },
        };
        if self.acquire_via_script(srv, u, true) {
            Ok(RwLockWriteGuard { lock: self, uuid: u })
        } else {
            let lk = self.data.sibling(":lock");
            let held = srv.contains(&lk);
            let intent = numbered_key(self.data.key_name(), ":writer_waiting_list:", u);
            srv.del(&intent);
            if held {
                Err(RwLockError::WriterAlreadyLocked)
            } else {
                Err(RwLockError::StillReader)
            }
        }
    }
}

/// Reads `k` on behalf of token `u` and decodes it.
fn guarded_load<T: Codec>(srv: &Server, k: &String, u: u64) -> (r: Result<Option<T>, LockError>)
    requires
        srv.wf(),
    ensures
        !may_read(srv.data(), k@, u) ==> r == Err::<Option<T>, LockError>(LockError::LockExpired(u)),
        may_read(srv.data(), k@, u) ==> (r matches Ok(c) && loaded::<T>(
            srv.data(),
            k@,
            match c {
                Some(x) => Some(x@),
                None => None,
            },
        ) && (text_at(srv.data(), k@) is None ==> c is None)),
{
    match guarded_load_script(srv, k, u) {
        None => Err(LockError::LockExpired(u)),
        Some(None) => Ok(None),
        Some(Some(text)) => Ok(T::decode(&text)),
    }
}

/// A read lease on a lock, with a cache of its own.
pub struct RwLockReadGuard<'a, T> {
    lock: &'a RwLock<T>,
    uuid: u64,
    cache: Option<T>,
}

impl<'a, T: Codec> RwLockReadGuard<'a, T> {
    pub closed spec fn token(&self) -> u64 {
        self.uuid
    }

    pub closed spec fn key(&self) -> Seq<char> {
        self.lock.data.key()
    }

    pub closed spec fn cache(&self) -> Option<T::V> {
        match self.cache {
            Some(x) => Some(x@),
            None => None,
        }
    }

    /// Reads the value while this reader's lease (or the write lock) is live, and caches it.
    /// `LockExpired` where neither is (cache kept), `NotFound` where the key holds no text,
    /// `Serialization` where it does not read back (cache emptied).
    pub fn acquire(&mut self, srv: &Server) -> (r: Result<&T, LockError>)
        requires
            srv.wf(),
        ensures
            final(self).token() == old(self).token(),
            final(self).key() == old(self).key(),
            !may_read(srv.data(), old(self).key(), old(self).token()) ==> r == Err::<&T, LockError>(
                LockError::LockExpired(old(self).token()),
            ) && final(self).cache() == old(self).cache(),
            may_read(srv.data(), old(self).key(), old(self).token()) ==> {
                &&& loaded::<T>(srv.data(), old(self).key(), final(self).cache())
                &&& text_at(srv.data(), old(self).key()) is None ==> r == Err::<&T, LockError>(LockError::NotFound)
                &&& r matches Ok(x) ==> final(self).cache() == Some(x@)
                &&& r is Err ==> final(self).cache() is None
            },
    {
        match guarded_load::<T>(srv, self.lock.data.key_name(), self.uuid) {
            Err(e) => Err(e),
            Ok(c) => {
                let absent = srv.get_text(self.lock.data.key_name()).is_none();
                self.cache = c;
                match &self.cache {
                    Some(x) => Ok(x),
                    None => if absent {
                        Err(LockError::NotFound)
                    } else {
                        Err(LockError::Serialization)
                    },
                }
            },
        }
    }

    /// The value this guard read last.
    pub fn cached(&self) -> (r: Option<&T>)
        ensures
            match r {
                Some(x) => self.cache() == Some(x@),
                None => self.cache() is None,
            },
    {
        match &self.cache {
            Some(x) => Some(x),
            None => None,
        }
    }

    /// Gives the read lease back; `LockNotDroppable` where it had already ended.
    pub fn release(self, srv: &mut Server) -> (r: Result<(), RwLockError>)
        requires
            old(srv).wf(),
        ensures
            final(srv).wf(),
            final(srv).clock() == old(srv).clock(),
            final(srv).data() == old(srv).data().remove(reader_key(self.key(), self.token())),
            r is Ok <==> old(srv).data().contains_key(reader_key(self.key(), self.token())),
            r is Err ==> r == Err::<(), RwLockError>(RwLockError::LockNotDroppable),
    {
        if reader_release_script(srv, self.lock.data.key_name(), self.uuid) {
            Ok(())
        } else {
            Err(RwLockError::LockNotDroppable)
        }
    }
}

/// The write lock on a lock's cell.
pub struct RwLockWriteGuard<'a, T> {
    lock: &'a mut RwLock<T>,
    uuid: u64,
}

impl<'a, T: Codec> RwLockWriteGuard<'a, T> {
    pub closed spec fn token(&self) -> u64 {
        self.uuid
    }

    pub closed spec fn key(&self) -> Seq<char> {
        self.lock.data.key()
    }

    pub closed spec fn cache(&self) -> Option<T::V> {
        self.lock.data.cache()
    }

    /// Writes `value` while this writer holds the lock; `LockExpired` (nothing written)
    /// otherwise.
    pub fn store(&mut self, value: T, srv: &mut Server) -> (r: Result<(), LockError>)
        requires
            old(srv).wf(),
        ensures
            final(srv).wf(),
            final(srv).clock() == old(srv).clock(),
            final(self).token() == old(self).token(),
            final(self).key() == old(self).key(),
            ({
                let (db, ok) = guarded_store_step(
                    old(srv).data(),
                    old(srv).clock(),
                    old(self).key(),
                    old(self).token(),
                    T::encoding(value@),
                );
                final(srv).data() == db && (ok ==> r is Ok && final(self).cache() == Some(value@)) && (!ok
                    ==> r == Err::<(), LockError>(LockError::LockExpired(old(self).token()))
                    && final(self).cache() == old(self).cache())
            }),
    {
        let text = value.encode();
        if guarded_store_script(srv, self.lock.data.key_name(), self.uuid, text) {
            self.lock.data.set_cache(Some(value));
            Ok(())
        } else {
            Err(LockError::LockExpired(self.uuid))
        }
    }

    /// The cached value of the locked cell.
    pub fn cached(&self) -> (r: Option<&T>)
        ensures
            match r {
                Some(x) => self.cache() == Some(x@),
                None => self.cache() is None,
            },
    {
        self.lock.data.cached()
    }

    /// Withdraws the intent and gives the lock back; `LockNotDroppable` where the lock had
    /// already ended.
    pub fn release(self, srv: &mut Server) -> (r: Result<(), RwLockError>)
        requires
            old(srv).wf(),
        ensures
            final(srv).wf(),
            final(srv).clock() == old(srv).clock(),
            final(srv).data() == writer_release_step(old(srv).data(), self.key(), self.token()),
            r is Ok <==> holds(old(srv).data().remove(intent_key(self.key(), self.token())), self.key(), self.token()),
            r is Err ==> r == Err::<(), RwLockError>(RwLockError::LockNotDroppable),
    {
        if writer_release_script(srv, self.lock.data.key_name(), self.uuid) {
            Ok(())
        } else {
            Err(RwLockError::LockNotDroppable)
        }
    }
}

} // verus!
