use vstd::prelude::*;
use crate::codec::Codec;
use crate::generic::{loaded, Generic};
use crate::store::{num_at, put, text_at, Db, Server, Val};

verus! {

/// Why a write of a set-load register was refused.
#[derive(Debug, PartialEq, Eq, Structural)]
pub enum SetLoadError {
    /// The server already holds an ordering number at least as large: another writer won.
    OrderError,
}

/// Key of the ordering number.
pub open spec fn order_key(k: Seq<char>) -> Seq<char> {
    k + ":order"@
}

/// A write with ordering number `c` wins where the server holds no ordering number or a
/// smaller one.
pub open spec fn wins(db: Db, k: Seq<char>, c: u64) -> bool {
    match num_at(db, order_key(k)) {
        Some(o) => o < c,
        None => true,
    }
}

/// The server after the set-load step for `(c, text)`.
pub open spec fn set_load_db(db: Db, now: u64, k: Seq<char>, c: u64, text: Seq<char>) -> Db {
    if wins(db, k, c) {
        put(put(db, now, order_key(k), Val::Num(c), None), now, k, Val::Text(text), None)
    } else {
        db
    }
}

/// The ordering number the set-load step reports back.
pub open spec fn set_load_order(db: Db, k: Seq<char>, c: u64) -> u64 {
    if wins(db, k, c) {
        c
    } else {
        num_at(db, order_key(k))->0
    }
}

/// Runs the set-load step: writes `(c, text)` where it wins, and reports the text and the
/// ordering number the server holds afterwards.
pub fn set_load_script(srv: &mut Server, k: &String, c: u64, text: String) -> (r: (Option<String>, u64))
    requires
        old(srv).wf(),
    ensures
        final(srv).wf(),
        final(srv).clock() == old(srv).clock(),
        final(srv).data() == set_load_db(old(srv).data(), old(srv).clock(), k@, c, text@),
        r.1 == set_load_order(old(srv).data(), k@, c),
        match r.0 {
            Some(s) => text_at(final(srv).data(), k@) == Some(s@),
            None => text_at(final(srv).data(), k@) is None,
        },
{
    let ok = crate::codec::sub_key(k, ":order");
    let order = match srv.get_num(&ok) {
        Some(o) if !(o < c) => o,
        _ => {
            srv.set_num(&ok, c, None);
            srv.set_text(k, text, None);
            c
        },
    };
    (srv.get_text(k), order)
}

/// A register that orders its writers by a counter instead of a lock: a write lands only
/// with an ordering number above the one the server holds.
pub struct SetLoad<T> {
    data: Generic<T>,
    counter: u64,
}

impl<T: Codec> SetLoad<T> {
    /// The local ordering number.
    pub closed spec fn counter(&self) -> u64 {
        self.counter
    }

    /// The register's cell.
    pub closed spec fn cell(&self) -> Generic<T> {
        self.data
    }

    /// The register's cell.
    pub fn data(&self) -> (r: &Generic<T>)
        ensures
            *r == self.cell(),
    {
        &self.data
    }

    /// Wraps `data` and loads the register at once.
    pub fn new(data: Generic<T>, srv: &Server) -> (r: SetLoad<T>)
        requires
            srv.wf(),
        ensures
            r.cell().key() == data.key(),
            loaded::<T>(srv.data(), data.key(), r.cell().cache()),
            r.counter() == match num_at(srv.data(), order_key(data.key())) {
                Some(o) => o,
                None => 0,
            },
    {
        let mut s = SetLoad { data, counter: 0 };
        s.load(srv);
        s
    }

    /// Reads the value and the ordering number: the cache and the local counter follow the
    /// server (an absent ordering number counts as zero).
    pub fn load(&mut self, srv: &Server)
        requires
            srv.wf(),
        ensures
            final(self).cell().key() == old(self).cell().key(),
            loaded::<T>(srv.data(), old(self).cell().key(), final(self).cell().cache()),
            final(self).counter() == match num_at(srv.data(), order_key(old(self).cell().key())) {
                Some(o) => o,
                None => 0,
            },
    {
        let ok = self.data.sibling(":order");
        let value = match srv.get_text(self.data.key_name()) {
            Some(text) => T::decode(&text),
            None => None,
        };
        self.data.set_cache(value);
        self.counter = match srv.get_num(&ok) {
            Some(o) => o,
            None => 0,
        };
    }

    /// Writes `val` with the next ordering number. `OrderError` (cache kept) where the
    /// server already holds an ordering number at least as large, or the counter is spent.
    pub fn store(&mut self, val: T, srv: &mut Server) -> (r: Result<(), SetLoadError>)
        requires
            old(srv).wf(),
        ensures
            final(srv).wf(),
            final(srv).clock() == old(srv).clock(),
            final(self).cell().key() == old(self).cell().key(),
            old(self).counter() == u64::MAX ==> r is Err && final(srv).data() == old(srv).data()
                && final(self).counter() == old(self).counter(),
            old(self).counter() < u64::MAX ==> {
                let c = (old(self).counter() + 1) as u64;
                &&& final(self).counter() == c
                &&& final(srv).data() == set_load_db(
                    old(srv).data(),
                    old(srv).clock(),
                    old(self).cell().key(),
                    c,
                    T::encoding(val@),
                )
                &&& wins(old(srv).data(), old(self).cell().key(), c) ==> r is Ok
            },
            r is Ok ==> final(self).cell().cache() == Some(val@),
            r is Err ==> final(self).cell().cache() == old(self).cell().cache() && r == Err::<(), SetLoadError>(
                SetLoadError::OrderError,
            ),
    {
        if self.counter == u64::MAX {
            return Err(SetLoadError::OrderError);
        }
        self.counter = self.counter + 1;
        match self.store_on_server(val, srv).0 {
            Ok(()) => Ok(()),
            Err(_) => Err(SetLoadError::OrderError),
        }
    }

    /// One set-load step with the current counter; hands `val` back where it did not land,
    /// with the reported ordering number.
    fn store_on_server(&mut self, val: T, srv: &mut Server) -> (r: (Result<(), T>, u64))
        requires
            old(srv).wf(),
        ensures
            final(srv).wf(),
            final(srv).clock() == old(srv).clock(),
            final(self).cell().key() == old(self).cell().key(),
            final(self).counter() == old(self).counter(),
            final(srv).data() == set_load_db(
                old(srv).data(),
                old(srv).clock(),
                old(self).cell().key(),
                old(self).counter(),
                T::encoding(val@),
            ),
            r.1 == set_load_order(old(srv).data(), old(self).cell().key(), old(self).counter()),
            wins(old(srv).data(), old(self).cell().key(), old(self).counter()) ==> r.0 is Ok,
            r.0 is Ok ==> final(self).cell().cache() == Some(val@),
            r.0 is Ok ==> text_at(final(srv).data(), old(self).cell().key()) == Some(T::encoding(val@)),
            r.0 is Ok ==> num_at(final(srv).data(), order_key(old(self).cell().key())) == Some(old(self).counter()),
            r.0 matches Err(v) ==> final(self).cell().cache() == old(self).cell().cache() && v@ == val@,
    {
        proof {
            reveal_strlit(":order");
            assert(order_key(self.data.key()).len() == self.data.key().len() + 6);
        }
        let text = val.encode();
        let mine = val.encode();
        let (seen, order) = set_load_script(srv, self.data.key_name(), self.counter, text);
        let landed = match seen {
            Some(s) => s == mine,
            None => false,
        };
        if landed && order == self.counter {
            self.data.set_cache(Some(val));
            (Ok(()), order)
        } else {
            (Err(val), order)
        }
    }

    /// Writes `val`, and where another writer won, moves the counter past the ordering number
    /// the server reported and writes again. `OrderError` only where the counter is spent.
    pub fn store_blocking(&mut self, val: T, srv: &mut Server) -> (r: Result<(), SetLoadError>)
        requires
            old(srv).wf(),
        ensures
            final(srv).wf(),
            final(srv).clock() == old(srv).clock(),
            final(self).cell().key() == old(self).cell().key(),
            r is Ok ==> final(self).cell().cache() == Some(val@) && text_at(final(srv).data(), old(self).cell().key())
                == Some(T::encoding(val@)) && num_at(final(srv).data(), order_key(old(self).cell().key())) == Some(
                final(self).counter(),
            ),
            (old(self).counter() < u64::MAX && match num_at(old(srv).data(), order_key(old(self).cell().key())) {
                Some(o) => o < u64::MAX,
                None => true,
            }) ==> r is Ok,
    {
        if self.counter == u64::MAX {
            return Err(SetLoadError::OrderError);
        }
        self.counter = self.counter + 1;
        proof {
            reveal_strlit(":order");
            assert(order_key(self.data.key()).len() == self.data.key().len() + 6);
        }
        match self.store_on_server(val, srv) {
            (Ok(()), _) => Ok(()),
            (Err(val), order) => {
                if order == u64::MAX {
                    return Err(SetLoadError::OrderError);
                }
                self.counter = order + 1;
                match self.store_on_server(val, srv).0 {
                    Ok(()) => Ok(()),
                    Err(_) => Err(SetLoadError::OrderError),
                }
            },
        }
    }
}

} // verus!
