use vstd::prelude::*;
use crate::codec::Codec;
use crate::generic::CellError;
use crate::store::{items_at, put_items, Db, Server};
use std::collections::VecDeque;
use vstd::string::StringExecFns;

verus! {

/// The texts of a sequence of values.
pub open spec fn encodings<T: Codec>(s: Seq<T::V>) -> Seq<Seq<char>> {
    s.map_values(|v: T::V| T::encoding(v))
}

/// What a value read back from the text `s` may be: the value itself where `s` is its text.
pub open spec fn decoded_from<T: Codec>(s: Seq<char>, r: Option<T::V>) -> bool {
    forall|v: T::V| #[trigger] T::encoding(v) == s ==> r == Some(v)
}

/// `t` is the text of some value.
pub open spec fn readable<T: Codec>(t: Seq<char>) -> bool {
    exists|v: T::V| #[trigger] T::encoding(v) == t
}

/// Every text of `s` is the text of some value.
pub open spec fn all_readable<T: Codec>(s: Seq<Seq<char>>) -> bool {
    forall|i: int| 0 <= i < s.len() ==> #[trigger] readable::<T>(s[i])
}

/// The list under `k` as the server holds it (a key holding something else counts as empty).
pub open spec fn server_items(db: Db, k: Seq<char>) -> Seq<Seq<char>> {
    match items_at(db, k) {
        Some(s) => s,
        None => Seq::empty(),
    }
}

fn decode_opt<T: Codec>(text: Option<String>) -> (r: Option<T>)
    ensures
        text matches Some(s) ==> decoded_from::<T>(s@, match r { Some(x) => Some(x@), None => None }),
        text is None ==> r is None,
{
    match text {
        Some(s) => T::decode(&s),
        None => None,
    }
}

/// A list of values held on the server under one key.
pub struct List<T> {
    key: String,
    _phantom: core::marker::PhantomData<T>,
}

impl<T: Codec> List<T> {
    pub closed spec fn key(&self) -> Seq<char> {
        self.key@
    }

    /// A handle on the list under `key`; the server is not touched.
    pub fn new(key: &str) -> (r: List<T>)
        ensures
            r.key() == key@,
    {
        List { key: String::from_str(key), _phantom: core::marker::PhantomData }
    }

    /// Iterates over the list by position, from the front, as long as it was when the
    /// iteration began; a position the list no longer has yields nothing.
    pub fn iter(&self, srv: &Server) -> (r: ListIter<'_, T>)
        requires
            srv.wf(),
        ensures
            r.position() == 0,
            r.end() == server_items(srv.data(), self.key()).len(),
            r.key() == self.key(),
    {
        let len = self.len(srv);
        ListIter { list: self, index: 0, len }
    }

    /// Adds `val` at the front; nothing changes where the key holds something else.
    pub fn push_front(&mut self, val: &T, srv: &mut Server)
        requires
            old(srv).wf(),
        ensures
            final(srv).wf(),
            final(srv).clock() == old(srv).clock(),
            final(self).key() == old(self).key(),
            match items_at(old(srv).data(), old(self).key()) {
                Some(s) => final(srv).data() == put_items(old(srv).data(), old(self).key(), seq![T::encoding(val@)] + s),
                None => final(srv).data() == old(srv).data(),
            },
    {
        let text = val.encode();
        srv.push_item(&self.key, text, true);
    }

    /// Adds `val` at the back; nothing changes where the key holds something else.
    pub fn push_back(&mut self, val: &T, srv: &mut Server)
        requires
            old(srv).wf(),
        ensures
            final(srv).wf(),
            final(srv).clock() == old(srv).clock(),
            final(self).key() == old(self).key(),
            match items_at(old(srv).data(), old(self).key()) {
                Some(s) => final(srv).data() == put_items(old(srv).data(), old(self).key(), s.push(T::encoding(val@))),
                None => final(srv).data() == old(srv).data(),
            },
    {
        let text = val.encode();
        srv.push_item(&self.key, text, false);
    }

    /// Removes the first value and reads it back; `None` where the list is empty.
    pub fn pop_front(&mut self, srv: &mut Server) -> (r: Option<T>)
        requires
            old(srv).wf(),
        ensures
            final(srv).wf(),
            final(srv).clock() == old(srv).clock(),
            final(self).key() == old(self).key(),
            match items_at(old(srv).data(), old(self).key()) {
                Some(s) => if s.len() == 0 {
                    r is None && final(srv).data() == put_items(old(srv).data(), old(self).key(), s)
                } else {
                    final(srv).data() == put_items(old(srv).data(), old(self).key(), s.drop_first())
                        && decoded_from::<T>(s[0], match r { Some(x) => Some(x@), None => None })
                },
                None => r is None && final(srv).data() == old(srv).data(),
            },
    {
        decode_opt(srv.pop_item(&self.key, true))
    }

    /// Removes the last value and reads it back; `None` where the list is empty.
    pub fn pop_back(&mut self, srv: &mut Server) -> (r: Option<T>)
        requires
            old(srv).wf(),
        ensures
            final(srv).wf(),
            final(srv).clock() == old(srv).clock(),
            final(self).key() == old(self).key(),
            match items_at(old(srv).data(), old(self).key()) {
                Some(s) => if s.len() == 0 {
                    r is None && final(srv).data() == put_items(old(srv).data(), old(self).key(), s)
                } else {
                    final(srv).data() == put_items(old(srv).data(), old(self).key(), s.drop_last())
                        && decoded_from::<T>(s.last(), match r { Some(x) => Some(x@), None => None })
                },
                None => r is None && final(srv).data() == old(srv).data(),
            },
    {
        decode_opt(srv.pop_item(&self.key, false))
    }

    /// The number of values.
    pub fn len(&self, srv: &Server) -> (r: usize)
        requires
            srv.wf(),
        ensures
            r == server_items(srv.data(), self.key()).len(),
    {
        match srv.list_len(&self.key) {
            Some(n) => n,
            None => 0,
        }
    }

    /// Removes the whole list.
    pub fn clear(&self, srv: &mut Server)
        requires
            old(srv).wf(),
        ensures
            final(srv).wf(),
            final(srv).clock() == old(srv).clock(),
            final(srv).data() == old(srv).data().remove(self.key()),
    {
        srv.del(&self.key);
    }

    /// Whether some value of the list is written as `val` is.
    pub fn contains(&self, val: &T, srv: &Server) -> (r: bool)
        requires
            srv.wf(),
        ensures
            r == server_items(srv.data(), self.key()).contains(T::encoding(val@)),
    {
        let text = val.encode();
        let items = match srv.list_all(&self.key) {
            Some(v) => v,
            None => Vec::new(),
        };
        let ghost s = items@.map_values(|x: String| x@);
        proof {
            assert(s =~= server_items(srv.data(), self.key()));
        }
        let mut i: usize = 0;
        while i < items.len()
            invariant
                i <= items@.len(),
                s == items@.map_values(|x: String| x@),
                s == server_items(srv.data(), self.key()),
                text@ == T::encoding(val@),
                forall|j: int| 0 <= j < i ==> s[j] != text@,
            decreases items@.len() - i,
        {
            if items[i] == text {
                proof {
                    assert(s[i as int] == text@);
                }
                return true;
            }
            i = i + 1;
        }
        false
    }

    /// Whether the list is empty.
    pub fn is_empty(&self, srv: &Server) -> (r: bool)
        requires
            srv.wf(),
        ensures
            r == (server_items(srv.data(), self.key()).len() == 0),
    {
        self.len(srv) == 0
    }
}

/// Walks a list by position.
pub struct ListIter<'a, T> {
    list: &'a List<T>,
    index: usize,
    len: usize,
}

impl<'a, T: Codec> ListIter<'a, T> {
    pub closed spec fn position(&self) -> nat {
        self.index as nat
    }

    pub closed spec fn end(&self) -> nat {
        self.len as nat
    }

    pub closed spec fn key(&self) -> Seq<char> {
        self.list.key()
    }

    /// The value at the next position, read back; `None` past the end.
    pub fn next(&mut self, srv: &Server) -> (r: Option<T>)
        requires
            srv.wf(),
        ensures
            final(self).key() == old(self).key(),
            final(self).end() == old(self).end(),
            old(self).position() >= old(self).end() ==> r is None && final(self).position() == old(self).position(),
            old(self).position() < old(self).end() ==> final(self).position() == old(self).position() + 1,
            ({
                let s = server_items(srv.data(), old(self).key());
                let i = old(self).position() as int;
                (i < old(self).end() && i < s.len()) ==> decoded_from::<T>(
                    s[i],
                    match r { Some(x) => Some(x@), None => None },
                )
            }),
            old(self).position() >= server_items(srv.data(), old(self).key()).len() ==> r is None,
    {
        if self.index >= self.len {
            return None;
        }
        let text = srv.list_get(&self.list.key, self.index);
        self.index = self.index + 1;
        decode_opt(text)
    }
}

/// A list on the server with a local copy, for cheap reads. Every change goes to the server
/// first and to the copy only once the server took it.
pub struct ListCache<T> {
    list: List<T>,
    cache: VecDeque<T>,
}

impl<T: Codec> ListCache<T> {
    pub closed spec fn key(&self) -> Seq<char> {
        self.list.key()
    }

    /// The local copy.
    pub closed spec fn items(&self) -> Seq<T::V> {
        self.cache@.map_values(|x: T| x@)
    }

    /// A list under `key` whose copy is loaded from the server.
    pub fn new(key: &str, srv: &Server) -> (r: ListCache<T>)
        requires
            srv.wf(),
        ensures
            r.key() == key@,
            all_readable::<T>(server_items(srv.data(), key@)) ==> r.items().len() == server_items(
                srv.data(),
                key@,
            ).len(),
            r.items().len() == 0 || r.items().len() == server_items(srv.data(), key@).len(),
            forall|i: int, v: T::V| 0 <= i < r.items().len() && #[trigger] T::encoding(v) == server_items(srv.data(), key@)[i]
                ==> #[trigger] r.items()[i] == v,
    {
        let mut s = Self::without_load(key);
        let _ = s.pull(srv);
        s
    }

    /// A list under `key` with an empty copy; the server is not touched.
    pub fn without_load(key: &str) -> (r: ListCache<T>)
        ensures
            r.key() == key@,
            r.items().len() == 0,
    {
        let cache: VecDeque<T> = VecDeque::new();
        let r = ListCache { list: List::new(key), cache };
        proof {
            assert(r.items() =~= Seq::<T::V>::empty());
        }
        r
    }

    /// Replaces the copy by the list the server holds. `Serialization` (copy emptied) where an
    /// item does not read back.
    pub fn pull(&mut self, srv: &Server) -> (r: Result<(), CellError>)
        requires
            srv.wf(),
        ensures
            final(self).key() == old(self).key(),
            all_readable::<T>(server_items(srv.data(), old(self).key())) ==> r is Ok,
            r is Ok ==> final(self).items().len() == server_items(srv.data(), old(self).key()).len(),
            r is Err ==> final(self).items().len() == 0 && r == Err::<(), CellError>(CellError::Serialization),
            forall|i: int, v: T::V| 0 <= i < final(self).items().len() && #[trigger] T::encoding(v) == server_items(
                srv.data(),
                old(self).key(),
            )[i] ==> #[trigger] final(self).items()[i] == v,
    {
        let items = match srv.list_all(&self.list.key) {
            Some(v) => v,
            None => Vec::new(),
        };
        let ghost s = items@.map_values(|x: String| x@);
        proof {
            assert(s =~= server_items(srv.data(), self.key()));
        }
        let mut out: VecDeque<T> = VecDeque::new();
        let mut i: usize = 0;
        while i < items.len()
            invariant
                i <= items@.len(),
                s == items@.map_values(|x: String| x@),
                s == server_items(srv.data(), old(self).key()),
                self.key() == old(self).key(),
                out@.len() == i,
                forall|j: int, v: T::V| 0 <= j < i && #[trigger] T::encoding(v) == s[j] ==> #[trigger] out@[j]@ == v,
            decreases items@.len() - i,
        {
            match T::decode(&items[i]) {
                Some(x) => {
                    out.push_back(x);
                },
                None => {
                    proof {
                        assert(!readable::<T>(s[i as int]));
                    }
                    self.cache = VecDeque::new();
                    proof {
                        assert(self.items() =~= Seq::<T::V>::empty());
                    }
                    return Err(CellError::Serialization);
                },
            }
            i = i + 1;
        }
        self.cache = out;
        Ok(())
    }

    /// Adds `val` at the back, on the server and then in the copy; nothing changes where the
    /// key holds something else.
    pub fn push_back(&mut self, val: T, srv: &mut Server)
        requires
            old(srv).wf(),
        ensures
            final(srv).wf(),
            final(srv).clock() == old(srv).clock(),
            final(self).key() == old(self).key(),
            match items_at(old(srv).data(), old(self).key()) {
                Some(s) => final(srv).data() == put_items(old(srv).data(), old(self).key(), s.push(T::encoding(val@)))
                    && final(self).items() == old(self).items().push(val@),
                None => final(srv).data() == old(srv).data() && final(self).items() == old(self).items(),
            },
    {
        let text = val.encode();
        if srv.push_item(&self.list.key, text, false).is_some() {
            let ghost v = val@;
            self.cache.push_back(val);
            proof {
                assert(self.items() =~= old(self).items().push(v));
            }
        }
    }

    /// Adds `val` at the front, on the server and then in the copy; nothing changes where the
    /// key holds something else.
    pub fn push_front(&mut self, val: T, srv: &mut Server)
        requires
            old(srv).wf(),
        ensures
            final(srv).wf(),
            final(srv).clock() == old(srv).clock(),
            final(self).key() == old(self).key(),
            match items_at(old(srv).data(), old(self).key()) {
                Some(s) => final(srv).data() == put_items(old(srv).data(), old(self).key(), seq![T::encoding(val@)] + s)
                    && final(self).items() == seq![val@] + old(self).items(),
                None => final(srv).data() == old(srv).data() && final(self).items() == old(self).items(),
            },
    {
        let text = val.encode();
        if srv.push_item(&self.list.key, text, true).is_some() {
            let ghost v = val@;
            self.cache.push_front(val);
            proof {
                assert(self.items() =~= seq![v] + old(self).items());
            }
        }
    }

    /// Removes the last value, on the server and then in the copy, and hands out the copy's.
    pub fn pop_back(&mut self, srv: &mut Server) -> (r: Option<T>)
        requires
            old(srv).wf(),
        ensures
            final(srv).wf(),
            final(srv).clock() == old(srv).clock(),
            final(self).key() == old(self).key(),
            match items_at(old(srv).data(), old(self).key()) {
                Some(s) => final(srv).data() == put_items(
                    old(srv).data(),
                    old(self).key(),
                    if s.len() == 0 { s } else { s.drop_last() },
                ),
                None => final(srv).data() == old(srv).data(),
            },
            old(self).items().len() == 0 ==> r is None && final(self).items() == old(self).items(),
            old(self).items().len() > 0 ==> (r matches Some(x) && x@ == old(self).items().last())
                && final(self).items() == old(self).items().drop_last(),
    {
        let _ = srv.pop_item(&self.list.key, false);
        let r = self.cache.pop_back();
        proof {
            if old(self).items().len() > 0 {
                assert(self.items() =~= old(self).items().drop_last());
            }
        }
        r
    }

    /// Removes the first value, on the server and then in the copy, and hands out the copy's.
    pub fn pop_front(&mut self, srv: &mut Server) -> (r: Option<T>)
        requires
            old(srv).wf(),
        ensures
            final(srv).wf(),
            final(srv).clock() == old(srv).clock(),
            final(self).key() == old(self).key(),
            match items_at(old(srv).data(), old(self).key()) {
                Some(s) => final(srv).data() == put_items(
                    old(srv).data(),
                    old(self).key(),
                    if s.len() == 0 { s } else { s.drop_first() },
                ),
                None => final(srv).data() == old(srv).data(),
            },
            old(self).items().len() == 0 ==> r is None && final(self).items() == old(self).items(),
            old(self).items().len() > 0 ==> (r matches Some(x) && x@ == old(self).items()[0])
                && final(self).items() == old(self).items().drop_first(),
    {
        let _ = srv.pop_item(&self.list.key, true);
        let r = self.cache.pop_front();
        proof {
            if old(self).items().len() > 0 {
                assert(self.items() =~= old(self).items().drop_first());
            }
        }
        r
    }

    /// The number of values in the copy.
    pub fn len(&self) -> (r: usize)
        ensures
            r == self.items().len(),
    {
        self.cache.len()
    }

    /// Whether the copy is empty.
    pub fn is_empty(&self) -> (r: bool)
        ensures
            r == (self.items().len() == 0),
    {
        self.cache.len() == 0
    }

    /// Puts `val` at `index` of the copy and writes the whole copy to the server, server
    /// first.
    pub fn insert(&mut self, index: usize, val: T, srv: &mut Server)
        requires
            old(srv).wf(),
            index <= old(self).items().len(),
        ensures
            final(srv).wf(),
            final(srv).clock() == old(srv).clock(),
            final(self).key() == old(self).key(),
            final(self).items() == old(self).items().insert(index as int, val@),
            final(srv).data() == put_items(old(srv).data(), old(self).key(), encodings::<T>(final(self).items())),
    {
        let mut texts: Vec<String> = Vec::new();
        let mut i: usize = 0;
        let ghost items = self.items();
        let n = self.cache.len();
        while i < n
            invariant
                n == self.cache@.len(),
                items == self.items(),
                i <= n,
                texts@.map_values(|x: String| x@) == encodings::<T>(items.subrange(0, i as int)),
            decreases n - i,
        {
            let t = self.cache[i].encode();
            let ghost prev = texts@;
            let ghost tv = t@;
            texts.push(t);
            proof {
                assert(texts@ =~= prev.push(t));
                assert(texts@.map_values(|x: String| x@) =~= prev.map_values(|x: String| x@).push(tv));
                assert(items.subrange(0, i + 1) =~= items.subrange(0, i as int).push(items[i as int]));
                assert(tv == T::encoding(items[i as int]));
                assert(encodings::<T>(items.subrange(0, i + 1)) =~= encodings::<T>(items.subrange(0, i as int)).push(tv));
            }
            i = i + 1;
        }
        let t = val.encode();
        let ghost prev = texts@;
        let ghost tv = t@;
        texts.insert(index, t);
        let ghost v = val@;
        proof {
            assert(items.subrange(0, n as int) =~= items);
            assert(texts@ =~= prev.insert(index as int, t));
            assert(texts@.map_values(|x: String| x@) =~= prev.map_values(|x: String| x@).insert(index as int, tv));
            assert(encodings::<T>(items.insert(index as int, v)) =~= encodings::<T>(items).insert(index as int, tv));
            assert(texts@.map_values(|x: String| x@) =~= encodings::<T>(items.insert(index as int, v)));
            assert(encodings::<T>(items.insert(index as int, v)).len() > 0);
        }
        srv.put_items(&self.list.key, texts);
        self.cache.insert(index, val);
        proof {
            assert(self.items() =~= items.insert(index as int, v));
        }
    }

    /// The first value of the copy.
    pub fn front(&self) -> (r: Option<&T>)
        ensures
            self.items().len() == 0 ==> r is None,
            self.items().len() > 0 ==> (r matches Some(x) && x@ == self.items()[0]),
    {
        if self.cache.len() == 0 {
            None
        } else {
            Some(&self.cache[0])
        }
    }

    /// The last value of the copy.
    pub fn back(&self) -> (r: Option<&T>)
        ensures
            self.items().len() == 0 ==> r is None,
            self.items().len() > 0 ==> (r matches Some(x) && x@ == self.items().last()),
    {
        let n = self.cache.len();
        if n == 0 {
            None
        } else {
            Some(&self.cache[n - 1])
        }
    }

    /// The value at `index` of the copy.
    pub fn get(&self, index: usize) -> (r: Option<&T>)
        ensures
            index >= self.items().len() ==> r is None,
            index < self.items().len() ==> (r matches Some(x) && x@ == self.items()[index as int]),
    {
        if index < self.cache.len() {
            Some(&self.cache[index])
        } else {
            None
        }
    }

    /// Removes the list from the server and empties the copy.
    pub fn clear(&mut self, srv: &mut Server)
        requires
            old(srv).wf(),
        ensures
            final(srv).wf(),
            final(srv).clock() == old(srv).clock(),
            final(self).key() == old(self).key(),
            final(srv).data() == old(srv).data().remove(old(self).key()),
            final(self).items().len() == 0,
    {
        self.list.clear(srv);
        self.cache = VecDeque::new();
        proof {
            assert(self.items() =~= Seq::<T::V>::empty());
        }
    }
}

} // verus!
