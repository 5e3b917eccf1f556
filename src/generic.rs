use vstd::prelude::*;
use crate::codec::{sub_key, Codec};
use crate::store::{put, text_at, Db, Server, Val};
use vstd::string::StringExecFns;

verus! {

/// Why a cell could not hand out a value.
#[derive(Debug, PartialEq, Eq, Structural)]
pub enum CellError {
    /// The value is absent: no text under the key, or an empty cache.
    NotFound,
    /// The text under the key does not read back as a value.
    Serialization,
}

/// The cache a cell holds after reading the server: whatever the text under `k` stands for.
/// Only the texts of values are pinned down.
pub open spec fn loaded<T: Codec>(db: Db, k: Seq<char>, cache: Option<T::V>) -> bool {
    &&& text_at(db, k) is None ==> cache is None
    &&& forall|v: T::V| text_at(db, k) == Some(#[trigger] T::encoding(v)) ==> cache == Some(v)
}

/// The server after a cell under `k` stores `v`.
pub open spec fn stored<T: Codec>(db: Db, now: u64, k: Seq<char>, v: T::V) -> Db {
    put(db, now, k, Val::Text(T::encoding(v)), None)
}

/// A value bound to a key of the server, with a local cache of the last value this handle
/// wrote or read.
pub struct Generic<T> {
    cache: Option<T>,
    key: String,
}

impl<T: Codec> Generic<T> {
    /// The key this cell is bound to.
    pub closed spec fn key(&self) -> Seq<char> {
        self.key@
    }

    /// The cached value.
    pub closed spec fn cache(&self) -> Option<T::V> {
        match self.cache {
            Some(x) => Some(x@),
            None => None,
        }
    }

    /// A cell under `field_name` with an empty cache; the server is not touched.
    pub fn new(field_name: &str) -> (r: Generic<T>)
        ensures
            r.key() == field_name@,
            r.cache() is None,
    {
        Generic { cache: None, key: String::from_str(field_name) }
    }

    /// A cell under `field_name` that writes `value`, overwriting what was there.
    pub fn with_value(value: T, field_name: &str, srv: &mut Server) -> (r: Generic<T>)
        requires
            old(srv).wf(),
        ensures
            final(srv).wf(),
            final(srv).clock() == old(srv).clock(),
            final(srv).data() == stored::<T>(old(srv).data(), old(srv).clock(), field_name@, value@),
            r.key() == field_name@,
            r.cache() == Some(value@),
    {
        let mut r = Self::new(field_name);
        r.store(value, srv);
        r
    }

    /// A cell under `field_name` that caches what the server holds there.
    pub fn with_load(field_name: &str, srv: &Server) -> (r: Generic<T>)
        requires
            srv.wf(),
        ensures
            r.key() == field_name@,
            loaded::<T>(srv.data(), field_name@, r.cache()),
    {
        let mut r = Self::new(field_name);
        r.cache = r.try_get(srv);
        r
    }

    /// A cell under `field_name` that writes `value` only where the server holds nothing
    /// there, and otherwise caches what it holds.
    pub fn with_value_default(value: T, field_name: &str, srv: &mut Server) -> (r: Generic<T>)
        requires
            old(srv).wf(),
        ensures
            final(srv).wf(),
            final(srv).clock() == old(srv).clock(),
            r.key() == field_name@,
            text_at(old(srv).data(), field_name@) is None ==> final(srv).data() == stored::<T>(
                old(srv).data(),
                old(srv).clock(),
                field_name@,
                value@,
            ) && r.cache() == Some(value@),
            text_at(old(srv).data(), field_name@) is Some ==> final(srv).data() == old(srv).data()
                && loaded::<T>(old(srv).data(), field_name@, r.cache()),
    {
        let mut r = Self::new(field_name);
        if srv.get_text(&r.key).is_none() {
            r.store(value, srv);
        } else {
            r.cache = r.try_get(srv);
        }
        r
    }

    /// Writes `value` under the key and caches it.
    pub fn store(&mut self, value: T, srv: &mut Server)
        requires
            old(srv).wf(),
        ensures
            final(srv).wf(),
            final(srv).clock() == old(srv).clock(),
            final(srv).data() == stored::<T>(old(srv).data(), old(srv).clock(), old(self).key(), value@),
            final(self).key() == old(self).key(),
            final(self).cache() == Some(value@),
    {
        let text = value.encode();
        srv.set_text(&self.key, text, None);
        self.cache = Some(value);
    }

    fn try_get(&self, srv: &Server) -> (r: Option<T>)
        requires
            srv.wf(),
        ensures
            loaded::<T>(
                srv.data(),
                self.key(),
                match r {
                    Some(x) => Some(x@),
                    None => None,
                },
            ),
    {
        match srv.get_text(&self.key) {
            Some(text) => T::decode(&text),
            None => None,
        }
    }

    /// Reads the key again and caches what it holds. `NotFound` where it holds no text,
    /// `Serialization` where the text does not read back; the cache is then empty.
    pub fn acquire(&mut self, srv: &Server) -> (r: Result<&T, CellError>)
        requires
            srv.wf(),
        ensures
            final(self).key() == old(self).key(),
            text_at(srv.data(), old(self).key()) is None ==> r == Err::<&T, CellError>(CellError::NotFound),
            text_at(srv.data(), old(self).key()) is Some ==> r != Err::<&T, CellError>(CellError::NotFound),
            loaded::<T>(srv.data(), old(self).key(), final(self).cache()),
            match r {
                Ok(x) => final(self).cache() == Some(x@),
                Err(_) => final(self).cache() is None,
            },
    {
        match srv.get_text(&self.key) {
            Some(text) => {
                self.cache = T::decode(&text);
                match &self.cache {
                    Some(x) => Ok(x),
                    None => Err(CellError::Serialization),
                }
            },
            None => {
                self.cache = None;
                Err(CellError::NotFound)
            },
        }
    }

    /// Reads the key again, caches what it holds, and lends the cached value for change in
    /// place (a change reaches the server only with the next store). Errors as for `acquire`.
    pub fn acquire_mut(&mut self, srv: &Server) -> (r: Result<&mut T, CellError>)
        requires
            srv.wf(),
        ensures
            final(self).key() == old(self).key(),
            text_at(srv.data(), old(self).key()) is None ==> r is Err,
            match r {
                Ok(x) => loaded::<T>(srv.data(), old(self).key(), Some(x@)) && final(self).cache() == Some(
                    final(x)@,
                ),
                Err(e) => final(self).cache() is None && loaded::<T>(srv.data(), old(self).key(), None) && (text_at(
                    srv.data(),
                    old(self).key(),
                ) is None <==> e == CellError::NotFound),
            },
    {
        let found = srv.get_text(&self.key);
        let absent = found.is_none();
        self.cache = match found {
            Some(text) => T::decode(&text),
            None => None,
        };
        match &mut self.cache {
            Some(x) => Ok(x),
            None => if absent {
                Err(CellError::NotFound)
            } else {
                Err(CellError::Serialization)
            },
        }
    }

    /// The cached value; the server is not touched.
    pub fn cached(&self) -> (r: Option<&T>)
        ensures
            match r {
                Some(x) => self.cache() == Some(x@),
                None => self.cache() is None,
            },
    {
        match &self.cache {
            Some(x) => Some(x),
            None => None,
        }
    }

    /// Deletes the key from the server and hands out the cached value; `NotFound` where the
    /// cache is empty.
    pub fn into_inner(self, srv: &mut Server) -> (r: Result<T, CellError>)
        requires
            old(srv).wf(),
        ensures
            final(srv).wf(),
            final(srv).clock() == old(srv).clock(),
            final(srv).data() == old(srv).data().remove(self.key()),
            match r {
                Ok(x) => self.cache() == Some(x@),
                Err(e) => self.cache() is None && e == CellError::NotFound,
            },
    {
        srv.del(&self.key);
        match self.cache {
            Some(x) => Ok(x),
            None => Err(CellError::NotFound),
        }
    }

    /// The key this cell is bound to.
    pub fn key_name(&self) -> (r: &String)
        ensures
            r@ == self.key(),
    {
        &self.key
    }

    /// The key with `suffix` appended: a sibling key of the same logical variable.
    pub fn sibling(&self, suffix: &str) -> (r: String)
        ensures
            r@ == self.key() + suffix@,
    {
        sub_key(&self.key, suffix)
    }

    /// Replaces the cache without touching the server.
    pub(crate) fn set_cache(&mut self, v: Option<T>)
        ensures
            final(self).key() == old(self).key(),
            final(self).cache() == match v {
                Some(x) => Some(x@),
                None => None,
            },
    {
        self.cache = v;
    }
}

/// The value a binary operation stores: `f(a, b)` over the left cache `a`, or `b` alone where
/// that cache is empty.
pub open spec fn folded(lhs: Option<i32>, b: i32, f: spec_fn(int, int) -> int) -> int {
    match lhs {
        Some(a) => f(a as int, b as int),
        None => b as int,
    }
}

/// Whether `f` over the two caches stays within `i32`.
pub open spec fn fits(lhs: Option<i32>, rhs: Option<i32>, f: spec_fn(int, int) -> int) -> bool {
    rhs matches Some(b) ==> i32::MIN <= folded(lhs, b, f) <= i32::MAX
}

/// Integer division rounding toward zero, as `i32` division does.
pub open spec fn quotient(a: int, b: int) -> int {
    if a >= 0 {
        a / b
    } else {
        -((-a) / b)
    }
}

impl Generic<i32> {
    /// Takes the right cell's value (deleting its key) and combines it with this cell's cache
    /// through `op`; where this cache is empty, the right value itself is stored.
    fn combine(self, rhs: Generic<i32>, op: u8, srv: &mut Server) -> (r: Result<Generic<i32>, CellError>)
        requires
            old(srv).wf(),
            op < 4,
            fits(self.cache(), rhs.cache(), int_op(op)),
            op == 3 ==> rhs.cache() != Some(0i32),
        ensures
            final(srv).wf(),
            final(srv).clock() == old(srv).clock(),
            rhs.cache() is None ==> r == Err::<Generic<i32>, CellError>(CellError::NotFound) && final(srv).data()
                == old(srv).data().remove(rhs.key()),
            rhs.cache() matches Some(b) ==> {
                let v = folded(self.cache(), b, int_op(op)) as i32;
                &&& r matches Ok(g) && g.key() == self.key() && g.cache() == Some(v)
                &&& final(srv).data() == stored::<i32>(old(srv).data().remove(rhs.key()), old(srv).clock(), self.key(), v)
            },
    {
        let b = match rhs.into_inner(srv) {
            Ok(b) => b,
            Err(e) => {
                return Err(e);
            },
        };
        let mut me = self;
        let v = match me.cache {
            Some(a) => if op == 0 {
                a + b
            } else if op == 1 {
                a - b
            } else if op == 2 {
                a * b
            } else {
                a / b
            },
            None => b,
        };
        me.store(v, srv);
        Ok(me)
    }
}

/// The integer operation numbered `op`: sum, difference, product, quotient.
pub open spec fn int_op(op: u8) -> spec_fn(int, int) -> int {
    if op == 0 {
        |a: int, b: int| a + b
    } else if op == 1 {
        |a: int, b: int| a - b
    } else if op == 2 {
        |a: int, b: int| a * b
    } else {
        |a: int, b: int| quotient(a, b)
    }
}

/// The outcome of folding the right cell `rhs` into `lhs` through `f`: `NotFound` (the right
/// key deleted all the same) where the right cache is empty; else the folded value, stored
/// under the left key once the right key is gone.
pub open spec fn absorbed(
    lhs: Generic<i32>,
    rhs: Generic<i32>,
    f: spec_fn(int, int) -> int,
    db: Db,
    now: u64,
    db2: Db,
    r: Result<Generic<i32>, CellError>,
) -> bool {
    &&& rhs.cache() is None ==> r == Err::<Generic<i32>, CellError>(CellError::NotFound) && db2 == db.remove(rhs.key())
    &&& rhs.cache() matches Some(b) ==> {
        let v = folded(lhs.cache(), b, f) as i32;
        &&& r matches Ok(g) && g.key() == lhs.key() && g.cache() == Some(v)
        &&& db2 == stored::<i32>(db.remove(rhs.key()), now, lhs.key(), v)
    }
}

impl Generic<i32> {
    /// The sum with the right cell's value; the right cell is used up (its key deleted).
    pub fn add(self, rhs: Generic<i32>, srv: &mut Server) -> (r: Result<Generic<i32>, CellError>)
        requires
            old(srv).wf(),
            fits(self.cache(), rhs.cache(), int_op(0)),
        ensures
            final(srv).wf(),
            final(srv).clock() == old(srv).clock(),
            absorbed(self, rhs, int_op(0), old(srv).data(), old(srv).clock(), final(srv).data(), r),
    {
        self.combine(rhs, 0, srv)
    }

    /// The difference with the right cell's value; the right cell is used up.
    pub fn sub(self, rhs: Generic<i32>, srv: &mut Server) -> (r: Result<Generic<i32>, CellError>)
        requires
            old(srv).wf(),
            fits(self.cache(), rhs.cache(), int_op(1)),
        ensures
            final(srv).wf(),
            final(srv).clock() == old(srv).clock(),
            absorbed(self, rhs, int_op(1), old(srv).data(), old(srv).clock(), final(srv).data(), r),
    {
        self.combine(rhs, 1, srv)
    }

    /// The product with the right cell's value; the right cell is used up.
    pub fn mul(self, rhs: Generic<i32>, srv: &mut Server) -> (r: Result<Generic<i32>, CellError>)
        requires
            old(srv).wf(),
            fits(self.cache(), rhs.cache(), int_op(2)),
        ensures
            final(srv).wf(),
            final(srv).clock() == old(srv).clock(),
            absorbed(self, rhs, int_op(2), old(srv).data(), old(srv).clock(), final(srv).data(), r),
    {
        self.combine(rhs, 2, srv)
    }

    /// The quotient (rounded toward zero) by the right cell's value; the right cell is used up.
    pub fn div(self, rhs: Generic<i32>, srv: &mut Server) -> (r: Result<Generic<i32>, CellError>)
        requires
            old(srv).wf(),
            fits(self.cache(), rhs.cache(), int_op(3)),
            rhs.cache() != Some(0i32),
        ensures
            final(srv).wf(),
            final(srv).clock() == old(srv).clock(),
            absorbed(self, rhs, int_op(3), old(srv).data(), old(srv).clock(), final(srv).data(), r),
    {
        self.combine(rhs, 3, srv)
    }

    /// Adds the right cell's value in place; the right cell is used up. `NotFound` (this cell
    /// unchanged) where its cache is empty.
    pub fn add_assign(&mut self, rhs: Generic<i32>, srv: &mut Server) -> (r: Result<(), CellError>)
        requires
            old(srv).wf(),
            fits(old(self).cache(), rhs.cache(), int_op(0)),
        ensures
            final(srv).wf(),
            final(srv).clock() == old(srv).clock(),
            final(self).key() == old(self).key(),
            rhs.cache() is None ==> r == Err::<(), CellError>(CellError::NotFound) && *final(self) == *old(self)
                && final(srv).data() == old(srv).data().remove(rhs.key()),
            rhs.cache() matches Some(b) ==> {
                let v = folded(old(self).cache(), b, int_op(0)) as i32;
                &&& r is Ok && final(self).cache() == Some(v)
                &&& final(srv).data() == stored::<i32>(old(srv).data().remove(rhs.key()), old(srv).clock(), old(self).key(), v)
            },
    {
        self.assign(rhs, true, srv)
    }

    /// Subtracts the right cell's value in place; the right cell is used up. `NotFound` (this
    /// cell unchanged) where its cache is empty.
    pub fn sub_assign(&mut self, rhs: Generic<i32>, srv: &mut Server) -> (r: Result<(), CellError>)
        requires
            old(srv).wf(),
            fits(old(self).cache(), rhs.cache(), int_op(1)),
        ensures
            final(srv).wf(),
            final(srv).clock() == old(srv).clock(),
            final(self).key() == old(self).key(),
            rhs.cache() is None ==> r == Err::<(), CellError>(CellError::NotFound) && *final(self) == *old(self)
                && final(srv).data() == old(srv).data().remove(rhs.key()),
            rhs.cache() matches Some(b) ==> {
                let v = folded(old(self).cache(), b, int_op(1)) as i32;
                &&& r is Ok && final(self).cache() == Some(v)
                &&& final(srv).data() == stored::<i32>(old(srv).data().remove(rhs.key()), old(srv).clock(), old(self).key(), v)
            },
    {
        self.assign(rhs, false, srv)
    }

    fn assign(&mut self, rhs: Generic<i32>, plus: bool, srv: &mut Server) -> (r: Result<(), CellError>)
        requires
            old(srv).wf(),
            fits(old(self).cache(), rhs.cache(), int_op(if plus { 0 } else { 1 })),
        ensures
            final(srv).wf(),
            final(srv).clock() == old(srv).clock(),
            final(self).key() == old(self).key(),
            rhs.cache() is None ==> r == Err::<(), CellError>(CellError::NotFound) && *final(self) == *old(self)
                && final(srv).data() == old(srv).data().remove(rhs.key()),
            rhs.cache() matches Some(b) ==> {
                let v = folded(old(self).cache(), b, int_op(if plus { 0 } else { 1 })) as i32;
                &&& r is Ok && final(self).cache() == Some(v)
                &&& final(srv).data() == stored::<i32>(old(srv).data().remove(rhs.key()), old(srv).clock(), old(self).key(), v)
            },
    {
        let b = match rhs.into_inner(srv) {
            Ok(b) => b,
            Err(e) => {
                return Err(e);
            },
        };
        let v = match self.cache {
            Some(a) => if plus {
                a + b
            } else {
                a - b
            },
            None => b,
        };
        self.store(v, srv);
        Ok(())
    }
}

/// The boolean operation numbered `op`: and, or, exclusive or.
pub open spec fn bool_op(op: u8, a: bool, b: bool) -> bool {
    if op == 0 {
        a && b
    } else if op == 1 {
        a || b
    } else {
        a != b
    }
}

impl Generic<bool> {
    fn combine_bool(self, rhs: Generic<bool>, op: u8, srv: &mut Server) -> (r: Result<Generic<bool>, CellError>)
        requires
            old(srv).wf(),
        ensures
            final(srv).wf(),
            final(srv).clock() == old(srv).clock(),
            rhs.cache() is None ==> r == Err::<Generic<bool>, CellError>(CellError::NotFound) && final(srv).data()
                == old(srv).data().remove(rhs.key()),
            rhs.cache() matches Some(b) ==> {
                let v = match self.cache() {
                    Some(a) => bool_op(op, a, b),
                    None => b,
                };
                &&& r matches Ok(g) && g.key() == self.key() && g.cache() == Some(v)
                &&& final(srv).data() == stored::<bool>(old(srv).data().remove(rhs.key()), old(srv).clock(), self.key(), v)
            },
    {
        let b = match rhs.into_inner(srv) {
            Ok(b) => b,
            Err(e) => {
                return Err(e);
            },
        };
        let mut me = self;
        let v = match me.cache {
            Some(a) => if op == 0 {
                a && b
            } else if op == 1 {
                a || b
            } else {
                a != b
            },
            None => b,
        };
        me.store(v, srv);
        Ok(me)
    }

    /// The conjunction with the right cell's value; the right cell is used up.
    pub fn bitand(self, rhs: Generic<bool>, srv: &mut Server) -> (r: Result<Generic<bool>, CellError>)
        requires
            old(srv).wf(),
        ensures
            final(srv).wf(),
            final(srv).clock() == old(srv).clock(),
            rhs.cache() is None ==> r == Err::<Generic<bool>, CellError>(CellError::NotFound) && final(srv).data()
                == old(srv).data().remove(rhs.key()),
            rhs.cache() matches Some(b) ==> {
                let v = match self.cache() {
                    Some(a) => a && b,
                    None => b,
                };
                &&& r matches Ok(g) && g.key() == self.key() && g.cache() == Some(v)
                &&& final(srv).data() == stored::<bool>(old(srv).data().remove(rhs.key()), old(srv).clock(), self.key(), v)
            },
    {
        self.combine_bool(rhs, 0, srv)
    }

    /// The disjunction with the right cell's value; the right cell is used up.
    pub fn bitor(self, rhs: Generic<bool>, srv: &mut Server) -> (r: Result<Generic<bool>, CellError>)
        requires
            old(srv).wf(),
        ensures
            final(srv).wf(),
            final(srv).clock() == old(srv).clock(),
            rhs.cache() is None ==> r == Err::<Generic<bool>, CellError>(CellError::NotFound) && final(srv).data()
                == old(srv).data().remove(rhs.key()),
            rhs.cache() matches Some(b) ==> {
                let v = match self.cache() {
                    Some(a) => a || b,
                    None => b,
                };
                &&& r matches Ok(g) && g.key() == self.key() && g.cache() == Some(v)
                &&& final(srv).data() == stored::<bool>(old(srv).data().remove(rhs.key()), old(srv).clock(), self.key(), v)
            },
    {
        self.combine_bool(rhs, 1, srv)
    }

    /// The exclusive or with the right cell's value; the right cell is used up.
    pub fn bitxor(self, rhs: Generic<bool>, srv: &mut Server) -> (r: Result<Generic<bool>, CellError>)
        requires
            old(srv).wf(),
        ensures
            final(srv).wf(),
            final(srv).clock() == old(srv).clock(),
            rhs.cache() is None ==> r == Err::<Generic<bool>, CellError>(CellError::NotFound) && final(srv).data()
                == old(srv).data().remove(rhs.key()),
            rhs.cache() matches Some(b) ==> {
                let v = match self.cache() {
                    Some(a) => a != b,
                    None => b,
                };
                &&& r matches Ok(g) && g.key() == self.key() && g.cache() == Some(v)
                &&& final(srv).data() == stored::<bool>(old(srv).data().remove(rhs.key()), old(srv).clock(), self.key(), v)
            },
    {
        self.combine_bool(rhs, 2, srv)
    }
}

impl Generic<String> {
    /// Appends `rhs` to the cached text (an empty cache counts as empty text) and stores it.
    pub fn push_str(&mut self, rhs: &str, srv: &mut Server)
        requires
            old(srv).wf(),
        ensures
            final(srv).wf(),
            final(srv).clock() == old(srv).clock(),
            final(self).key() == old(self).key(),
            ({
                let v = match old(self).cache() {
                    Some(a) => a + rhs@,
                    None => rhs@,
                };
                &&& final(self).cache() == Some(v)
                &&& final(srv).data() == stored::<String>(old(srv).data(), old(srv).clock(), old(self).key(), v)
            }),
    {
        let v = match &self.cache {
            Some(a) => a.clone().concat(rhs),
            None => String::from_str(rhs),
        };
        self.store(v, srv);
    }

    /// Appends the right cell's cached text and stores it; the right cell is left as it is.
    pub fn concat(self, rhs: &Generic<String>, srv: &mut Server) -> (r: Generic<String>)
        requires
            old(srv).wf(),
            rhs.cache() is Some,
        ensures
            final(srv).wf(),
            final(srv).clock() == old(srv).clock(),
            r.key() == self.key(),
            ({
                let v = match self.cache() {
                    Some(a) => a + rhs.cache()->0,
                    None => rhs.cache()->0,
                };
                &&& r.cache() == Some(v)
                &&& final(srv).data() == stored::<String>(old(srv).data(), old(srv).clock(), self.key(), v)
            }),
    {
        let mut me = self;
        match &rhs.cache {
            Some(b) => me.push_str(b.as_str(), srv),
            None => {},
        }
        me
    }
}

} // verus!
