use vstd::prelude::*;

verus! {

/// What one key of the store holds.
pub enum Entry {
    Text(String),
    Num(u64),
    Items(Vec<String>),
}

/// The mathematical form of an [`Entry`].
pub enum Val {
    Text(Seq<char>),
    Num(u64),
    Items(Seq<Seq<char>>),
}

impl Entry {
    pub open spec fn val(&self) -> Val {
        match self {
            Entry::Text(s) => Val::Text(s@),
            Entry::Num(n) => Val::Num(*n),
            Entry::Items(v) => Val::Items(v@.map_values(|s: String| s@)),
        }
    }
}

/// A live key's value and, where it has a lease, the instant (in ms) at which it lapses.
pub struct Rec {
    pub val: Val,
    pub expires: Option<u64>,
}

/// The contents of the store: each live key with its record.
pub type Db = Map<Seq<char>, Rec>;

/// A key with the given lapse instant is still present at time `now`.
pub open spec fn live(expires: Option<u64>, now: u64) -> bool {
    match expires {
        None => true,
        Some(t) => now < t,
    }
}

/// The lapse instant of a lease of `ttl` ms taken at `now`.
pub open spec fn deadline(now: u64, ttl: u64) -> u64 {
    if now + ttl > u64::MAX {
        u64::MAX
    } else {
        (now + ttl) as u64
    }
}

/// The keys of `db` that start with `p`.
pub open spec fn prefixed(db: Db, p: Seq<char>) -> Set<Seq<char>> {
    db.dom().filter(|k: Seq<char>| p.is_prefix_of(k))
}

/// What remains of `db` once the clock reads `t`.
pub open spec fn lapse(db: Db, t: u64) -> Db {
    Map::new(|k: Seq<char>| db.contains_key(k) && live(db[k].expires, t), |k: Seq<char>| db[k])
}

/// The text under `k`, if `k` holds text.
pub open spec fn text_at(db: Db, k: Seq<char>) -> Option<Seq<char>> {
    if db.contains_key(k) {
        match db[k].val {
            Val::Text(s) => Some(s),
            _ => None,
        }
    } else {
        None
    }
}

/// The number under `k`, if `k` holds a number.
pub open spec fn num_at(db: Db, k: Seq<char>) -> Option<u64> {
    if db.contains_key(k) {
        match db[k].val {
            Val::Num(n) => Some(n),
            _ => None,
        }
    } else {
        None
    }
}

/// The list under `k`: empty where `k` is absent, `None` where `k` holds no list.
pub open spec fn items_at(db: Db, k: Seq<char>) -> Option<Seq<Seq<char>>> {
    if db.contains_key(k) {
        match db[k].val {
            Val::Items(s) => Some(s),
            _ => None,
        }
    } else {
        Some(Seq::empty())
    }
}

/// `db` with `k` set to `v`, leased for `ttl` ms from `now` where a lease is given.
pub open spec fn put(db: Db, now: u64, k: Seq<char>, v: Val, ttl: Option<u64>) -> Db {
    db.insert(
        k,
        Rec {
            val: v,
            expires: match ttl {
                Some(t) => Some(deadline(now, t)),
                None => None,
            },
        },
    )
}

/// `db` with the list under `k` replaced by `items` (an empty list removes the key).
pub open spec fn put_items(db: Db, k: Seq<char>, items: Seq<Seq<char>>) -> Db {
    if items.len() == 0 {
        db.remove(k)
    } else {
        db.insert(k, Rec { val: Val::Items(items), expires: None })
    }
}

struct Slot {
    key: String,
    entry: Entry,
    expires: Option<u64>,
}

spec fn rec_of(s: Slot) -> Rec {
    Rec { val: s.entry.val(), expires: s.expires }
}

spec fn view_of(s: Seq<Slot>, now: u64) -> Db
    decreases s.len(),
{
    if s.len() == 0 {
        Map::empty()
    } else {
        let m = view_of(s.drop_last(), now);
        let x = s.last();
        if live(x.expires, now) {
            m.insert(x.key@, rec_of(x))
        } else {
            m.remove(x.key@)
        }
    }
}

spec fn keys_unique(s: Seq<Slot>) -> bool {
    forall|i: int, j: int| 0 <= i < j < s.len() ==> s[i].key@ != s[j].key@
}

proof fn lemma_absent(s: Seq<Slot>, now: u64, k: Seq<char>)
    requires
        forall|i: int| 0 <= i < s.len() ==> s[i].key@ != k,
    ensures
        !view_of(s, now).contains_key(k),
    decreases s.len(),
{
    if s.len() > 0 {
        lemma_absent(s.drop_last(), now, k);
    }
}

proof fn lemma_found(s: Seq<Slot>, now: u64, i: int)
    requires
        keys_unique(s),
        0 <= i < s.len(),
    ensures
        view_of(s, now).contains_key(s[i].key@) == live(s[i].expires, now),
        live(s[i].expires, now) ==> view_of(s, now)[s[i].key@] == rec_of(s[i]),
    decreases s.len(),
{
    if i < s.len() - 1 {
        lemma_found(s.drop_last(), now, i);
    }
}

proof fn lemma_update(s: Seq<Slot>, now: u64, i: int, x: Slot)
    requires
        keys_unique(s),
        0 <= i < s.len(),
        x.key@ == s[i].key@,
    ensures
        keys_unique(s.update(i, x)),
        view_of(s.update(i, x), now) == (if live(x.expires, now) {
            view_of(s, now).insert(x.key@, rec_of(x))
        } else {
            view_of(s, now).remove(x.key@)
        }),
    decreases s.len(),
{
    let t = s.update(i, x);
    if i == s.len() - 1 {
        assert(t.drop_last() =~= s.drop_last());
        assert(view_of(t, now) =~= (if live(x.expires, now) {
            view_of(s, now).insert(x.key@, rec_of(x))
        } else {
            view_of(s, now).remove(x.key@)
        }));
    } else {
        assert(t.drop_last() =~= s.drop_last().update(i, x));
        lemma_update(s.drop_last(), now, i, x);
        assert(s.last().key@ != x.key@);
        assert(view_of(t, now) =~= (if live(x.expires, now) {
            view_of(s, now).insert(x.key@, rec_of(x))
        } else {
            view_of(s, now).remove(x.key@)
        }));
    }
}

proof fn lemma_push(s: Seq<Slot>, now: u64, x: Slot)
    requires
        keys_unique(s),
        forall|i: int| 0 <= i < s.len() ==> s[i].key@ != x.key@,
    ensures
        keys_unique(s.push(x)),
        view_of(s.push(x), now) == (if live(x.expires, now) {
            view_of(s, now).insert(x.key@, rec_of(x))
        } else {
            view_of(s, now)
        }),
{
    assert(s.push(x).drop_last() =~= s);
    lemma_absent(s, now, x.key@);
    assert(view_of(s, now).remove(x.key@) =~= view_of(s, now));
}

proof fn lemma_finite(s: Seq<Slot>, now: u64)
    ensures
        view_of(s, now).dom().finite(),
    decreases s.len(),
{
    if s.len() > 0 {
        lemma_finite(s.drop_last(), now);
    }
}

proof fn lemma_lapse(s: Seq<Slot>, t1: u64, t2: u64)
    requires
        t1 <= t2,
    ensures
        view_of(s, t2) == lapse(view_of(s, t1), t2),
    decreases s.len(),
{
    if s.len() > 0 {
        lemma_lapse(s.drop_last(), t1, t2);
        assert(view_of(s, t2) =~= lapse(view_of(s, t1), t2));
    } else {
        assert(view_of(s, t2) =~= lapse(view_of(s, t1), t2));
    }
}

/// An in-memory key-value server with a millisecond clock: the single executor that runs
/// every coordination step atomically. Keys may carry a lease; a key whose lease has
/// lapsed is gone.
pub struct Server {
    slots: Vec<Slot>,
    now: u64,
}

impl Server {
    /// The server's internal consistency, which every operation keeps.
    pub closed spec fn wf(&self) -> bool {
        &&& keys_unique(self.slots@)
        &&& self.now < u64::MAX
    }

    /// The live keys and their records.
    pub closed spec fn data(&self) -> Db {
        view_of(self.slots@, self.now)
    }

    /// The clock, in milliseconds.
    pub closed spec fn clock(&self) -> u64 {
        self.now
    }

    pub proof fn lemma_data_finite(&self)
        ensures
            self.data().dom().finite(),
    {
        lemma_finite(self.slots@, self.now);
    }

    /// An empty server whose clock reads zero.
    pub fn new() -> (r: Server)
        ensures
            r.wf(),
            r.data() == Db::empty(),
            r.clock() == 0,
    {
        let r = Server { slots: Vec::new(), now: 0 };
        assert(r.data() =~= Db::empty());
        r
    }

    /// The clock, in milliseconds.
    pub fn now(&self) -> (r: u64)
        requires
            self.wf(),
        ensures
            r == self.clock(),
    {
        self.now
    }

    /// Lets `ms` milliseconds pass: every lease that lapses meanwhile ends.
    pub fn advance(&mut self, ms: u64)
        requires
            old(self).wf(),
            old(self).clock() + ms < u64::MAX,
        ensures
            final(self).wf(),
            final(self).clock() == old(self).clock() + ms,
            final(self).data() == lapse(old(self).data(), final(self).clock()),
    {
        proof {
            lemma_lapse(self.slots@, self.now, (self.now + ms) as u64);
        }
        self.now = self.now + ms;
    }

    fn find(&self, key: &String) -> (r: Option<usize>)
        requires
            self.wf(),
        ensures
            match r {
                Some(i) => i < self.slots@.len() && self.slots@[i as int].key@ == key@,
                None => forall|j: int| 0 <= j < self.slots@.len() ==> self.slots@[j].key@ != key@,
            },
    {
        let mut i: usize = 0;
        while i < self.slots.len()
            invariant
                i <= self.slots@.len(),
                forall|j: int| 0 <= j < i ==> self.slots@[j].key@ != key@,
            decreases self.slots@.len() - i,
        {
            if self.slots[i].key == *key {
                return Some(i);
            }
            i = i + 1;
        }
        None
    }

    /// Where `key` is live, its entry.
    fn lookup(&self, key: &String) -> (r: Option<&Entry>)
        requires
            self.wf(),
        ensures
            match r {
                Some(e) => self.data().contains_key(key@) && self.data()[key@].val == e.val(),
                None => !self.data().contains_key(key@),
            },
    {
        match self.find(key) {
            Some(i) => {
                proof {
                    lemma_found(self.slots@, self.now, i as int);
                }
                if self.is_live(i) {
                    Some(&self.slots[i].entry)
                } else {
                    None
                }
            },
            None => {
                proof {
                    lemma_absent(self.slots@, self.now, key@);
                }
                None
            },
        }
    }

    fn is_live(&self, i: usize) -> (r: bool)
        requires
            self.wf(),
            i < self.slots@.len(),
        ensures
            r == live(self.slots@[i as int].expires, self.now),
    {
        match self.slots[i].expires {
            None => true,
            Some(t) => self.now < t,
        }
    }

    /// Writes `key` with the given lapse instant, which must lie ahead of the clock.
    fn write(&mut self, key: &String, entry: Entry, expires: Option<u64>)
        requires
            old(self).wf(),
            live(expires, old(self).clock()),
        ensures
            final(self).wf(),
            final(self).clock() == old(self).clock(),
            final(self).data() == old(self).data().insert(key@, Rec { val: entry.val(), expires }),
    {
        let ghost v = entry.val();
        let slot = Slot { key: key.clone(), entry, expires };
        match self.find(key) {
            Some(i) => {
                proof {
                    lemma_update(self.slots@, self.now, i as int, slot);
                }
                self.slots.set(i, slot);
            },
            None => {
                proof {
                    lemma_push(self.slots@, self.now, slot);
                }
                self.slots.push(slot);
            },
        }
    }

    fn lease(&self, ttl: Option<u64>) -> (r: Option<u64>)
        requires
            self.wf(),
            ttl matches Some(t) ==> t > 0,
        ensures
            r == (match ttl {
                Some(t) => Some(deadline(self.clock(), t)),
                None => None,
            }),
            live(r, self.clock()),
    {
        match ttl {
            Some(t) => Some(self.now.saturating_add(t)),
            None => None,
        }
    }

    /// Removes `key`; returns whether it was live.
    pub fn del(&mut self, key: &String) -> (r: bool)
        requires
            old(self).wf(),
        ensures
            final(self).wf(),
            final(self).clock() == old(self).clock(),
            r == old(self).data().contains_key(key@),
            final(self).data() == old(self).data().remove(key@),
    {
        match self.find(key) {
            Some(i) => {
                proof {
                    lemma_found(self.slots@, self.now, i as int);
                }
                let was = self.is_live(i);
                let slot = Slot { key: key.clone(), entry: Entry::Num(0), expires: Some(0) };
                proof {
                    lemma_update(self.slots@, self.now, i as int, slot);
                }
                self.slots.set(i, slot);
                proof {
                    if !was {
                        assert(old(self).data().remove(key@) =~= old(self).data());
                    }
                }
                was
            },
            None => {
                proof {
                    lemma_absent(self.slots@, self.now, key@);
                    assert(self.data().remove(key@) =~= self.data());
                }
                false
            },
        }
    }

    /// Whether `key` is live.
    pub fn contains(&self, key: &String) -> (r: bool)
        requires
            self.wf(),
        ensures
            r == self.data().contains_key(key@),
    {
        self.lookup(key).is_some()
    }

    /// The text under `key`, if it holds text.
    pub fn get_text(&self, key: &String) -> (r: Option<String>)
        requires
            self.wf(),
        ensures
            match r {
                Some(s) => text_at(self.data(), key@) == Some(s@),
                None => text_at(self.data(), key@) is None,
            },
    {
        match self.lookup(key) {
            Some(Entry::Text(s)) => Some(s.clone()),
            _ => None,
        }
    }

    /// The number under `key`, if it holds a number.
    pub fn get_num(&self, key: &String) -> (r: Option<u64>)
        requires
            self.wf(),
        ensures
            r == num_at(self.data(), key@),
    {
        match self.lookup(key) {
            Some(Entry::Num(n)) => Some(*n),
            _ => None,
        }
    }

    /// Sets `key` to the text `value`, leased for `ttl` ms where given.
    pub fn set_text(&mut self, key: &String, value: String, ttl: Option<u64>)
        requires
            old(self).wf(),
            ttl matches Some(t) ==> t > 0,
        ensures
            final(self).wf(),
            final(self).clock() == old(self).clock(),
            final(self).data() == put(old(self).data(), old(self).clock(), key@, Val::Text(value@), ttl),
    {
        let e = self.lease(ttl);
        self.write(key, Entry::Text(value), e);
    }

    /// Sets `key` to the number `n`, leased for `ttl` ms where given.
    pub fn set_num(&mut self, key: &String, n: u64, ttl: Option<u64>)
        requires
            old(self).wf(),
            ttl matches Some(t) ==> t > 0,
        ensures
            final(self).wf(),
            final(self).clock() == old(self).clock(),
            final(self).data() == put(old(self).data(), old(self).clock(), key@, Val::Num(n), ttl),
    {
        let e = self.lease(ttl);
        self.write(key, Entry::Num(n), e);
    }

    /// Adds one to the number under `key` (an absent key counts as zero), keeping its lease.
    /// Refused (`None`, nothing changed) where `key` holds no number or the number is at its
    /// maximum.
    pub fn incr(&mut self, key: &String) -> (r: Option<u64>)
        requires
            old(self).wf(),
        ensures
            final(self).wf(),
            final(self).clock() == old(self).clock(),
            !old(self).data().contains_key(key@) ==> r == Some(1u64) && final(self).data()
                == put(old(self).data(), old(self).clock(), key@, Val::Num(1), None),
            old(self).data().contains_key(key@) ==> match old(self).data()[key@].val {
                Val::Num(n) => if n < u64::MAX {
                    r == Some((n + 1) as u64) && final(self).data() == old(self).data().insert(
                        key@,
                        Rec { val: Val::Num((n + 1) as u64), expires: old(self).data()[key@].expires },
                    )
                } else {
                    r is None && final(self).data() == old(self).data()
                },
                _ => r is None && final(self).data() == old(self).data(),
            },
    {
        match self.find(key) {
            Some(i) => {
                proof {
                    lemma_found(self.slots@, self.now, i as int);
                }
                if !self.is_live(i) {
                    self.write(key, Entry::Num(1), None);
                    return Some(1);
                }
                let n = match &self.slots[i].entry {
                    Entry::Num(n) => *n,
                    _ => {
                        return None;
                    },
                };
                if n == u64::MAX {
                    return None;
                }
                let expires = self.slots[i].expires;
                self.write(key, Entry::Num(n + 1), expires);
                Some(n + 1)
            },
            None => {
                proof {
                    lemma_absent(self.slots@, self.now, key@);
                }
                self.write(key, Entry::Num(1), None);
                Some(1)
            },
        }
    }

    /// Gives a live `key` a fresh lease of `ttl` ms; returns whether `key` was live.
    pub fn expire(&mut self, key: &String, ttl: u64) -> (r: bool)
        requires
            old(self).wf(),
            ttl > 0,
        ensures
            final(self).wf(),
            final(self).clock() == old(self).clock(),
            r == old(self).data().contains_key(key@),
            r ==> final(self).data() == old(self).data().insert(
                key@,
                Rec { val: old(self).data()[key@].val, expires: Some(deadline(old(self).clock(), ttl)) },
            ),
            !r ==> final(self).data() == old(self).data(),
    {
        match self.find(key) {
            Some(i) => {
                proof {
                    lemma_found(self.slots@, self.now, i as int);
                }
                if !self.is_live(i) {
                    return false;
                }
                let e = self.lease(Some(ttl));
                let ghost x = Slot { expires: e, ..self.slots@[i as int] };
                proof {
                    lemma_update(self.slots@, self.now, i as int, x);
                }
                self.slots[i].expires = e;
                proof {
                    assert(self.slots@ =~= old(self).slots@.update(i as int, x));
                }
                true
            },
            None => {
                proof {
                    lemma_absent(self.slots@, self.now, key@);
                }
                false
            },
        }
    }

    /// The number of live keys that start with `prefix`.
    pub fn count_prefixed(&self, prefix: &String) -> (r: usize)
        requires
            self.wf(),
        ensures
            r == prefixed(self.data(), prefix@).len(),
    {
        let ghost s = self.slots@;
        let mut n: usize = 0;
        let mut i: usize = 0;
        proof {
            assert(s.subrange(0, 0) =~= Seq::<Slot>::empty());
            assert(prefixed(view_of(s.subrange(0, 0), self.now), prefix@) =~= Set::<Seq<char>>::empty());
        }
        while i < self.slots.len()
            invariant
                self.wf(),
                s == self.slots@,
                keys_unique(s),
                i <= s.len(),
                n <= i,
                n == prefixed(view_of(s.subrange(0, i as int), self.now), prefix@).len(),
            decreases s.len() - i,
        {
            let ghost pre = s.subrange(0, i as int);
            let ghost m = view_of(pre, self.now);
            let ghost x = s[i as int];
            proof {
                assert(s.subrange(0, i + 1).drop_last() =~= pre);
                assert(keys_unique(pre));
                lemma_absent(pre, self.now, x.key@);
                lemma_finite(pre, self.now);
                m.dom().lemma_len_filter(|k: Seq<char>| prefix@.is_prefix_of(k));
            }
            let hit = self.is_live(i) && starts_with(&self.slots[i].key, prefix);
            proof {
                let m2 = view_of(s.subrange(0, i + 1), self.now);
                if live(x.expires, self.now) {
                    if prefix@.is_prefix_of(x.key@) {
                        assert(prefixed(m2, prefix@) =~= prefixed(m, prefix@).insert(x.key@));
                    } else {
                        assert(prefixed(m2, prefix@) =~= prefixed(m, prefix@));
                    }
                } else {
                    assert(m2 =~= m);
                }
            }
            if hit {
                n = n + 1;
            }
            i = i + 1;
        }
        proof {
            assert(s.subrange(0, s.len() as int) =~= s);
        }
        n
    }

    /// Takes the list under `key` out of the store; `None` (nothing changed) where `key` holds
    /// something else.
    fn take_items(&mut self, key: &String) -> (r: Option<Vec<String>>)
        requires
            old(self).wf(),
        ensures
            final(self).wf(),
            final(self).clock() == old(self).clock(),
            match items_at(old(self).data(), key@) {
                Some(s) => r matches Some(v) && v@.map_values(|x: String| x@) == s
                    && final(self).data() == old(self).data().remove(key@),
                None => r is None && final(self).data() == old(self).data(),
            },
    {
        match self.find(key) {
            Some(i) => {
                proof {
                    lemma_found(self.slots@, self.now, i as int);
                }
                if !self.is_live(i) {
                    let v: Vec<String> = Vec::new();
                    proof {
                        assert(old(self).data().remove(key@) =~= old(self).data());
                        assert(v@.map_values(|x: String| x@) =~= Seq::<Seq<char>>::empty());
                    }
                    return Some(v);
                }
                let is_list = match &self.slots[i].entry {
                    Entry::Items(_) => true,
                    _ => false,
                };
                if !is_list {
                    return None;
                }
                let dead = Slot { key: key.clone(), entry: Entry::Num(0), expires: Some(0) };
                proof {
                    lemma_update(self.slots@, self.now, i as int, dead);
                }
                let mut taken = dead;
                std::mem::swap(&mut self.slots[i], &mut taken);
                proof {
                    assert(self.slots@ =~= old(self).slots@.update(i as int, dead));
                }
                match taken.entry {
                    Entry::Items(v) => Some(v),
                    _ => None,
                }
            },
            None => {
                let v: Vec<String> = Vec::new();
                proof {
                    lemma_absent(self.slots@, self.now, key@);
                    assert(old(self).data().remove(key@) =~= old(self).data());
                    assert(v@.map_values(|x: String| x@) =~= Seq::<Seq<char>>::empty());
                }
                Some(v)
            },
        }
    }

    /// Replaces the list under `key` by `items`; an empty list removes `key`.
    pub fn put_items(&mut self, key: &String, items: Vec<String>)
        requires
            old(self).wf(),
        ensures
            final(self).wf(),
            final(self).clock() == old(self).clock(),
            final(self).data() == put_items(old(self).data(), key@, items@.map_values(|x: String| x@)),
    {
        if items.len() == 0 {
            self.del(key);
            proof {
                assert(items@.map_values(|x: String| x@).len() == 0);
            }
        } else {
            self.write(key, Entry::Items(items), None);
        }
    }

    /// Adds `item` at the front (or the back) of the list under `key`; returns the new length,
    /// or `None` (nothing changed) where `key` holds no list.
    pub fn push_item(&mut self, key: &String, item: String, front: bool) -> (r: Option<usize>)
        requires
            old(self).wf(),
        ensures
            final(self).wf(),
            final(self).clock() == old(self).clock(),
            match items_at(old(self).data(), key@) {
                Some(s) => r == Some((s.len() + 1) as usize) && final(self).data() == put_items(
                    old(self).data(),
                    key@,
                    if front { seq![item@] + s } else { s.push(item@) },
                ),
                None => r is None && final(self).data() == old(self).data(),
            },
    {
        match self.take_items(key) {
            Some(mut v) => {
                let ghost s = v@.map_values(|x: String| x@);
                let ghost item_v = item@;
                if front {
                    v.insert(0, item);
                    proof {
                        assert(v@.map_values(|x: String| x@) =~= seq![item_v] + s);
                    }
                } else {
                    v.push(item);
                    proof {
                        assert(v@.map_values(|x: String| x@) =~= s.push(item_v));
                    }
                }
                let n = v.len();
                self.put_items(key, v);
                proof {
                    assert(final(self).data() =~= put_items(old(self).data(), key@,
                        if front { seq![item_v] + s } else { s.push(item_v) }));
                }
                Some(n)
            },
            None => None,
        }
    }

    /// Removes and returns the first (or the last) item of the list under `key`; `None` where
    /// the list is empty or `key` holds no list.
    pub fn pop_item(&mut self, key: &String, front: bool) -> (r: Option<String>)
        requires
            old(self).wf(),
        ensures
            final(self).wf(),
            final(self).clock() == old(self).clock(),
            match items_at(old(self).data(), key@) {
                Some(s) => if s.len() == 0 {
                    r is None && final(self).data() == put_items(old(self).data(), key@, s)
                } else {
                    r matches Some(x) && x@ == (if front { s[0] } else { s.last() })
                        && final(self).data() == put_items(
                        old(self).data(),
                        key@,
                        if front { s.drop_first() } else { s.drop_last() },
                    )
                },
                None => r is None && final(self).data() == old(self).data(),
            },
    {
        match self.take_items(key) {
            Some(mut v) => {
                let ghost s = v@.map_values(|x: String| x@);
                if v.len() == 0 {
                    return None;
                }
                let x = if front {
                    v.remove(0)
                } else {
                    v.pop().unwrap()
                };
                proof {
                    if front {
                        assert(v@.map_values(|x: String| x@) =~= s.drop_first());
                    } else {
                        assert(v@.map_values(|x: String| x@) =~= s.drop_last());
                    }
                }
                self.put_items(key, v);
                proof {
                    assert(final(self).data() =~= put_items(old(self).data(), key@,
                        if front { s.drop_first() } else { s.drop_last() }));
                }
                Some(x)
            },
            None => None,
        }
    }

    /// The length of the list under `key` (zero where absent); `None` where `key` holds no list.
    pub fn list_len(&self, key: &String) -> (r: Option<usize>)
        requires
            self.wf(),
        ensures
            match items_at(self.data(), key@) {
                Some(s) => r matches Some(n) && n == s.len(),
                None => r is None,
            },
    {
        match self.lookup(key) {
            Some(Entry::Items(v)) => Some(v.len()),
            Some(_) => None,
            None => Some(0),
        }
    }

    /// The item at `index` of the list under `key`, where there is one.
    pub fn list_get(&self, key: &String, index: usize) -> (r: Option<String>)
        requires
            self.wf(),
        ensures
            match items_at(self.data(), key@) {
                Some(s) => if index < s.len() {
                    r matches Some(x) && x@ == s[index as int]
                } else {
                    r is None
                },
                None => r is None,
            },
    {
        match self.lookup(key) {
            Some(Entry::Items(v)) => {
                if index < v.len() {
                    Some(v[index].clone())
                } else {
                    None
                }
            },
            _ => None,
        }
    }

    /// A copy of the list under `key` (empty where absent); `None` where `key` holds no list.
    pub fn list_all(&self, key: &String) -> (r: Option<Vec<String>>)
        requires
            self.wf(),
        ensures
            match items_at(self.data(), key@) {
                Some(s) => r matches Some(v) && v@.map_values(|x: String| x@) == s,
                None => r is None,
            },
    {
        match self.lookup(key) {
            Some(Entry::Items(v)) => {
                let mut out: Vec<String> = Vec::new();
                let mut i: usize = 0;
                while i < v.len()
                    invariant
                        i <= v@.len(),
                        out@.map_values(|x: String| x@) == v@.subrange(0, i as int).map_values(
                            |x: String| x@,
                        ),
                    decreases v@.len() - i,
                {
                    out.push(v[i].clone());
                    proof {
                        assert(v@.subrange(0, i + 1).map_values(|x: String| x@) =~= v@.subrange(
                            0,
                            i as int,
                        ).map_values(|x: String| x@).push(v@[i as int]@));
                        assert(out@.map_values(|x: String| x@) =~= v@.subrange(0, i as int).map_values(
                            |x: String| x@,
                        ).push(v@[i as int]@));
                    }
                    i = i + 1;
                }
                proof {
                    assert(v@.subrange(0, v@.len() as int) =~= v@);
                }
                Some(out)
            },
            Some(_) => None,
            None => {
                let v: Vec<String> = Vec::new();
                proof {
                    assert(v@.map_values(|x: String| x@) =~= Seq::<Seq<char>>::empty());
                }
                Some(v)
            },
        }
    }
}

/// Relies on `str::starts_with`: whether `s` begins with `p`.
#[verifier::external_body]
fn starts_with(s: &String, p: &String) -> (r: bool)
    ensures
        r == p@.is_prefix_of(s@),
{
    s.starts_with(p.as_str())
}

} // verus!
