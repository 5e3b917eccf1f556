use vstd::prelude::*;
use crate::codec::{decimal, numbered_key, sub_key};
use vstd::string::StringExecFns;
use crate::mutex::{draw, next_token, uuids_key};
use crate::store::{num_at, prefixed, put, Db, Server, Val};

verus! {

/// Lease of a waiting party's presence and of the leader's election, in ms.
pub const WAIT_TTL_MS: u64 = 2000;

/// Prefix of the presence keys of waiting parties.
pub open spec fn waiting_prefix(k: Seq<char>) -> Seq<char> {
    k + ":waiting:"@
}

/// Presence key of party `u`.
pub open spec fn waiting_key(k: Seq<char>, u: u64) -> Seq<char> {
    waiting_prefix(k) + decimal(u as int)
}

/// Key of the elected leader's token.
pub open spec fn leader_key(k: Seq<char>) -> Seq<char> {
    k + ":leader"@
}

/// What one waiting step tells a party.
#[derive(PartialEq, Eq, Structural)]
pub enum Arrival {
    /// Fewer than the full number of parties are present: call again.
    Waiting,
    /// All have arrived and this party leads.
    Leader,
    /// All have arrived and another party leads.
    Follower,
}

/// The server with party `u`'s presence renewed.
pub open spec fn present(db: Db, now: u64, k: Seq<char>, u: u64) -> Db {
    put(db, now, waiting_key(k, u), Val::Num(1), Some(WAIT_TTL_MS))
}

/// The waiting step of party `u` of `n`.
pub open spec fn wait_step(db: Db, now: u64, k: Seq<char>, u: u64, n: nat) -> (Db, Arrival) {
    let db1 = present(db, now, k, u);
    if db1.contains_key(leader_key(k)) {
        (db1, if num_at(db1, leader_key(k)) == Some(u) { Arrival::Leader } else { Arrival::Follower })
    } else if prefixed(db1, waiting_prefix(k)).len() < n {
        (db1, Arrival::Waiting)
    } else {
        (put(db1, now, leader_key(k), Val::Num(u), Some(WAIT_TTL_MS)), Arrival::Leader)
    }
}

/// The leaving step of party `u`: its presence goes, and the last one to leave clears the
/// election and the token counter so that the key can hold another round.
pub open spec fn leave_step(db: Db, k: Seq<char>, u: u64) -> Db {
    let db1 = db.remove(waiting_key(k, u));
    if prefixed(db1, waiting_prefix(k)).len() == 0 {
        db1.remove(leader_key(k)).remove(uuids_key(k))
    } else {
        db1
    }
}

/// Runs the waiting step on the server.
pub fn wait_script(srv: &mut Server, k: &String, u: u64, n: usize) -> (r: Arrival)
    requires
        old(srv).wf(),
    ensures
        final(srv).wf(),
        final(srv).clock() == old(srv).clock(),
        (final(srv).data(), r) == wait_step(old(srv).data(), old(srv).clock(), k@, u, n as nat),
{
    let mine = numbered_key(k, ":waiting:", u);
    srv.set_num(&mine, 1, Some(WAIT_TTL_MS));
    let lk = sub_key(k, ":leader");
    if srv.contains(&lk) {
        if srv.get_num(&lk) == Some(u) {
            return Arrival::Leader;
        } else {
            return Arrival::Follower;
        }
    }
    let prefix = sub_key(k, ":waiting:");
    if srv.count_prefixed(&prefix) < n {
        return Arrival::Waiting;
    }
    srv.set_num(&lk, u, Some(WAIT_TTL_MS));
    Arrival::Leader
}

/// Runs the leaving step on the server.
pub fn leave_script(srv: &mut Server, k: &String, u: u64)
    requires
        old(srv).wf(),
    ensures
        final(srv).wf(),
        final(srv).clock() == old(srv).clock(),
        final(srv).data() == leave_step(old(srv).data(), k@, u),
{
    let mine = numbered_key(k, ":waiting:", u);
    srv.del(&mine);
    let prefix = sub_key(k, ":waiting:");
    if srv.count_prefixed(&prefix) == 0 {
        let lk = sub_key(k, ":leader");
        let uk = sub_key(k, ":uuids");
        srv.del(&lk);
        srv.del(&uk);
    }
}

/// Handed to each party once all have arrived: exactly one of them leads.
pub struct BarrierWaitResult(bool);

impl BarrierWaitResult {
    pub closed spec fn leader(&self) -> bool {
        self.0
    }

    /// Whether this party leads the round.
    pub fn is_leader(&self) -> (r: bool)
        ensures
            r == self.leader(),
    {
        self.0
    }
}

/// One party of a rendezvous of `num` parties under a key, reusable round after round.
pub struct Barrier {
    uuid: u64,
    num: usize,
    key: String,
}

impl Barrier {
    pub closed spec fn token(&self) -> u64 {
        self.uuid
    }

    pub closed spec fn parties(&self) -> nat {
        self.num as nat
    }

    pub closed spec fn key(&self) -> Seq<char> {
        self.key@
    }

    /// A party of `num` under `key`, with a fresh token from the key's token counter; `None`
    /// where no token can be drawn.
    pub fn new(num: usize, key: &str, srv: &mut Server) -> (r: Option<Barrier>)
        requires
            old(srv).wf(),
        ensures
            final(srv).wf(),
            final(srv).clock() == old(srv).clock(),
            ({
                let (db, t) = draw(old(srv).data(), uuids_key(key@));
                &&& final(srv).data() == db
                &&& t matches Some(u) ==> (r matches Some(b) && b.token() == u && b.key() == key@ && b.parties() == num)
                &&& t is None ==> r is None
            }),
    {
        let key = String::from_str(key);
        let counter = sub_key(&key, ":uuids");
        match next_token(srv, &counter) {
            Some(uuid) => Some(Barrier { uuid, num, key }),
            None => None,
        }
    }

    /// One waiting step: renews this party's presence and, once all `num` are present,
    /// elects a leader. `None` while the party must call again.
    pub fn wait(&mut self, srv: &mut Server) -> (r: Option<BarrierWaitResult>)
        requires
            old(srv).wf(),
        ensures
            final(srv).wf(),
            final(srv).clock() == old(srv).clock(),
            *final(self) == *old(self),
            ({
                let (db, a) = wait_step(old(srv).data(), old(srv).clock(), old(self).key(), old(self).token(), old(self).parties());
                &&& final(srv).data() == db
                &&& (r is None <==> a == Arrival::Waiting)
                &&& r matches Some(w) ==> (w.leader() <==> a == Arrival::Leader)
            }),
    {
        match wait_script(srv, &self.key, self.uuid, self.num) {
            Arrival::Waiting => None,
            Arrival::Leader => Some(BarrierWaitResult(true)),
            Arrival::Follower => Some(BarrierWaitResult(false)),
        }
    }

    /// Leaves the barrier; the last party to leave clears the round.
    pub fn release(self, srv: &mut Server)
        requires
            old(srv).wf(),
        ensures
            final(srv).wf(),
            final(srv).clock() == old(srv).clock(),
            final(srv).data() == leave_step(old(srv).data(), self.key(), self.token()),
    {
        leave_script(srv, &self.key, self.uuid);
    }
}

} // verus!
