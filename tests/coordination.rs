use dtypes::mutex::guarded_store_script;
use dtypes::rwlock::{reader_release_script, reader_script, writer_release_script, writer_script};
use dtypes::{
    Barrier, Di32, Generic, LockError, Mutex, RwLock, RwLockError, Server, SetLoad, SetLoadError,
};

#[test]
fn test_barrier_leader() {
    let mut srv = Server::new();
    let mut barrier = Barrier::new(1, "barrier_test_leader", &mut srv).unwrap();
    let barrier_wait_result = barrier.wait(&mut srv).unwrap();
    assert!(barrier_wait_result.is_leader());
}

#[test]
fn test_barrier_reuse() {
    let mut srv = Server::new();
    let mut barrier = Barrier::new(1, "barrier_test_reuse", &mut srv).unwrap();
    barrier.wait(&mut srv).unwrap();
    barrier.release(&mut srv);
    let mut barrier = Barrier::new(1, "barrier_test_reuse", &mut srv).unwrap();
    barrier.wait(&mut srv).unwrap();
    barrier.release(&mut srv);
}

#[test]
fn barrier_elects_exactly_one_leader() {
    let mut srv = Server::new();
    let n = 10;
    let mut parties: Vec<Barrier> = (0..n)
        .map(|_| Barrier::new(n, "barrier_ten", &mut srv).unwrap())
        .collect();
    let mut leaders = 0;
    let mut done = 0;
    for p in parties.iter_mut() {
        if let Some(w) = p.wait(&mut srv) {
            done += 1;
            if w.is_leader() {
                leaders += 1;
            }
        }
    }
    assert_eq!(done, 1);
    for p in parties.iter_mut().take(n - 1) {
        if p.wait(&mut srv).unwrap().is_leader() {
            leaders += 1;
        }
    }
    assert_eq!(leaders, 1);
}

#[test]
fn barrier_waits_for_all_parties() {
    let mut srv = Server::new();
    let mut a = Barrier::new(2, "pair", &mut srv).unwrap();
    let mut b = Barrier::new(2, "pair", &mut srv).unwrap();
    assert!(a.wait(&mut srv).is_none());
    assert!(a.wait(&mut srv).is_none());
    assert!(b.wait(&mut srv).unwrap().is_leader());
    assert!(!a.wait(&mut srv).unwrap().is_leader());
}

#[test]
fn barrier_round_leaves_nothing_behind() {
    let mut srv = Server::new();
    let mut a = Barrier::new(2, "round", &mut srv).unwrap();
    let mut b = Barrier::new(2, "round", &mut srv).unwrap();
    assert!(a.wait(&mut srv).is_none());
    assert!(b.wait(&mut srv).unwrap().is_leader());
    a.wait(&mut srv).unwrap();
    a.release(&mut srv);
    assert!(srv.contains(&"round:leader".to_string()));
    b.release(&mut srv);
    assert!(!srv.contains(&"round:leader".to_string()));
    assert!(!srv.contains(&"round:uuids".to_string()));
    let mut c = Barrier::new(1, "round", &mut srv).unwrap();
    assert!(c.wait(&mut srv).unwrap().is_leader());
    assert_eq!(srv.get_num(&"round:uuids".to_string()), Some(1));
}

#[test]
fn test_rwlock() {
    let mut srv = Server::new();
    let i32 = Di32::with_value(1, "test_rwlock", &mut srv);
    let mut lock = RwLock::new(i32);
    {
        let mut read = lock.read(&mut srv).unwrap();
        assert_eq!(read.acquire(&srv), Ok(&1));
        let mut read2 = lock.read(&mut srv).unwrap();
        assert_eq!(read2.acquire(&srv), Ok(&1));
        read.release(&mut srv).unwrap();
        read2.release(&mut srv).unwrap();
    }
    {
        let mut write = lock.write(&mut srv).unwrap();
        write.store(2, &mut srv).unwrap();
        assert_eq!(write.cached(), Some(&2));
        write.release(&mut srv).unwrap();
    }
    let mut read = lock.read(&mut srv).unwrap();
    assert_eq!(read.acquire(&srv), Ok(&2));
}

#[test]
fn test_rwlock_deadlock() {
    let mut srv = Server::new();
    let i32 = Di32::with_value(1, "test_rwlock_deadlock", &mut srv);
    let mut lock = RwLock::new(i32);
    {
        let _ = std::mem::ManuallyDrop::new(lock.read(&mut srv).unwrap());
    }
    {
        let _ = lock.write(&mut srv).unwrap();
    }
    {
        let _ = std::mem::ManuallyDrop::new(lock.write(&mut srv).unwrap());
    }
    {
        let _ = lock.read(&mut srv).unwrap();
    }
}

#[test]
fn writer_intent_holds_back_new_readers() {
    let mut srv = Server::new();
    let key = "prio".to_string();
    let _cell = Di32::with_value(1, "prio", &mut srv);
    assert!(reader_script(&mut srv, &key, 1));
    // the writer finds a reader: no lock, but its intent is registered
    assert!(!writer_script(&mut srv, &key, 2));
    assert!(srv.contains(&"prio:writer_waiting_list:2".to_string()));
    // a second reader is held back by that intent
    assert!(!reader_script(&mut srv, &key, 3));
    assert!(reader_release_script(&mut srv, &key, 1));
    assert!(writer_script(&mut srv, &key, 2));
    assert!(guarded_store_script(&mut srv, &key, 2, "5".to_string()));
    assert!(writer_release_script(&mut srv, &key, 2));
    assert!(reader_script(&mut srv, &key, 3));
    let mut lock = RwLock::new(Di32::new("prio"));
    let mut r = lock.read(&mut srv).unwrap();
    assert_eq!(r.acquire(&srv), Ok(&5));
    r.release(&mut srv).unwrap();
    let _ = &mut lock;
}

#[test]
fn reader_lease_blocks_writes() {
    let mut srv = Server::new();
    let lock = RwLock::new(Di32::with_value(1, "rl", &mut srv));
    let mut r = lock.read(&mut srv).unwrap();
    assert_eq!(r.acquire(&srv), Ok(&1));
    srv.set_num(&"rl:lock".to_string(), 999, None);
    let mut other = RwLock::new(Di32::new("rl"));
    assert_eq!(other.write(&mut srv).err(), Some(RwLockError::WriterAlreadyLocked));
    srv.advance(2000);
    assert_eq!(r.acquire(&srv), Err(LockError::LockExpired(1)));
    assert_eq!(r.release(&mut srv), Err(RwLockError::LockNotDroppable));
}

#[test]
fn rw_write_guard_expires() {
    let mut srv = Server::new();
    let mut lock = RwLock::new(Di32::with_value(1, "wx", &mut srv));
    let mut w = lock.write(&mut srv).unwrap();
    srv.advance(3000);
    assert_eq!(w.store(3, &mut srv), Err(LockError::LockExpired(1)));
    assert_eq!(w.release(&mut srv), Err(RwLockError::LockNotDroppable));
}

#[test]
fn rw_counter_refuses_tokens() {
    let mut srv = Server::new();
    srv.set_text(&"bad:lock_counter".to_string(), "x".to_string(), None);
    let mut lock = RwLock::new(Di32::new("bad"));
    assert_eq!(lock.read(&mut srv).err(), Some(RwLockError::LockFailed));
    assert_eq!(lock.write(&mut srv).err(), Some(RwLockError::LockFailed));
}

#[test]
fn test_set_load() {
    let mut srv = Server::new();
    let i32: Generic<i32> = Generic::new("test_add_setload");
    let mut setload = SetLoad::new(i32, &srv);
    setload.store(2, &mut srv).unwrap();
    assert_eq!(setload.data().cached(), Some(&2));
}

#[test]
fn set_load_later_counter_wins() {
    let mut srv = Server::new();
    let mut a = SetLoad::new(Di32::new("sl"), &srv);
    let mut b = SetLoad::new(Di32::new("sl"), &srv);
    b.store(10, &mut srv).unwrap();
    b.store(11, &mut srv).unwrap();
    // a writes with counter 1 while the server holds 2
    assert_eq!(a.store(5, &mut srv), Err(SetLoadError::OrderError));
    assert_eq!(a.store(6, &mut srv), Err(SetLoadError::OrderError));
    assert_eq!(srv.get_num(&"sl:order".to_string()), Some(2));
    assert_eq!(a.store(7, &mut srv), Ok(()));
    assert_eq!(srv.get_num(&"sl:order".to_string()), Some(3));
    assert_eq!(Di32::with_load("sl", &srv).cached(), Some(&7));
}

#[test]
fn set_load_blocking_overtakes() {
    let mut srv = Server::new();
    let mut a = SetLoad::new(Di32::new("sb"), &srv);
    let mut b = SetLoad::new(Di32::new("sb"), &srv);
    for v in 0..5 {
        b.store(v, &mut srv).unwrap();
    }
    assert_eq!(a.store_blocking(42, &mut srv), Ok(()));
    assert_eq!(srv.get_num(&"sb:order".to_string()), Some(6));
    assert_eq!(a.data().cached(), Some(&42));
    b.load(&srv);
    assert_eq!(b.data().cached(), Some(&42));
}

#[test]
fn mutex_contention_in_turn() {
    let mut srv = Server::new();
    let mut m1 = Mutex::new(Di32::new("test_add_locking"), &mut srv).unwrap();
    let mut m2 = Mutex::new(Di32::new("test_add_locking"), &mut srv).unwrap();
    {
        let mut g = m1.lock(&mut srv).unwrap();
        g.store(1, &mut srv).unwrap();
        assert_eq!(g.cached(), Some(&1));
        g.release(&mut srv).unwrap();
    }
    {
        let mut g = m2.lock(&mut srv).unwrap();
        g.store(2, &mut srv).unwrap();
        assert_eq!(g.cached(), Some(&2));
        g.release(&mut srv).unwrap();
    }
    assert_eq!(Di32::with_load("test_add_locking", &srv).cached(), Some(&2));
}

#[test]
fn mutex_other_token_is_refused() {
    let mut srv = Server::new();
    let mut m1 = Mutex::new(Di32::new("mx"), &mut srv).unwrap();
    let mut m2 = Mutex::new(Di32::new("mx"), &mut srv).unwrap();
    let mut g1 = m1.lock(&mut srv).unwrap();
    assert!(g1.expand(&mut srv));
    assert!(!g1.expand(&mut srv));
    // m2 waits out one longest lease; the extended lease has lapsed by then
    let mut g2 = m2.lock(&mut srv).unwrap();
    g2.store(9, &mut srv).unwrap();
    assert_eq!(g1.store(3, &mut srv), Err(LockError::LockExpired(1)));
    assert_eq!(g1.release(&mut srv), Err(LockError::UnlockFailed));
    assert_eq!(g2.acquire(&srv), Ok(&9));
}

#[test]
fn mutex_lease_expiry() {
    let mut srv = Server::new();
    let mut i32 = Di32::new("test_add_example2");
    i32.store(1, &mut srv);
    assert_eq!(i32.acquire(&srv), Ok(&1));
    let mut lock = Mutex::new(i32, &mut srv).unwrap();
    let mut guard = lock.lock(&mut srv).unwrap();
    srv.advance(1500);
    let res = guard.store(3, &mut srv);
    assert!(res.is_err(), "{:?}", res);
    assert_eq!(res, Err(LockError::LockExpired(1)));
    assert_eq!(guard.acquire(&srv), Err(LockError::LockExpired(1)));
}

#[test]
fn mutex_guard_reads() {
    let mut srv = Server::new();
    let mut lock = Mutex::new(Di32::new("mg"), &mut srv).unwrap();
    let mut g = lock.lock(&mut srv).unwrap();
    assert_eq!(g.acquire(&srv), Err(LockError::NotFound));
    srv.set_text(&"mg".to_string(), "{".to_string(), None);
    assert_eq!(g.acquire(&srv), Err(LockError::Serialization));
    g.store(4, &mut srv).unwrap();
    assert_eq!(g.acquire(&srv), Ok(&4));
}

#[test]
fn mutex_lock_gives_up_on_unleased_holder() {
    let mut srv = Server::new();
    srv.set_num(&"held:lock".to_string(), 77, None);
    let mut lock = Mutex::new(Di32::new("held"), &mut srv).unwrap();
    assert_eq!(lock.lock(&mut srv).err(), Some(LockError::LockFailed));
    srv.set_text(&"c:uuids".to_string(), "x".to_string(), None);
    assert_eq!(Mutex::new(Di32::new("c"), &mut srv).err(), Some(LockError::LockFailed));
}
