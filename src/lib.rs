//! Distributed data types and coordination primitives kept under shared keys of a key-value
//! server: value cells, lists, a mutex with fencing tokens, a read/write lock with writer
//! preference, a reusable barrier with leader election, and a register ordered by counters.
//!
//! The server is [`Server`]: a single executor with a millisecond clock that runs each
//! coordination step atomically. Handles take it by reference for each step.
use vstd::prelude::*;

pub mod barrier;
pub mod codec;
pub mod generic;
pub mod laws;
pub mod list;
pub mod mutex;
pub mod rwlock;
pub mod set_load;
pub mod store;

pub use barrier::{Barrier, BarrierWaitResult};
pub use codec::Codec;
pub use generic::{CellError, Generic};
pub use list::{List, ListCache, ListIter};
pub use mutex::{Guard, LockError, Mutex};
pub use rwlock::{RwLock, RwLockError, RwLockReadGuard, RwLockWriteGuard};
pub use set_load::{SetLoad, SetLoadError};
pub use store::Server;

verus! {

/// The value cell under its longer name.
pub type RedisGeneric<T> = Generic<T>;

/// A cell holding an `i32`.
pub type Di32 = Generic<i32>;

/// A cell holding a `u64`.
pub type Du64 = Generic<u64>;

/// A cell holding a `bool`.
pub type Dbool = Generic<bool>;

/// A cell holding a `String`.
pub type DString = Generic<String>;

} // verus!
