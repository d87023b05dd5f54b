//! Future-based locks.

pub mod exchange;
pub mod lineage;
pub mod mutex;
pub mod mutex_calls;
pub mod mutex_laws;
pub mod mutex_world;
pub mod pointer;
pub mod primitives;
pub mod rwlock;
pub mod rwlock_calls;
pub mod rwlock_laws;
pub mod rwlock_world;
pub mod world;
pub mod writers_only;

pub use self::mutex::{Mutex, MutexCompletion, MutexGuard, MutexLock, MutexTask};
pub use self::rwlock::{
    RwLock, RwLockAcquire, RwLockCompletion, RwLockReadGuard, RwLockTask, RwLockWriteGuard,
};
