//! The shared registry: one `Registry` owned by a reader/writer lock and
//! reached only through synchronized accessors. Writers (`set`, `remove`)
//! take exclusive access; readers (`snapshot`, `get`) take shared access, so
//! any number of snapshots may proceed together while writes serialize.
//!
//! The lock is vstd's verified `RwLock`, carrying the registry's
//! well-formedness as its invariant: every value that enters the lock is a
//! well-formed registry, and every reader or writer gets one back out.

use vstd::prelude::*;
use vstd::rwlock::RwLock;
use vstd::rwlock::RwLockPredicate;

use crate::registry::Entry;
use crate::registry::Registry;
use crate::registry::unique_names;

verus! {

/// The invariant of the shared lock: only well-formed registries are stored.
pub struct StorePred {}

impl RwLockPredicate<Registry> for StorePred {
    open spec fn inv(self, v: Registry) -> bool {
        v.wf()
    }
}

/// The single shared store. Constructed once at process start and passed to
/// every request handler; there is no other way at the registry.
pub struct Store {
    lock: RwLock<Registry, StorePred>,
}

impl Store {
    /// A store holding an empty registry.
    pub fn new() -> (s: Self) {
        let registry = Registry::new();
        Store { lock: RwLock::new(registry, Ghost(StorePred {})) }
    }

    /// Insert or overwrite the entry for `name`, under exclusive access.
    /// No other reader or writer sees the registry mid-mutation: the value
    /// leaves the lock, is updated by `Registry::set`, and is put back whole.
    pub fn set(&self, name: String, quantity: i32) {
        let (mut registry, write_handle) = self.lock.acquire_write();
        registry.set(name, quantity);
        write_handle.release_write(registry);
    }

    /// Remove the entry for `name` (a no-op if absent), under exclusive
    /// access.
    pub fn remove(&self, name: &String) {
        let (mut registry, write_handle) = self.lock.acquire_write();
        registry.remove(name);
        write_handle.release_write(registry);
    }

    /// A point-in-time copy of the full registry, taken under shared access:
    /// it is the copy of one well-formed registry value, never a torn mix of
    /// two, and its names are pairwise distinct.
    pub fn snapshot(&self) -> (r: Vec<Entry>)
        ensures
            unique_names(r@),
    {
        let read_handle = self.lock.acquire_read();
        let snap = read_handle.borrow().snapshot();
        read_handle.release_read();
        snap
    }

    /// Look up one quantity, under shared access.
    pub fn get(&self, name: &String) -> Option<i32> {
        let read_handle = self.lock.acquire_read();
        let r = read_handle.borrow().get(name);
        read_handle.release_read();
        r
    }
}

} // verus!
