use vstd::prelude::*;
use vstd::rwlock::{RwLock, RwLockPredicate};

verus! {

/// A key is sixteen characters long, one for each byte of an AES-128 key.
pub open spec fn key_shaped(key: Option<String>) -> bool {
    match key {
        Some(k) => k@.len() == 16,
        None => true,
    }
}

/// What the cache may hold: no key, or a key of sixteen characters.
pub struct KeyShape;

impl RwLockPredicate<Option<String>> for KeyShape {
    open spec fn inv(self, v: Option<String>) -> bool {
        key_shaped(v)
    }
}

/// The one cached decryption key of a strategy, shared by concurrent chapter
/// fetches: reads take the lock shared, a refresh takes it exclusively, and
/// of two racing refreshes the last one wins.
pub struct KeyCache {
    cell: RwLock<Option<String>, KeyShape>,
}

impl KeyCache {
    pub closed spec fn wf(&self) -> bool {
        self.cell.pred() == KeyShape
    }

    /// An empty cache.
    pub fn new() -> (r: KeyCache)
        ensures
            r.wf(),
    {
        KeyCache { cell: RwLock::new(None, Ghost(KeyShape)) }
    }

    /// The key held now, if any.
    pub fn read(&self) -> (r: Option<String>)
        requires
            self.wf(),
        ensures
            key_shaped(r),
    {
        let handle = self.cell.acquire_read();
        let r = match handle.borrow() {
            Some(k) => Some(k.clone()),
            None => None,
        };
        handle.release_read();
        r
    }

    /// Whether no key has been stored yet.
    pub fn is_absent(&self) -> (r: bool)
        requires
            self.wf(),
    {
        let handle = self.cell.acquire_read();
        let r = handle.borrow().is_none();
        handle.release_read();
        r
    }

    /// Puts `key` in place of whatever was held.
    pub fn replace(&self, key: String)
        requires
            self.wf(),
            key@.len() == 16,
    {
        let (_old, handle) = self.cell.acquire_write();
        handle.release_write(Some(key));
    }
}

} // verus!
