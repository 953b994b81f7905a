//! A spin-based mutual-exclusion primitive, modelled sequentially.
//!
//! `Mutex<T>` owns a boolean flag with two states, `UNLOCKED` and `LOCKED`,
//! and the protected payload.  The payload may be read or written only
//! between a successful `UNLOCKED -> LOCKED` transition of the flag and the
//! matching release, and `with_lock` packages that discipline into a scoped
//! call: acquire, run the body exactly once on the payload, release, return
//! the body's result.
//!
//! On real hardware the flag is a shared atomic and the acquisition is a
//! two-tier busy-wait: a weak compare-and-swap (acquire ordering on success,
//! relaxed on failure, spurious failure allowed so that the same loop maps
//! onto load-link/store-conditional machines), and on failure an inner
//! read-only polling loop of relaxed loads, so that waiters keep the cache
//! line in a shared state instead of forcing it exclusive on every retry.
//! Release is a single store of `UNLOCKED` with release ordering, which
//! makes every write of the holder visible to the next successful acquirer.
//! This module states that protocol over an exclusively borrowed model of
//! the flag, where each atomic step is a method with a contract; the
//! concurrent argument that the protocol really excludes overlapping
//! holders is made once and for all over the transition system in
//! [`crate::protocol`].

use vstd::prelude::*;

verus! {

/// The flag value that marks a held lock.
pub const LOCKED: bool = true;

/// The flag value that marks a free lock.
pub const UNLOCKED: bool = false;

/// A spin lock around a payload of type `T`.
pub struct Mutex<T> {
    locked: bool,
    v: T,
}

impl<T> Mutex<T> {
    /// Whether the flag currently reads `LOCKED`.
    pub closed spec fn locked(self) -> bool {
        self.locked
    }

    /// The protected payload.
    pub closed spec fn value(self) -> T {
        self.v
    }

    /// A fresh lock: flag `UNLOCKED`, payload as given.  No failure mode.
    pub fn new(t: T) -> (m: Mutex<T>)
        ensures
            !m.locked(),
            m.value() == t,
    {
        Mutex { locked: UNLOCKED, v: t }
    }

    /// One weak compare-and-swap of the flag from `UNLOCKED` to `LOCKED`.
    ///
    /// `spurious` is the choice, made by the machine and not by the caller,
    /// of whether this attempt fails even though the flag was free: a weak
    /// exchange may do so, which is what lets it compile to a single
    /// load-link/store-conditional pair instead of a retry loop.  The
    /// attempt succeeds exactly when the flag was free and the machine did
    /// not fail it spuriously; the payload is never touched.
    pub fn try_acquire(&mut self, spurious: bool) -> (r: bool)
        ensures
            r == (!old(self).locked() && !spurious),
            final(self).locked() == (old(self).locked() || r),
            final(self).value() == old(self).value(),
    {
        if !self.locked && !spurious {
            self.locked = LOCKED;
            true
        } else {
            false
        }
    }

    /// One read-only poll of the flag, as the inner relaxed-load loop
    /// performs between failed exchange attempts.
    pub fn flag(&self) -> (r: bool)
        ensures
            r == self.locked(),
    {
        self.locked
    }

    /// The plain relaxed store of `LOCKED` that the holder makes right
    /// after a successful exchange: redundant — the exchange already set
    /// the flag — and kept for clarity and symmetry with the release
    /// store.  It changes nothing.
    pub fn reassert_held(&mut self)
        requires
            old(self).locked(),
        ensures
            *final(self) == *old(self),
    {
        self.locked = LOCKED;
    }

    /// The release store: the flag returns to `UNLOCKED`, the payload is
    /// untouched.  On hardware this is a store with release ordering, so
    /// every write made while holding the lock happens before whatever the
    /// next successful acquire observes.
    pub fn release(&mut self)
        requires
            old(self).locked(),
        ensures
            !final(self).locked(),
            final(self).value() == old(self).value(),
    {
        self.locked = UNLOCKED;
    }

    /// Acquire the lock, run `body` exactly once on the payload, release,
    /// and hand back `body`'s result.
    ///
    /// The caller must come with the lock free: an exclusive borrow of a
    /// lock that is already held describes a holder calling back into its
    /// own lock, and that call never returns — the wait loop polls a flag
    /// that only the waiter itself could clear.  That permanent deadlock,
    /// proved of the protocol in [`crate::protocol::lemma_wedged_run`],
    /// is why such a call is ruled out here rather than given a meaning.
    ///
    /// A body that fails to return normally leaves the flag `LOCKED`
    /// forever; the lock has no poisoning and signals no error.
    pub fn with_lock<R, F: FnOnce(&mut T) -> R>(&mut self, body: F) -> (r: R)
        requires
            !old(self).locked(),
            forall|p: &mut T|
                mut_ref_current(p) == old(self).value() ==> call_requires(body, (p,)),
        ensures
            !final(self).locked(),
            exists|p: &mut T|
                mut_ref_current(p) == old(self).value() && mut_ref_future(p)
                    == final(self).value() && call_ensures(body, (p,), r),
    {
        let got = self.try_acquire(false);
        assert(got);
        self.reassert_held();
        let r = body(&mut self.v);
        self.release();
        r
    }
}

} // verus!
