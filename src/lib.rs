//! Mutual-exclusion primitives modelled as verified state machines.
//!
//! Each lock keeps its shared state (flags, counters, queue nodes held in an
//! arena under stable indices) together with the protected value. Every
//! atomic step of an acquisition or release is one method; a thread is
//! represented by the handle it holds between steps (a ticket, a queue
//! position, a guard). Handles are neither `Clone` nor `Copy`, so a guard is
//! given up exactly once.
#![allow(non_snake_case)]

pub mod spin_lock;
pub mod ticket_lock;
pub mod CLH_lock;
pub mod CMS_lock;
pub mod list;

use vstd::prelude::*;

verus! {

/// The uniform contract of every lock in this crate: an uncontended
/// acquisition that yields a guard, and access to the value through it.
pub trait Lock<T>: Sized {
    type G;

    /// The lock's internal invariant.
    spec fn inv(&self) -> bool;

    /// No thread holds the lock or waits for it.
    spec fn is_idle(&self) -> bool;

    /// `g` is the guard of the thread that holds the lock.
    spec fn holds(&self, g: &Self::G) -> bool;

    /// The holder has no thread queued behind it.
    spec fn holder_alone(&self) -> bool;

    /// The protected value.
    spec fn value(&self) -> T;

    /// Creates an unlocked lock around `data`.
    fn new(data: T) -> (r: Self)
        ensures
            r.inv(),
            r.is_idle(),
            r.value() == data,
    ;

    /// Acquires the lock when no thread holds or waits for it.
    fn lock(&mut self) -> (g: Self::G)
        requires
            old(self).inv(),
            old(self).is_idle(),
        ensures
            final(self).inv(),
            final(self).holds(&g),
            final(self).holder_alone(),
            final(self).value() == old(self).value(),
    ;

    /// The protected value, read through the holder's guard.
    fn read(&self, g: &Self::G) -> (r: &T)
        requires
            self.inv(),
            self.holds(g),
        ensures
            *r == self.value(),
    ;
}

/// Release of a guard obtained from a lock of type `L`.
pub trait Guard<T, L: Lock<T, G = Self>>: Sized {
    /// Releases the lock held by this guard when no thread waits behind it;
    /// the lock is idle afterwards.
    fn unlock(self, lock: &mut L)
        requires
            old(lock).inv(),
            old(lock).holds(&self),
            old(lock).holder_alone(),
        ensures
            final(lock).inv(),
            final(lock).is_idle(),
            final(lock).value() == old(lock).value(),
    ;
}

} // verus!
