//! The baseline lock: one shared flag, taken by compare-and-swap. It gives
//! mutual exclusion and nothing more; under contention any thread may be
//! passed over indefinitely.
use vstd::prelude::*;

verus! {

struct RawLock {
    is_hold: bool,
}

/// A spin lock around a value of type `T`.
pub struct SpinLock<T> {
    data: T,
    lock: RawLock,
}

/// Exclusive access to the value of a `SpinLock`.
#[must_use]
pub struct LockGuard {
    token: (),
}

impl<T> SpinLock<T> {
    /// Whether the flag is set, i.e. a guard is alive.
    pub closed spec fn is_held(&self) -> bool {
        self.lock.is_hold
    }

    /// The protected value.
    pub closed spec fn value(&self) -> T {
        self.data
    }

    /// A compare-and-swap from unlocked would succeed now.
    pub open spec fn available(&self) -> bool {
        !self.is_held()
    }

    /// `g` is the guard of the thread that holds this lock.
    pub open spec fn holds(&self, g: &LockGuard) -> bool {
        self.is_held()
    }

    /// Creates an unlocked lock around `data`.
    pub fn new(data: T) -> (r: Self)
        ensures
            !r.is_held(),
            r.value() == data,
    {
        SpinLock { data, lock: RawLock { is_hold: false } }
    }

    /// One compare-and-swap of the flag from unlocked to locked: a guard if
    /// it succeeded, nothing (and no change) if the lock was held.
    pub fn try_lock(&mut self) -> (r: Option<LockGuard>)
        ensures
            r is Some <==> old(self).available(),
            final(self).is_held(),
            final(self).value() == old(self).value(),
            match r {
                Some(g) => final(self).holds(&g),
                None => *final(self) == *old(self),
            },
    {
        if self.lock.is_hold {
            None
        } else {
            self.lock.is_hold = true;
            Some(LockGuard { token: () })
        }
    }

    /// Acquires a lock that is not held.
    pub fn lock(&mut self) -> (g: LockGuard)
        requires
            !old(self).is_held(),
        ensures
            final(self).holds(&g),
            final(self).value() == old(self).value(),
    {
        self.lock.is_hold = true;
        LockGuard { token: () }
    }

    /// The protected value, read through the holder's guard.
    pub fn read(&self, g: &LockGuard) -> (r: &T)
        requires
            self.holds(g),
        ensures
            *r == self.value(),
    {
        &self.data
    }

    /// Replaces the protected value through the holder's guard.
    pub fn write(&mut self, g: &LockGuard, v: T)
        requires
            old(self).holds(g),
        ensures
            final(self).holds(g),
            final(self).value() == v,
    {
        self.data = v;
    }
}

impl LockGuard {
    /// Stores "unlocked" into the flag.
    pub fn unlock<T>(self, lock: &mut SpinLock<T>)
        requires
            old(lock).holds(&self),
        ensures
            !final(lock).is_held(),
            final(lock).value() == old(lock).value(),
    {
        lock.lock.is_hold = false;
    }
}

/// While a guard is alive the flag is set, so every compare-and-swap from
/// unlocked fails and no second guard is handed out.
pub proof fn lemma_mutual_exclusion<T>(lock: &SpinLock<T>, g: &LockGuard)
    requires
        lock.holds(g),
    ensures
        !lock.available(),
{
}

impl<T> crate::Lock<T> for SpinLock<T> {
    type G = LockGuard;

    open spec fn inv(&self) -> bool {
        true
    }

    open spec fn is_idle(&self) -> bool {
        !self.is_held()
    }

    open spec fn holds(&self, g: &LockGuard) -> bool {
        self.is_held()
    }

    open spec fn holder_alone(&self) -> bool {
        true
    }

    open spec fn value(&self) -> T {
        SpinLock::value(self)
    }

    fn new(data: T) -> (r: Self) {
        SpinLock::new(data)
    }

    fn lock(&mut self) -> (g: LockGuard) {
        SpinLock::lock(self)
    }

    fn read(&self, g: &LockGuard) -> (r: &T) {
        SpinLock::read(self, g)
    }
}

impl<T> crate::Guard<T, SpinLock<T>> for LockGuard {
    fn unlock(self, lock: &mut SpinLock<T>) {
        LockGuard::unlock(self, lock)
    }
}

} // verus!
