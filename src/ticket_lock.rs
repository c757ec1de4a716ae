//! A fair lock built from two counters: the next ticket to hand out and the
//! ticket that may proceed. Both wrap at the same point.
use vstd::prelude::*;
use vstd::arithmetic::div_mod::{
    lemma_add_mod_noop, lemma_mod_add_multiples_vanish, lemma_mod_self_0, lemma_small_mod,
    lemma_sub_mod_noop,
};

verus! {

/// One past the largest `usize`: the point at which both counters wrap.
pub open spec fn wrap() -> nat {
    usize::MAX as nat + 1
}

/// `(n + 1) % wrap()` is what `wrapping_add(1)` gives on `n % wrap()`.
proof fn lemma_next_mod(n: nat, c: usize)
    requires
        c as nat == n % wrap(),
    ensures
        c.wrapping_add(1) as nat == (n + 1) % wrap(),
{
    lemma_add_mod_noop(n as int, 1, wrap() as int);
    lemma_small_mod(1, wrap());
    if c < usize::MAX {
        lemma_small_mod((c + 1) as nat, wrap());
    } else {
        lemma_mod_self_0(wrap() as int);
    }
}

/// Two counters less than `wrap()` apart are equal exactly when their
/// residues are.
proof fn lemma_residue_eq(n: nat, s: nat)
    requires
        s <= n < s + wrap(),
    ensures
        (n % wrap() == s % wrap()) <==> n == s,
{
    lemma_sub_mod_noop(n as int, s as int, wrap() as int);
    lemma_small_mod((n - s) as nat, wrap());
    lemma_small_mod(0, wrap());
}

struct Ticket {
    current: usize,
    ticket_num: usize,
    served: Ghost<nat>,
    issued: Ghost<nat>,
}

/// A lock that admits waiters strictly in the order they took their tickets.
pub struct TicketLock<T> {
    data: T,
    lock: Ticket,
    entered: Ghost<bool>,
}

/// A ticket taken but not yet admitted.
#[must_use]
pub struct Waiter {
    ticket: usize,
    number: Ghost<nat>,
}

/// Exclusive access to the value of a `TicketLock`.
#[must_use]
pub struct LockGuard {
    ticket: usize,
    number: Ghost<nat>,
}

impl Waiter {
    /// How many tickets were handed out before this one.
    pub closed spec fn number(&self) -> nat {
        self.number@
    }
}

impl LockGuard {
    /// How many tickets were handed out before the one this guard holds.
    pub closed spec fn number(&self) -> nat {
        self.number@
    }
}

impl<T> TicketLock<T> {
    /// Tickets that have been released, counted without wrapping.
    pub closed spec fn served(&self) -> nat {
        self.lock.served@
    }

    /// Tickets handed out, counted without wrapping.
    pub closed spec fn issued(&self) -> nat {
        self.lock.issued@
    }

    /// Whether the holder of the current ticket has been admitted.
    pub closed spec fn entered(&self) -> bool {
        self.entered@
    }

    /// The protected value.
    pub closed spec fn value(&self) -> T {
        self.data
    }

    pub closed spec fn wf(&self) -> bool {
        &&& self.lock.current as nat == self.lock.served@ % wrap()
        &&& self.lock.ticket_num as nat == self.lock.issued@ % wrap()
        &&& self.lock.served@ <= self.lock.issued@
        &&& self.lock.issued@ - self.lock.served@ <= usize::MAX
        &&& self.entered@ ==> self.lock.served@ < self.lock.issued@
    }

    /// Tickets taken and not yet released.
    pub open spec fn outstanding(&self) -> nat {
        (self.issued() - self.served()) as nat
    }

    /// No ticket is out: a new one is admitted at once.
    pub open spec fn is_free(&self) -> bool {
        self.outstanding() == 0
    }

    /// `w` is a ticket of this lock that has not been admitted yet.
    pub closed spec fn waiting(&self, w: &Waiter) -> bool {
        &&& self.served() <= w.number@ < self.issued()
        &&& w.ticket as nat == w.number@ % wrap()
        &&& w.number@ == self.served() ==> !self.entered()
    }

    /// `g` is the guard of the admitted holder of this lock.
    pub closed spec fn holds(&self, g: &LockGuard) -> bool {
        &&& self.entered()
        &&& g.number@ == self.served()
        &&& g.ticket as nat == g.number@ % wrap()
    }

    /// Creates an unlocked lock around `data`.
    pub fn new(data: T) -> (r: Self)
        ensures
            r.wf(),
            r.served() == 0,
            r.issued() == 0,
            !r.entered(),
            r.value() == data,
    {
        proof {
            lemma_small_mod(0, wrap());
        }
        TicketLock { data, lock: Ticket::new(), entered: Ghost(false) }
    }

    /// Takes the next ticket (the fetch-and-increment of `ticket_num`).
    pub fn take_ticket(&mut self) -> (w: Waiter)
        requires
            old(self).wf(),
            old(self).outstanding() < usize::MAX,
        ensures
            final(self).wf(),
            final(self).waiting(&w),
            w.number() == old(self).issued(),
            final(self).issued() == old(self).issued() + 1,
            final(self).served() == old(self).served(),
            final(self).outstanding() == old(self).outstanding() + 1,
            final(self).entered() == old(self).entered(),
            final(self).value() == old(self).value(),
            forall|g: LockGuard| old(self).holds(&g) ==> final(self).holds(&g),
            forall|v: Waiter| old(self).waiting(&v) ==> final(self).waiting(&v),
    {
        let ticket = self.lock.ticket_num;
        proof {
            lemma_next_mod(self.lock.issued@, self.lock.ticket_num);
        }
        self.lock.ticket_num = self.lock.ticket_num.wrapping_add(1);
        let number = Ghost(self.lock.issued@);
        self.lock.issued = Ghost(self.lock.issued@ + 1);
        Waiter { ticket, number }
    }

    /// How many tickets are out, from the two counters: the wrapped
    /// difference, exact because fewer than `wrap()` are ever out.
    pub fn pending(&self) -> (r: usize)
        requires
            self.wf(),
        ensures
            r as nat == self.outstanding(),
    {
        let tn = self.lock.ticket_num;
        let cur = self.lock.current;
        proof {
            let m = wrap() as int;
            let d = tn - cur;
            lemma_sub_mod_noop(self.lock.issued@ as int, self.lock.served@ as int, m);
            lemma_small_mod((self.lock.issued@ - self.lock.served@) as nat, wrap());
            if d >= 0 {
                lemma_small_mod(d as nat, wrap());
            } else {
                lemma_mod_add_multiples_vanish(d, m);
                lemma_small_mod((d + m) as nat, wrap());
            }
        }
        tn.wrapping_sub(cur)
    }

    /// One look at `current`: admits `w` exactly when its ticket is the one
    /// that may proceed, and hands it back otherwise.
    pub fn try_enter(&mut self, w: Waiter) -> (r: Result<LockGuard, Waiter>)
        requires
            old(self).wf(),
            old(self).waiting(&w),
        ensures
            final(self).wf(),
            r is Ok <==> w.number() == old(self).served(),
            final(self).served() == old(self).served(),
            final(self).issued() == old(self).issued(),
            final(self).value() == old(self).value(),
            match r {
                Ok(g) => final(self).holds(&g) && g.number() == w.number()
                    && g.number() == final(self).served(),
                Err(v) => v == w && *final(self) == *old(self) && final(self).waiting(&v),
            },
            forall|v: Waiter| old(self).waiting(&v) && v.number() != w.number()
                ==> final(self).waiting(&v),
    {
        proof {
            lemma_residue_eq(w.number@, self.lock.served@);
        }
        if w.ticket == self.lock.current {
            self.entered = Ghost(true);
            Ok(LockGuard { ticket: w.ticket, number: w.number })
        } else {
            Err(w)
        }
    }

    /// Takes a ticket on a lock that no one holds or waits for, and is
    /// admitted at once.
    pub fn lock(&mut self) -> (g: LockGuard)
        requires
            old(self).wf(),
            old(self).is_free(),
        ensures
            final(self).wf(),
            final(self).holds(&g),
            final(self).issued() == old(self).issued() + 1,
            final(self).served() == old(self).served(),
            final(self).outstanding() == 1,
            g.number() == old(self).issued(),
            g.number() == final(self).served(),
            final(self).value() == old(self).value(),
    {
        let w = self.take_ticket();
        proof {
            lemma_residue_eq(w.number@, self.lock.served@);
        }
        self.entered = Ghost(true);
        LockGuard { ticket: w.ticket, number: w.number }
    }

    /// The protected value, read through the holder's guard.
    pub fn read(&self, g: &LockGuard) -> (r: &T)
        requires
            self.holds(g),
        ensures
            *r == self.value(),
    {
        &self.data
    }

    /// Replaces the protected value through the holder's guard.
    pub fn write(&mut self, g: &LockGuard, v: T)
        requires
            old(self).wf(),
            old(self).holds(g),
        ensures
            final(self).wf(),
            final(self).holds(g),
            final(self).value() == v,
            final(self).served() == old(self).served(),
            final(self).issued() == old(self).issued(),
    {
        self.data = v;
    }
}

impl Ticket {
    fn new() -> (r: Ticket)
        ensures
            r.current == 0,
            r.ticket_num == 0,
            r.served@ == 0,
            r.issued@ == 0,
    {
        Ticket { current: 0, ticket_num: 0, served: Ghost(0), issued: Ghost(0) }
    }
}

impl LockGuard {
    /// Releases the lock (the increment of `current`), admitting the next
    /// ticket.
    pub fn unlock<T>(self, lock: &mut TicketLock<T>)
        requires
            old(lock).wf(),
            old(lock).holds(&self),
        ensures
            final(lock).wf(),
            !final(lock).entered(),
            final(lock).served() == old(lock).served() + 1,
            final(lock).issued() == old(lock).issued(),
            final(lock).outstanding() + 1 == old(lock).outstanding(),
            forall|v: Waiter| old(lock).waiting(&v) ==> final(lock).waiting(&v),
            final(lock).value() == old(lock).value(),
    {
        proof {
            lemma_next_mod(lock.lock.served@, lock.lock.current);
        }
        lock.lock.current = lock.lock.current.wrapping_add(1);
        lock.lock.served = Ghost(lock.lock.served@ + 1);
        lock.entered = Ghost(false);
    }
}

/// While a guard is alive, no waiting ticket is admitted: `try_enter` fails
/// for every waiter, so at most one thread is inside at any instant.
pub proof fn lemma_mutual_exclusion<T>(lock: &TicketLock<T>, g: &LockGuard, w: &Waiter)
    requires
        lock.wf(),
        lock.holds(g),
        lock.waiting(w),
    ensures
        w.number() != lock.served(),
        w.number() != g.number(),
{
}

/// No waiter overtakes one that took its ticket earlier: while `first` is
/// still waiting, `later` cannot be admitted.
pub proof fn lemma_fifo<T>(lock: &TicketLock<T>, first: &Waiter, later: &Waiter)
    requires
        lock.wf(),
        lock.waiting(first),
        lock.waiting(later),
        first.number() < later.number(),
    ensures
        later.number() != lock.served(),
{
}

impl<T> crate::Lock<T> for TicketLock<T> {
    type G = LockGuard;

    open spec fn inv(&self) -> bool {
        self.wf()
    }

    open spec fn is_idle(&self) -> bool {
        self.is_free()
    }

    open spec fn holds(&self, g: &LockGuard) -> bool {
        TicketLock::holds(self, g)
    }

    open spec fn holder_alone(&self) -> bool {
        self.outstanding() == 1
    }

    open spec fn value(&self) -> T {
        TicketLock::value(self)
    }

    fn new(data: T) -> (r: Self) {
        TicketLock::new(data)
    }

    fn lock(&mut self) -> (g: LockGuard) {
        TicketLock::lock(self)
    }

    fn read(&self, g: &LockGuard) -> (r: &T) {
        TicketLock::read(self, g)
    }
}

impl<T> crate::Guard<T, TicketLock<T>> for LockGuard {
    fn unlock(self, lock: &mut TicketLock<T>) {
        LockGuard::unlock(self, lock)
    }
}

} // verus!
