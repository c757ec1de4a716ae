//! A queue lock in which each thread waits on its own node and is woken by
//! its predecessor (the MCS scheme).
//!
//! Nodes live in slots of an arena; a freed slot goes on a free list and is
//! reused by a later node. Every node also has a sequence number, the order
//! in which it was swapped into the tail: the queue is the nodes
//! `head()..allocated()`, and it is empty exactly when the tail is. Each
//! thread frees its own node when it leaves.
use vstd::prelude::*;

verus! {

/// A queue slot: the flag its owner waits on, the slot of its successor,
/// and whether it holds a node that has not been freed.
#[derive(Clone, Copy)]
pub struct Node {
    is_locked: bool,
    next: Option<usize>,
    live: bool,
}

impl Node {
    /// The node a thread allocates when it asks for the lock: locked, with
    /// no successor.
    fn new() -> (r: Node)
        ensures
            r.is_locked,
            r.next is None,
            r.live,
    {
        Node { is_locked: true, next: None, live: true }
    }
}

/// An MCS lock around a value of type `T`.
pub struct CmsLock<T> {
    node: Option<usize>,
    nodes: Vec<Node>,
    free: Vec<usize>,
    data: T,
    slot_at: Ghost<Seq<usize>>,
    seq_of: Ghost<Seq<nat>>,
    head: Ghost<nat>,
    held: Ghost<bool>,
}

/// A thread whose node is in the tail but not yet linked from its
/// predecessor.
#[must_use]
pub struct Waiter {
    node: usize,
    prev: usize,
    seq: Ghost<nat>,
}

/// A thread linked into the queue, waiting on its own flag.
#[must_use]
pub struct Queued {
    node: usize,
    seq: Ghost<nat>,
}

/// Exclusive access to the value of a `CmsLock`, bound to its holder's node.
#[must_use]
pub struct LockGuard {
    node: usize,
    seq: Ghost<nat>,
}

/// What the tail swap of an acquisition found.
#[must_use]
pub enum Enqueued {
    /// The queue was empty: the lock is granted at once.
    Acquired(LockGuard),
    /// A predecessor exists: link to it, then wait.
    Waiting(Waiter),
}

impl Waiter {
    /// The sequence number of this thread's node.
    pub closed spec fn node(&self) -> nat {
        self.seq@
    }
}

impl Queued {
    /// The sequence number of this thread's node.
    pub closed spec fn node(&self) -> nat {
        self.seq@
    }
}

impl LockGuard {
    /// The sequence number of the holder's node.
    pub closed spec fn node(&self) -> nat {
        self.seq@
    }
}

impl<T> CmsLock<T> {
    /// How many nodes have ever been allocated.
    pub closed spec fn allocated(&self) -> nat {
        self.slot_at@.len()
    }

    /// The oldest node that has not been freed.
    pub closed spec fn head(&self) -> nat {
        self.head@
    }

    /// How many slots the arena has.
    pub closed spec fn slots(&self) -> nat {
        self.nodes@.len()
    }

    /// The node in the tail slot, if any.
    pub closed spec fn tail(&self) -> Option<nat> {
        match self.node {
            Some(t) => Some((self.slot_at@.len() - 1) as nat),
            None => None,
        }
    }

    /// Whether node `k` is still allocated: its slot holds it, alive.
    pub closed spec fn is_live(&self, k: nat) -> bool {
        &&& k < self.slot_at@.len()
        &&& self.slot_at@[k as int] < self.nodes@.len()
        &&& self.nodes@[self.slot_at@[k as int] as int].live
        &&& self.seq_of@[self.slot_at@[k as int] as int] == k
    }

    /// Whether node `k` still tells its owner to wait.
    pub closed spec fn is_locked(&self, k: nat) -> bool {
        &&& k < self.slot_at@.len()
        &&& self.slot_at@[k as int] < self.nodes@.len()
        &&& self.nodes@[self.slot_at@[k as int] as int].is_locked
    }

    /// The successor that node `k` has been linked to, if any.
    pub closed spec fn next_of(&self, k: nat) -> Option<nat> {
        if k < self.slot_at@.len() && self.slot_at@[k as int] < self.nodes@.len() {
            match self.nodes@[self.slot_at@[k as int] as int].next {
                Some(s) => Some(self.seq_of@[s as int]),
                None => None,
            }
        } else {
            None
        }
    }

    /// Whether a thread holds the lock.
    pub closed spec fn held(&self) -> bool {
        self.held@
    }

    /// The protected value.
    pub closed spec fn value(&self) -> T {
        self.data
    }

    /// How many nodes have been freed.
    pub open spec fn freed(&self) -> nat {
        self.head()
    }

    /// How many nodes are in the queue.
    pub open spec fn queue_len(&self) -> nat {
        (self.allocated() - self.head()) as nat
    }

    /// No thread holds the lock or waits for it.
    pub open spec fn is_idle(&self) -> bool {
        self.tail() is None
    }

    pub closed spec fn wf(&self) -> bool {
        &&& self.nodes@.len() == self.seq_of@.len()
        &&& self.head@ <= self.slot_at@.len()
        &&& self.node is None <==> self.head@ == self.slot_at@.len()
        &&& self.node is Some ==> self.node.unwrap() == self.slot_at@.last()
        &&& forall|k: int| self.head@ <= k < self.slot_at@.len() ==> {
                &&& (#[trigger] self.slot_at@[k]) < self.nodes@.len()
                &&& self.nodes@[self.slot_at@[k] as int].live
                &&& self.seq_of@[self.slot_at@[k] as int] == k
            }
        &&& forall|s: int| 0 <= s < self.nodes@.len() && (#[trigger] self.nodes@[s]).live ==> {
                &&& self.head@ <= self.seq_of@[s] < self.slot_at@.len()
                &&& self.slot_at@[self.seq_of@[s] as int] == s
            }
        &&& forall|k: int| self.head@ < k < self.slot_at@.len() ==>
                self.nodes@[(#[trigger] self.slot_at@[k]) as int].is_locked
        &&& forall|k: int| self.head@ <= k < self.slot_at@.len() - 1 ==>
                self.nodes@[(#[trigger] self.slot_at@[k]) as int].next is None
                || self.nodes@[self.slot_at@[k] as int].next == Some(self.slot_at@[k + 1])
        &&& self.head@ < self.slot_at@.len() ==>
                self.nodes@[self.slot_at@.last() as int].next is None
        &&& self.held@ ==> self.head@ < self.slot_at@.len()
        &&& self.head@ < self.slot_at@.len() && !self.held@ ==>
                !self.nodes@[self.slot_at@[self.head@ as int] as int].is_locked
        &&& forall|j: int| 0 <= j < self.free@.len() ==> {
                &&& (#[trigger] self.free@[j]) < self.nodes@.len()
                &&& !self.nodes@[self.free@[j] as int].live
            }
        &&& forall|i: int, j: int| 0 <= i < j < self.free@.len() ==>
                self.free@[i] != self.free@[j]
        &&& self.free@.len() + (self.slot_at@.len() - self.head@) == self.nodes@.len()
    }

    /// `w` is in the queue and its predecessor does not know it yet.
    pub closed spec fn waiting(&self, w: &Waiter) -> bool {
        &&& self.head@ < w.seq@ < self.slot_at@.len()
        &&& self.slot_at@[w.seq@ as int] == w.node
        &&& self.slot_at@[w.seq@ - 1] == w.prev
        &&& self.nodes@[w.prev as int].next is None
    }

    /// `q` is in the queue and reachable from its predecessor, or is the
    /// head that its predecessor handed the lock to.
    pub closed spec fn queued(&self, q: &Queued) -> bool {
        &&& self.head@ <= q.seq@ < self.slot_at@.len()
        &&& self.slot_at@[q.seq@ as int] == q.node
        &&& q.seq@ == self.head@ ==> !self.held@
        &&& q.seq@ > self.head@ ==>
                self.nodes@[self.slot_at@[q.seq@ - 1] as int].next == Some(q.node)
    }

    /// `q` finds its flag cleared at its next look.
    pub open spec fn admissible(&self, q: &Queued) -> bool {
        q.node() == self.head()
    }

    /// `g` is the guard of the thread that holds this lock.
    pub closed spec fn holds(&self, g: &LockGuard) -> bool {
        &&& self.held@
        &&& g.seq@ == self.head@
        &&& g.node == self.slot_at@[self.head@ as int]
    }

    /// Creates an unlocked lock around `data`, with an empty queue.
    pub fn new(data: T) -> (r: Self)
        ensures
            r.wf(),
            r.allocated() == 0,
            r.slots() == 0,
            r.is_idle(),
            !r.held(),
            r.value() == data,
    {
        CmsLock {
            node: None,
            nodes: Vec::new(),
            free: Vec::new(),
            data,
            slot_at: Ghost(Seq::empty()),
            seq_of: Ghost(Seq::empty()),
            head: Ghost(0),
            held: Ghost(false),
        }
    }

    /// Allocates a locked node, reusing a freed slot if there is one, and
    /// swaps it into the tail. With no predecessor the lock is granted at
    /// once and no link is written; otherwise the thread must still link
    /// itself and wait.
    pub fn enqueue(&mut self) -> (r: Enqueued)
        requires
            old(self).wf(),
            old(self).queue_len() < usize::MAX,
        ensures
            final(self).wf(),
            final(self).allocated() == old(self).allocated() + 1,
            final(self).tail() == Some(old(self).allocated()),
            final(self).is_live(old(self).allocated()),
            final(self).is_locked(old(self).allocated()),
            final(self).next_of(old(self).allocated()) is None,
            final(self).value() == old(self).value(),
            forall|k: nat| old(self).is_live(k) ==>
                final(self).is_live(k)
                && final(self).next_of(k) == old(self).next_of(k)
                && final(self).is_locked(k) == old(self).is_locked(k),
            forall|k: nat| k < old(self).head() ==> !final(self).is_live(k),
            forall|g: LockGuard| old(self).holds(&g) ==> final(self).holds(&g),
            forall|v: Waiter| old(self).waiting(&v) ==> final(self).waiting(&v),
            forall|q: Queued| old(self).queued(&q) ==> final(self).queued(&q),
            old(self).is_idle() <==> r is Acquired,
            match r {
                Enqueued::Acquired(g) => {
                    &&& final(self).holds(&g)
                    &&& final(self).is_live(g.node())
                    &&& g.node() == old(self).allocated()
                    &&& final(self).head() == old(self).allocated()
                },
                Enqueued::Waiting(w) => {
                    &&& final(self).waiting(&w)
                    &&& w.node() == old(self).allocated()
                    &&& final(self).head() == old(self).head()
                    &&& final(self).held() == old(self).held()
                },
            },
    {
        let seq = Ghost(self.slot_at@.len());
        let slot = match self.free.pop() {
            Some(s) => {
                self.nodes.set(s, Node::new());
                proof {
                    self.seq_of@ = self.seq_of@.update(s as int, seq@);
                }
                s
            },
            None => {
                self.nodes.push(Node::new());
                proof {
                    self.seq_of@ = self.seq_of@.push(seq@);
                }
                self.nodes.len() - 1
            },
        };
        proof {
            self.slot_at@ = self.slot_at@.push(slot);
        }
        let prev = self.node;
        self.node = Some(slot);
        assert forall|k: nat| old(self).is_live(k) implies
            self.is_live(k)
            && self.next_of(k) == old(self).next_of(k)
            && self.is_locked(k) == old(self).is_locked(k) by {
            assert(old(self).nodes@[old(self).slot_at@[k as int] as int].live);
        }
        match prev {
            None => {
                self.held = Ghost(true);
                Enqueued::Acquired(LockGuard { node: slot, seq })
            },
            Some(p) => Enqueued::Waiting(Waiter { node: slot, prev: p, seq }),
        }
    }

    /// Stores the thread's node into its predecessor's `next`, so that the
    /// predecessor can find it on release.
    pub fn link(&mut self, w: Waiter) -> (q: Queued)
        requires
            old(self).wf(),
            old(self).waiting(&w),
        ensures
            final(self).wf(),
            final(self).queued(&q),
            q.node() == w.node(),
            final(self).next_of((w.node() - 1) as nat) == Some(w.node()),
            final(self).allocated() == old(self).allocated(),
            final(self).head() == old(self).head(),
            final(self).held() == old(self).held(),
            final(self).tail() == old(self).tail(),
            final(self).value() == old(self).value(),
            forall|k: nat| final(self).is_live(k) == old(self).is_live(k),
            forall|k: nat| old(self).is_live(k) ==>
                final(self).is_locked(k) == old(self).is_locked(k),
            forall|k: nat| old(self).is_live(k) && k + 1 != w.node() ==>
                final(self).next_of(k) == old(self).next_of(k),
            forall|g: LockGuard| old(self).holds(&g) ==> final(self).holds(&g),
            forall|v: Waiter| old(self).waiting(&v) && v.node() != w.node() ==>
                final(self).waiting(&v),
            forall|r: Queued| old(self).queued(&r) ==> final(self).queued(&r),
    {
        let p = w.prev;
        let pred = self.nodes[p];
        self.nodes.set(p, Node { is_locked: pred.is_locked, next: Some(w.node), live: pred.live });
        Queued { node: w.node, seq: w.seq }
    }

    /// One look at the thread's own flag: admitted once the predecessor has
    /// cleared it, handed back otherwise.
    pub fn poll(&mut self, q: Queued) -> (r: Result<LockGuard, Queued>)
        requires
            old(self).wf(),
            old(self).queued(&q),
        ensures
            final(self).wf(),
            r is Ok <==> old(self).admissible(&q),
            final(self).allocated() == old(self).allocated(),
            final(self).head() == old(self).head(),
            final(self).tail() == old(self).tail(),
            final(self).value() == old(self).value(),
            forall|k: nat| final(self).is_live(k) == old(self).is_live(k)
                && final(self).is_locked(k) == old(self).is_locked(k)
                && final(self).next_of(k) == old(self).next_of(k),
            match r {
                Ok(g) => {
                    &&& final(self).holds(&g)
                    &&& final(self).is_live(g.node())
                    &&& g.node() == q.node()
                    &&& forall|v: Waiter| old(self).waiting(&v) ==> final(self).waiting(&v)
                    &&& forall|o: Queued| old(self).queued(&o) && o.node() != q.node() ==>
                        final(self).queued(&o)
                },
                Err(v) => v == q && *final(self) == *old(self) && final(self).queued(&v),
            },
    {
        let n = self.nodes[q.node];
        if n.is_locked {
            Err(q)
        } else {
            self.held = Ghost(true);
            Ok(LockGuard { node: q.node, seq: q.seq })
        }
    }

    /// Acquires a lock that no thread holds or waits for, by the fast path.
    pub fn lock(&mut self) -> (g: LockGuard)
        requires
            old(self).wf(),
            old(self).is_idle(),
        ensures
            final(self).wf(),
            final(self).holds(&g),
            g.node() == old(self).allocated(),
            final(self).is_live(g.node()),
            final(self).is_locked(g.node()),
            final(self).next_of(g.node()) is None,
            final(self).allocated() == old(self).allocated() + 1,
            final(self).head() == old(self).allocated(),
            final(self).tail() == Some(old(self).allocated()),
            forall|k: nat| k < old(self).allocated() ==> !final(self).is_live(k),
            final(self).value() == old(self).value(),
    {
        match self.enqueue() {
            Enqueued::Acquired(g) => g,
            Enqueued::Waiting(w) => {
                proof {
                    assert(false);
                }
                LockGuard { node: w.node, seq: w.seq }
            },
        }
    }

    /// How many nodes are allocated and not yet freed: the arena's slots
    /// less those on the free list.
    pub fn live_nodes(&self) -> (r: usize)
        requires
            self.wf(),
        ensures
            r as nat == self.allocated() - self.freed(),
    {
        self.nodes.len() - self.free.len()
    }

    /// How many slots the arena has: the most nodes ever alive at once.
    pub fn slot_count(&self) -> (r: usize)
        ensures
            r as nat == self.slots(),
    {
        self.nodes.len()
    }

    /// The protected value, read through the holder's guard.
    pub fn read(&self, g: &LockGuard) -> (r: &T)
        requires
            self.holds(g),
        ensures
            *r == self.value(),
    {
        &self.data
    }

    /// Replaces the protected value through the holder's guard.
    pub fn write(&mut self, g: &LockGuard, v: T)
        requires
            old(self).wf(),
            old(self).holds(g),
        ensures
            final(self).wf(),
            final(self).holds(g),
            final(self).value() == v,
            final(self).allocated() == old(self).allocated(),
            final(self).head() == old(self).head(),
            final(self).tail() == old(self).tail(),
            forall|k: nat| final(self).is_live(k) == old(self).is_live(k)
                && final(self).is_locked(k) == old(self).is_locked(k)
                && final(self).next_of(k) == old(self).next_of(k),
            forall|w: Waiter| old(self).waiting(&w) ==> final(self).waiting(&w),
            forall|q: Queued| old(self).queued(&q) ==> final(self).queued(&q),
    {
        self.data = v;
    }
}

impl LockGuard {
    /// One attempt to release. With a linked successor the holder clears the
    /// successor's flag and frees its own node. With none, it swaps the tail
    /// back to empty if its node is still there, and frees its node. If a
    /// successor has taken the tail but not linked yet, nothing changes and
    /// the guard comes back, to try again once the link is visible.
    pub fn unlock<T>(self, lock: &mut CmsLock<T>) -> (r: Option<LockGuard>)
        requires
            old(lock).wf(),
            old(lock).holds(&self),
        ensures
            final(lock).wf(),
            final(lock).allocated() == old(lock).allocated(),
            final(lock).value() == old(lock).value(),
            r is Some <==> (old(lock).next_of(self.node()) is None
                && old(lock).tail() != Some(self.node())),
            match r {
                Some(g) => g.node() == self.node() && *final(lock) == *old(lock)
                    && final(lock).holds(&g),
                None => {
                    &&& !final(lock).held()
                    &&& !final(lock).is_live(self.node())
                    &&& forall|k: nat| k != self.node() ==>
                        final(lock).is_live(k) == old(lock).is_live(k)
                    &&& forall|k: nat| old(lock).is_live(k) && k != self.node()
                        && k != self.node() + 1 ==>
                        final(lock).is_locked(k) == old(lock).is_locked(k)
                    &&& forall|k: nat| old(lock).is_live(k) && k != self.node() ==>
                        final(lock).next_of(k) == old(lock).next_of(k)
                    &&& forall|v: Waiter| old(lock).waiting(&v) ==> final(lock).waiting(&v)
                    &&& forall|q: Queued| old(lock).queued(&q) ==> final(lock).queued(&q)
                    &&& old(lock).next_of(self.node()) is Some ==> {
                        &&& final(lock).head() == self.node() + 1
                        &&& old(lock).next_of(self.node()) == Some(final(lock).head())
                        &&& !final(lock).is_locked(final(lock).head())
                        &&& final(lock).tail() == old(lock).tail()
                    }
                    &&& old(lock).next_of(self.node()) is None ==> {
                        &&& final(lock).is_idle()
                        &&& final(lock).head() == final(lock).allocated()
                    }
                },
            },
    {
        let me = lock.nodes[self.node];
        match me.next {
            Some(n) => {
                let succ = lock.nodes[n];
                lock.nodes.set(n, Node { is_locked: false, next: succ.next, live: succ.live });
                lock.nodes.set(self.node, Node { is_locked: me.is_locked, next: me.next, live: false });
                lock.free.push(self.node);
                lock.head = Ghost(self.seq@ + 1);
                lock.held = Ghost(false);
                None
            },
            None => {
                let at_tail = match lock.node {
                    Some(t) => t == self.node,
                    None => false,
                };
                if at_tail {
                    lock.node = None;
                    lock.nodes.set(self.node, Node { is_locked: me.is_locked, next: me.next, live: false });
                    lock.free.push(self.node);
                    lock.head = Ghost(lock.slot_at@.len());
                    lock.held = Ghost(false);
                    None
                } else {
                    Some(self)
                }
            },
        }
    }
}

/// While a guard is alive, no queued thread finds its flag cleared, so at
/// most one thread is inside at any instant.
pub proof fn lemma_mutual_exclusion<T>(lock: &CmsLock<T>, g: &LockGuard, q: &Queued)
    requires
        lock.wf(),
        lock.holds(g),
        lock.queued(q),
    ensures
        !lock.admissible(q),
        q.node() != g.node(),
{
}

/// Threads are admitted in the order their nodes reached the tail: while an
/// earlier thread is still queued, a later one cannot be admitted.
pub proof fn lemma_fifo<T>(lock: &CmsLock<T>, first: &Queued, later: &Queued)
    requires
        lock.wf(),
        lock.queued(first),
        lock.queued(later),
        first.node() < later.node(),
    ensures
        !lock.admissible(later),
{
}

/// A release that meets a successor in the middle of its enqueue (it has
/// taken the tail but not linked) can neither empty the tail nor hand off:
/// the swap back to empty fails because the tail is a later node, and the
/// holder's immediate follower is not linked yet.
pub proof fn lemma_release_race<T>(lock: &CmsLock<T>, g: &LockGuard, w: &Waiter)
    requires
        lock.wf(),
        lock.holds(g),
        lock.waiting(w),
    ensures
        lock.tail() is Some,
        lock.tail() != Some(g.node()),
        w.node() == g.node() + 1 ==> lock.next_of(g.node()) is None,
{
}

/// Every node ever allocated is either still in the queue or freed by its
/// owner, never both: the freed ones are exactly those before the head. A
/// holder's node is alive. Once no thread holds or waits, every node
/// allocated has been freed.
pub proof fn lemma_node_lifecycle<T>(lock: &CmsLock<T>)
    requires
        lock.wf(),
    ensures
        lock.freed() <= lock.allocated(),
        lock.queue_len() <= lock.slots(),
        lock.held() ==> lock.head() < lock.allocated() && lock.is_live(lock.head()),
        forall|k: nat| lock.is_live(k) <==> lock.freed() <= k < lock.allocated(),
        lock.is_idle() ==> lock.freed() == lock.allocated(),
        lock.is_idle() ==> forall|k: nat| !lock.is_live(k),
{
    assert forall|k: nat| lock.is_live(k) <==> lock.freed() <= k < lock.allocated() by {
        if lock.is_live(k) {
            let s = lock.slot_at@[k as int] as int;
            assert(lock.nodes@[s].live);
        }
        if lock.freed() <= k < lock.allocated() {
            assert(lock.slot_at@[k as int] < lock.nodes@.len());
        }
    }
    if lock.held() {
        assert(lock.slot_at@[lock.head@ as int] < lock.nodes@.len());
    }
}

impl<T> crate::Lock<T> for CmsLock<T> {
    type G = LockGuard;

    open spec fn inv(&self) -> bool {
        self.wf()
    }

    open spec fn is_idle(&self) -> bool {
        CmsLock::is_idle(self)
    }

    open spec fn holds(&self, g: &LockGuard) -> bool {
        CmsLock::holds(self, g)
    }

    open spec fn holder_alone(&self) -> bool {
        self.tail() == Some(self.head())
    }

    open spec fn value(&self) -> T {
        CmsLock::value(self)
    }

    fn new(data: T) -> (r: Self) {
        CmsLock::new(data)
    }

    fn lock(&mut self) -> (g: LockGuard) {
        CmsLock::lock(self)
    }

    fn read(&self, g: &LockGuard) -> (r: &T) {
        CmsLock::read(self, g)
    }
}

impl<T> crate::Guard<T, CmsLock<T>> for LockGuard {
    fn unlock(self, lock: &mut CmsLock<T>) {
        let r = LockGuard::unlock(self, lock);
        proof {
            assert(r is None);
        }
    }
}

} // verus!
