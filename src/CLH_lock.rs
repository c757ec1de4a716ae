//! A queue lock in which each thread waits on the node of the thread before it.
//!
//! Nodes live in slots of an arena; a freed slot goes on a free list and is
//! reused by a later node, so the arena never holds more slots than the most
//! nodes that were ever alive at once. Every node also has a sequence number,
//! the order in which it was swapped into the tail: the queue is always the
//! nodes `head()..allocated()`, and node `k` is the predecessor of node
//! `k + 1`. The thread that owns node `k + 1` frees node `k` once it has seen
//! it unlocked, which makes node `k + 1` the head.
use vstd::prelude::*;

verus! {

/// A queue slot: the flag its successor waits on, and whether it holds a
/// node that has not been freed.
#[derive(Clone, Copy)]
struct Node {
    is_locked: bool,
    live: bool,
}

impl Node {
    /// The unlocked node a new lock starts with.
    fn new() -> (r: Node)
        ensures
            !r.is_locked,
            r.live,
    {
        Node { is_locked: false, live: true }
    }

    /// The locked node a thread puts at the tail when it asks for the lock.
    fn locked() -> (r: Node)
        ensures
            r.is_locked,
            r.live,
    {
        Node { is_locked: true, live: true }
    }
}

/// A CLH lock around a value of type `T`.
pub struct CLHLock<T> {
    prev: usize,
    nodes: Vec<Node>,
    free: Vec<usize>,
    data: T,
    slot_at: Ghost<Seq<usize>>,
    seq_of: Ghost<Seq<nat>>,
    head: Ghost<nat>,
    held: Ghost<bool>,
}

/// A thread that has put its node at the tail and not yet been admitted.
#[must_use]
pub struct Waiter {
    mine: usize,
    prev: usize,
    seq: Ghost<nat>,
}

/// Exclusive access to the value of a `CLHLock`, bound to its holder's node.
#[must_use]
pub struct LockGuard {
    node: usize,
    seq: Ghost<nat>,
}

impl Waiter {
    /// The sequence number of this thread's node.
    pub closed spec fn node(&self) -> nat {
        self.seq@
    }
}

impl LockGuard {
    /// The sequence number of the holder's node.
    pub closed spec fn node(&self) -> nat {
        self.seq@
    }
}

impl<T> CLHLock<T> {
    /// How many nodes have ever been allocated.
    pub closed spec fn allocated(&self) -> nat {
        self.slot_at@.len()
    }

    /// The oldest node that has not been freed.
    pub closed spec fn head(&self) -> nat {
        self.head@
    }

    /// How many slots the arena has.
    pub closed spec fn slots(&self) -> nat {
        self.nodes@.len()
    }

    /// Whether node `k` is still allocated: its slot holds it, alive.
    pub closed spec fn is_live(&self, k: nat) -> bool {
        &&& k < self.slot_at@.len()
        &&& self.slot_at@[k as int] < self.nodes@.len()
        &&& self.nodes@[self.slot_at@[k as int] as int].live
        &&& self.seq_of@[self.slot_at@[k as int] as int] == k
    }

    /// Whether node `k` still tells its successor to wait.
    pub closed spec fn is_locked(&self, k: nat) -> bool {
        &&& k < self.slot_at@.len()
        &&& self.slot_at@[k as int] < self.nodes@.len()
        &&& self.nodes@[self.slot_at@[k as int] as int].is_locked
    }

    /// Whether a thread holds the lock.
    pub closed spec fn held(&self) -> bool {
        self.held@
    }

    /// The protected value.
    pub closed spec fn value(&self) -> T {
        self.data
    }

    /// How many nodes have been freed.
    pub open spec fn freed(&self) -> nat {
        self.head()
    }

    /// The node at the tail, which the next thread to arrive waits on.
    pub open spec fn tail(&self) -> nat {
        (self.allocated() - 1) as nat
    }

    /// How many nodes are in the queue, the tail included.
    pub open spec fn queue_len(&self) -> nat {
        (self.allocated() - self.head()) as nat
    }

    /// No thread holds the lock or waits for it.
    pub open spec fn is_idle(&self) -> bool {
        self.head() == self.tail() && !self.held()
    }

    pub closed spec fn wf(&self) -> bool {
        &&& self.nodes@.len() == self.seq_of@.len()
        &&& self.head@ < self.slot_at@.len()
        &&& self.prev == self.slot_at@.last()
        &&& forall|k: int| self.head@ <= k < self.slot_at@.len() ==> {
                &&& (#[trigger] self.slot_at@[k]) < self.nodes@.len()
                &&& self.nodes@[self.slot_at@[k] as int].live
                &&& self.seq_of@[self.slot_at@[k] as int] == k
            }
        &&& forall|s: int| 0 <= s < self.nodes@.len() && (#[trigger] self.nodes@[s]).live ==> {
                &&& self.head@ <= self.seq_of@[s] < self.slot_at@.len()
                &&& self.slot_at@[self.seq_of@[s] as int] == s
            }
        &&& forall|k: int| self.head@ < k < self.slot_at@.len() ==>
                self.nodes@[(#[trigger] self.slot_at@[k]) as int].is_locked
        &&& self.held@ == self.nodes@[self.slot_at@[self.head@ as int] as int].is_locked
        &&& forall|j: int| 0 <= j < self.free@.len() ==> {
                &&& (#[trigger] self.free@[j]) < self.nodes@.len()
                &&& !self.nodes@[self.free@[j] as int].live
            }
        &&& forall|i: int, j: int| 0 <= i < j < self.free@.len() ==>
                self.free@[i] != self.free@[j]
        &&& self.free@.len() + (self.slot_at@.len() - self.head@) == self.nodes@.len()
    }

    /// `w` has put its node at the tail and has not been admitted.
    pub closed spec fn waiting(&self, w: &Waiter) -> bool {
        &&& self.head@ < w.seq@ < self.slot_at@.len()
        &&& self.slot_at@[w.seq@ as int] == w.mine
        &&& self.slot_at@[w.seq@ - 1] == w.prev
    }

    /// `w` sees its predecessor unlocked at its next look.
    pub open spec fn admissible(&self, w: &Waiter) -> bool {
        w.node() == self.head() + 1 && !self.held()
    }

    /// `g` is the guard of the thread that holds this lock.
    pub closed spec fn holds(&self, g: &LockGuard) -> bool {
        &&& self.held@
        &&& g.seq@ == self.head@
        &&& g.node == self.slot_at@[self.head@ as int]
    }

    /// Creates an unlocked lock around `data`, with one unlocked node at the
    /// tail for the first thread to find.
    pub fn new(data: T) -> (r: Self)
        ensures
            r.wf(),
            r.allocated() == 1,
            r.head() == 0,
            r.slots() == 1,
            r.is_idle(),
            !r.is_locked(r.tail()),
            r.value() == data,
    {
        let mut nodes: Vec<Node> = Vec::new();
        nodes.push(Node::new());
        CLHLock {
            prev: 0,
            nodes,
            free: Vec::new(),
            data,
            slot_at: Ghost(Seq::empty().push(0usize)),
            seq_of: Ghost(Seq::empty().push(0nat)),
            head: Ghost(0),
            held: Ghost(false),
        }
    }

    /// Allocates a locked node, reusing a freed slot if there is one, and
    /// swaps it into the tail; the node it replaces is the one this thread
    /// now waits on.
    pub fn enqueue(&mut self) -> (w: Waiter)
        requires
            old(self).wf(),
            old(self).queue_len() < usize::MAX,
        ensures
            final(self).wf(),
            final(self).waiting(&w),
            w.node() == old(self).allocated(),
            final(self).is_live(w.node()),
            final(self).is_locked(w.node()),
            final(self).allocated() == old(self).allocated() + 1,
            final(self).head() == old(self).head(),
            final(self).held() == old(self).held(),
            final(self).value() == old(self).value(),
            forall|k: nat| k < old(self).allocated() && old(self).head() <= k ==>
                final(self).is_live(k) && final(self).is_locked(k) == old(self).is_locked(k),
            forall|k: nat| k < old(self).head() ==> !final(self).is_live(k),
            forall|g: LockGuard| old(self).holds(&g) ==> final(self).holds(&g),
            forall|v: Waiter| old(self).waiting(&v) ==> final(self).waiting(&v),
    {
        let seq = Ghost(self.slot_at@.len());
        let slot = match self.free.pop() {
            Some(s) => {
                self.nodes.set(s, Node::locked());
                proof {
                    self.seq_of@ = self.seq_of@.update(s as int, seq@);
                }
                s
            },
            None => {
                self.nodes.push(Node::locked());
                proof {
                    self.seq_of@ = self.seq_of@.push(seq@);
                }
                self.nodes.len() - 1
            },
        };
        proof {
            self.slot_at@ = self.slot_at@.push(slot);
        }
        let prev = self.prev;
        self.prev = slot;
        let w = Waiter { mine: slot, prev, seq };
        assert forall|k: nat| k < old(self).allocated() && old(self).head() <= k implies
            self.is_live(k) && self.is_locked(k) == old(self).is_locked(k) by {
            assert(old(self).slot_at@[k as int] != slot);
        }
        w
    }

    /// Frees the predecessor of `w`, seen unlocked, and admits `w`.
    fn enter(&mut self, w: Waiter) -> (g: LockGuard)
        requires
            old(self).wf(),
            old(self).waiting(&w),
            old(self).admissible(&w),
        ensures
            final(self).wf(),
            final(self).holds(&g),
            g.node() == w.node(),
            final(self).head() == old(self).head() + 1,
            final(self).allocated() == old(self).allocated(),
            final(self).value() == old(self).value(),
            !final(self).is_live(old(self).head()),
            forall|k: nat| k != old(self).head() ==>
                final(self).is_live(k) == old(self).is_live(k)
                && final(self).is_locked(k) == old(self).is_locked(k),
            forall|v: Waiter| old(self).waiting(&v) && v.node() != w.node() ==>
                final(self).waiting(&v),
    {
        let p = w.prev;
        self.nodes.set(p, Node { is_locked: false, live: false });
        self.free.push(p);
        self.head = Ghost(w.seq@);
        self.held = Ghost(true);
        LockGuard { node: w.mine, seq: w.seq }
    }

    /// One look at the predecessor's flag. If it is unlocked the thread
    /// frees the predecessor, whose memory it now owns, and is admitted;
    /// otherwise its handle comes back.
    pub fn poll(&mut self, w: Waiter) -> (r: Result<LockGuard, Waiter>)
        requires
            old(self).wf(),
            old(self).waiting(&w),
        ensures
            final(self).wf(),
            r is Ok <==> old(self).admissible(&w),
            final(self).allocated() == old(self).allocated(),
            final(self).value() == old(self).value(),
            match r {
                Ok(g) => {
                    &&& final(self).holds(&g)
                    &&& final(self).is_live(g.node())
                    &&& g.node() == w.node()
                    &&& final(self).head() == old(self).head() + 1
                    &&& !final(self).is_live(old(self).head())
                    &&& forall|k: nat| k != old(self).head() ==>
                        final(self).is_live(k) == old(self).is_live(k)
                        && final(self).is_locked(k) == old(self).is_locked(k)
                    &&& forall|v: Waiter| old(self).waiting(&v) && v.node() != w.node() ==>
                        final(self).waiting(&v)
                },
                Err(v) => v == w && *final(self) == *old(self) && final(self).waiting(&v),
            },
    {
        let pred = self.nodes[w.prev];
        if pred.is_locked {
            Err(w)
        } else {
            Ok(self.enter(w))
        }
    }

    /// Acquires a lock that no thread holds or waits for: the predecessor
    /// found at the tail is already unlocked.
    pub fn lock(&mut self) -> (g: LockGuard)
        requires
            old(self).wf(),
            old(self).is_idle(),
        ensures
            final(self).wf(),
            final(self).holds(&g),
            g.node() == old(self).allocated(),
            final(self).is_live(g.node()),
            final(self).is_locked(g.node()),
            final(self).allocated() == old(self).allocated() + 1,
            final(self).head() == old(self).head() + 1,
            final(self).head() == final(self).tail(),
            !final(self).is_live(old(self).head()),
            forall|k: nat| k < old(self).head() ==> !final(self).is_live(k),
            final(self).value() == old(self).value(),
    {
        let w = self.enqueue();
        self.enter(w)
    }

    /// How many nodes are allocated and not yet freed: the arena's slots
    /// less those on the free list.
    pub fn live_nodes(&self) -> (r: usize)
        requires
            self.wf(),
        ensures
            r as nat == self.allocated() - self.freed(),
    {
        self.nodes.len() - self.free.len()
    }

    /// How many slots the arena has: the most nodes ever alive at once.
    pub fn slot_count(&self) -> (r: usize)
        ensures
            r as nat == self.slots(),
    {
        self.nodes.len()
    }

    /// The protected value, read through the holder's guard.
    pub fn read(&self, g: &LockGuard) -> (r: &T)
        requires
            self.holds(g),
        ensures
            *r == self.value(),
    {
        &self.data
    }

    /// Replaces the protected value through the holder's guard.
    pub fn write(&mut self, g: &LockGuard, v: T)
        requires
            old(self).wf(),
            old(self).holds(g),
        ensures
            final(self).wf(),
            final(self).holds(g),
            final(self).value() == v,
            final(self).allocated() == old(self).allocated(),
            final(self).head() == old(self).head(),
            forall|k: nat| final(self).is_live(k) == old(self).is_live(k)
                && final(self).is_locked(k) == old(self).is_locked(k),
            forall|w: Waiter| old(self).waiting(&w) ==> final(self).waiting(&w),
    {
        self.data = v;
    }
}

impl LockGuard {
    /// Clears the holder's own flag: the hand-off to the successor. The node
    /// stays allocated; the successor frees it.
    pub fn unlock<T>(self, lock: &mut CLHLock<T>)
        requires
            old(lock).wf(),
            old(lock).holds(&self),
        ensures
            final(lock).wf(),
            !final(lock).held(),
            !final(lock).is_locked(self.node()),
            final(lock).allocated() == old(lock).allocated(),
            final(lock).head() == old(lock).head(),
            final(lock).value() == old(lock).value(),
            forall|k: nat| final(lock).is_live(k) == old(lock).is_live(k),
            forall|k: nat| k != self.node() && old(lock).is_live(k) ==>
                final(lock).is_locked(k) == old(lock).is_locked(k),
            forall|v: Waiter| old(lock).waiting(&v) ==> final(lock).waiting(&v),
    {
        let n = self.node;
        lock.nodes.set(n, Node { is_locked: false, live: true });
        lock.held = Ghost(false);
    }
}

/// While a guard is alive, no waiting thread sees its predecessor unlocked,
/// so at most one thread is inside at any instant.
pub proof fn lemma_mutual_exclusion<T>(lock: &CLHLock<T>, g: &LockGuard, w: &Waiter)
    requires
        lock.wf(),
        lock.holds(g),
        lock.waiting(w),
    ensures
        !lock.admissible(w),
        w.node() != g.node(),
{
}

/// Threads are admitted in the order their nodes reached the tail: while an
/// earlier thread still waits, a later one cannot be admitted.
pub proof fn lemma_fifo<T>(lock: &CLHLock<T>, first: &Waiter, later: &Waiter)
    requires
        lock.wf(),
        lock.waiting(first),
        lock.waiting(later),
        first.node() < later.node(),
    ensures
        !lock.admissible(later),
{
}

/// Every node ever allocated is either still in the queue or freed, never
/// both: the freed ones are exactly those before the head, and a freed
/// node's slot either lies on the free list or holds a later node. Once no
/// thread holds or waits, the only node still allocated is the unlocked
/// tail, and the arena holds no more slots than nodes were alive at once.
pub proof fn lemma_node_lifecycle<T>(lock: &CLHLock<T>)
    requires
        lock.wf(),
    ensures
        lock.freed() < lock.allocated(),
        lock.queue_len() <= lock.slots(),
        forall|k: nat| lock.is_live(k) <==> lock.freed() <= k < lock.allocated(),
        lock.is_idle() ==> forall|k: nat| lock.is_live(k) <==> k == lock.tail(),
        lock.is_idle() ==> !lock.is_locked(lock.tail()),
{
    assert forall|k: nat| lock.is_live(k) <==> lock.freed() <= k < lock.allocated() by {
        if lock.is_live(k) {
            let s = lock.slot_at@[k as int] as int;
            assert(lock.nodes@[s].live);
        }
        if lock.freed() <= k < lock.allocated() {
            assert(lock.slot_at@[k as int] < lock.nodes@.len());
        }
    }
}

impl<T> crate::Lock<T> for CLHLock<T> {
    type G = LockGuard;

    open spec fn inv(&self) -> bool {
        self.wf()
    }

    open spec fn is_idle(&self) -> bool {
        CLHLock::is_idle(self)
    }

    open spec fn holds(&self, g: &LockGuard) -> bool {
        CLHLock::holds(self, g)
    }

    open spec fn holder_alone(&self) -> bool {
        self.head() == self.tail()
    }

    open spec fn value(&self) -> T {
        CLHLock::value(self)
    }

    fn new(data: T) -> (r: Self) {
        CLHLock::new(data)
    }

    fn lock(&mut self) -> (g: LockGuard) {
        CLHLock::lock(self)
    }

    fn read(&self, g: &LockGuard) -> (r: &T) {
        CLHLock::read(self, g)
    }
}

impl<T> crate::Guard<T, CLHLock<T>> for LockGuard {
    fn unlock(self, lock: &mut CLHLock<T>) {
        LockGuard::unlock(self, lock)
    }
}

} // verus!
