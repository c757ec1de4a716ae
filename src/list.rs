//! A list whose every node sits behind a lock of its own, walked hand over
//! hand: a reader takes the next node's lock before it lets go of the
//! current one. It is written against the `Lock` and `Guard` traits alone,
//! so any lock of this crate can guard its nodes.
use vstd::prelude::*;
use std::marker::PhantomData;
use crate::{Guard, Lock};

verus! {

/// An element of a `LockCoupledList`.
pub struct Node<T> {
    data: T,
}

impl<T> Node<T> {
    /// The element this node carries.
    pub closed spec fn data(&self) -> T {
        self.data
    }

    /// A node carrying `data`.
    pub fn new(data: T) -> (r: Self)
        ensures
            r.data() == data,
    {
        Node { data }
    }
}

/// A sequence of values, each behind a lock of type `L`.
pub struct LockCoupledList<T, L> {
    head: Vec<L>,
    size: usize,
    _marker: PhantomData<T>,
}

impl<T, L: Lock<Node<T>>> LockCoupledList<T, L> where L::G: Guard<Node<T>, L> {
    /// The elements, front first.
    pub closed spec fn items(&self) -> Seq<T> {
        Seq::new(self.head@.len(), |j: int| self.head@[j].value().data())
    }

    pub closed spec fn wf(&self) -> bool {
        &&& self.size as nat == self.head@.len()
        &&& forall|j: int| 0 <= j < self.head@.len() ==>
                (#[trigger] self.head@[j]).inv() && self.head@[j].is_idle()
    }

    /// An empty list.
    pub fn new() -> (r: Self)
        ensures
            r.wf(),
            r.items() == Seq::<T>::empty(),
    {
        let r = LockCoupledList { head: Vec::new(), size: 0, _marker: PhantomData };
        assert(r.items() =~= Seq::<T>::empty());
        r
    }

    /// The number of elements.
    pub fn len(&self) -> (r: usize)
        requires
            self.wf(),
        ensures
            r as nat == self.items().len(),
    {
        self.size
    }

    /// Appends `data` behind a fresh lock.
    pub fn push(&mut self, data: T)
        requires
            old(self).wf(),
            old(self).items().len() < usize::MAX,
        ensures
            final(self).wf(),
            final(self).items() == old(self).items().push(data),
    {
        self.head.push(L::new(Node::new(data)));
        self.size = self.size + 1;
        assert(self.items() =~= old(self).items().push(data));
    }
}

impl<T: Copy, L: Lock<Node<T>>> LockCoupledList<T, L> where L::G: Guard<Node<T>, L> {
    /// The element at index `i`, or `None` past the end. Walks from the
    /// front holding at most two locks at a time; every lock is free again
    /// when it returns.
    pub fn get(&mut self, i: usize) -> (r: Option<T>)
        requires
            old(self).wf(),
        ensures
            final(self).wf(),
            final(self).items() == old(self).items(),
            r == if i < old(self).items().len() {
                Some(old(self).items()[i as int])
            } else {
                None::<T>
            },
    {
        if i >= self.size {
            return None;
        }
        let ghost items = self.items();
        let mut g = self.head[0].lock();
        let mut k: usize = 0;
        while k < i
            invariant
                k <= i < self.head@.len(),
                self.size as nat == self.head@.len(),
                self.head@.len() == items.len(),
                forall|j: int| 0 <= j < self.head@.len() ==>
                    (#[trigger] self.head@[j]).value().data() == items[j],
                forall|j: int| 0 <= j < self.head@.len() ==>
                    (#[trigger] self.head@[j]).inv(),
                forall|j: int| 0 <= j < self.head@.len() && j != k ==>
                    (#[trigger] self.head@[j]).is_idle(),
                self.head@[k as int].holds(&g),
                self.head@[k as int].holder_alone(),
            decreases i - k,
        {
            let next = self.head[k + 1].lock();
            g.unlock(&mut self.head[k]);
            g = next;
            k = k + 1;
        }
        let v = self.head[k].read(&g).data;
        g.unlock(&mut self.head[k]);
        assert(self.items() =~= items);
        Some(v)
    }
}

} // verus!
