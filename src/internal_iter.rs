//! Cursors over the registry, from the newest live task to the oldest.
//!
//! Each cursor holds the slot it visits next and the number of tasks it has
//! not visited yet; shape changes of the registry are excluded while it
//! lives, by the borrow it holds.
use vstd::prelude::*;
use crate::futures_unordered_internal::FuturesUnorderedInternal;
use crate::release::ReleasesTask;

verus! {

/// Shared cursor: yields a reference to each live task's key and unit of work.
pub struct IterPinRef<'a, K, F, S> {
    pub set: &'a FuturesUnorderedInternal<K, F, S>,
    pub task: Option<usize>,
    pub len: usize,
    /// The placeholder of a task that is being linked.
    pub pending_next_all: usize,
}

/// Shared cursor projected to the unit of work.
pub struct Iter<'a, K, F, S>(pub IterPinRef<'a, K, F, S>);

/// Exclusive cursor: yields each live task's key and a mutable reference to
/// its unit of work, one at a time.
pub struct IterPinMut<'a, K, F, S> {
    pub set: &'a mut FuturesUnorderedInternal<K, F, S>,
    pub task: Option<usize>,
    pub len: usize,
}

/// Exclusive cursor projected to the unit of work.
pub struct IterMut<'a, K, F, S>(pub IterPinMut<'a, K, F, S>);

/// Consuming cursor: unlinks each live task and moves its key and unit of
/// work out.
pub struct IntoIter<K, F, S> {
    pub len: usize,
    pub inner: FuturesUnorderedInternal<K, F, S>,
}

/// The slot at position `pos` of the registry, or `None` past its end.
pub open spec fn slot_at<K, F, S: ReleasesTask<K>>(set: FuturesUnorderedInternal<K, F, S>, pos: int) -> Option<usize> {
    if pos < set.all@.len() { Some(set.all@[pos]) } else { None }
}

impl<'a, K, F, S: ReleasesTask<K>> IterPinRef<'a, K, F, S> {
    /// Position of the next task to visit.
    pub open spec fn pos(&self) -> int {
        self.set.all@.len() - self.len
    }

    /// The units of work not visited yet, in the order they will come.
    pub open spec fn remaining(&self) -> Seq<F> {
        self.set.futures().skip(self.pos())
    }

    pub open spec fn wf(&self) -> bool {
        &&& self.set.wf()
        &&& self.len <= self.set.all@.len()
        &&& self.task == slot_at(*self.set, self.pos())
        &&& self.pending_next_all == 0
    }

    /// A cursor at the newest live task of `set`.
    pub fn new(set: &'a FuturesUnorderedInternal<K, F, S>) -> (r: Self)
        requires
            set.wf(),
        ensures
            r.wf(),
            r.set == set,
            r.len == set.all@.len(),
            r.remaining() == set.futures(),
    {
        let r = IterPinRef { set, task: set.head_all, len: set.len_all, pending_next_all: set.pending_next_all() };
        assert(r.remaining() =~= set.futures());
        r
    }

    pub fn next(&mut self) -> (r: Option<(&'a K, &'a F)>)
        requires
            old(self).wf(),
        ensures
            final(self).wf(),
            final(self).set == old(self).set,
            old(self).len == 0 ==> r is None && final(self).len == 0,
            old(self).len > 0 ==> (r matches Some((k, f))
                && *k == old(self).set.keys()[old(self).pos()]
                && *f == old(self).set.futures()[old(self).pos()])
                && final(self).len == old(self).len - 1,
            final(self).remaining() == (if old(self).len == 0 {
                old(self).remaining()
            } else {
                old(self).remaining().drop_first()
            }),
    {
        match self.task {
            None => None,
            Some(t) => {
                let set: &'a FuturesUnorderedInternal<K, F, S> = self.set;
                let ghost p = self.pos();
                assert(set.linked_at(set.all@[p], p));
                let node = &set.tasks[t];
                let future = node.future.as_ref().unwrap();
                let key = node.key.as_ref().unwrap();
                proof {
                    set.lemma_fully_linked();
                }
                assert(set.node(p) == *node);
                self.task = node.spin_next_all(self.pending_next_all);
                self.len = self.len - 1;
                assert(self.remaining() =~= old(self).remaining().drop_first());
                Some((key, future))
            },
        }
    }

    pub fn size_hint(&self) -> (r: (usize, Option<usize>))
        ensures
            r == (self.len, Some(self.len)),
    {
        (self.len, Some(self.len))
    }
}

impl<'a, K, F, S: ReleasesTask<K>> IterPinMut<'a, K, F, S> {
    /// Position of the next task to visit.
    pub open spec fn pos(&self) -> int {
        self.set.all@.len() - self.len
    }

    pub open spec fn wf(&self) -> bool {
        &&& self.set.wf()
        &&& self.len <= self.set.all@.len()
        &&& self.task == slot_at(*self.set, self.pos())
    }

    /// A cursor at the newest live task of `set`.
    pub fn new(set: &'a mut FuturesUnorderedInternal<K, F, S>) -> (r: Self)
        requires
            old(set).wf(),
        ensures
            r.wf(),
            *r.set == *old(set),
            r.len == old(set).all@.len(),
    {
        let task = set.head_all;
        let len = set.len_all;
        IterPinMut { set, task, len }
    }

    pub fn next(&mut self) -> (r: Option<(&K, &mut F)>)
        requires
            old(self).wf(),
        ensures
            old(self).len == 0 ==> r is None && final(self).len == 0,
            old(self).len > 0 ==> (r matches Some((k, f))
                && *k == old(self).set.keys()[old(self).pos()]
                && *f == old(self).set.futures()[old(self).pos()]
                && final(self).set.futures() == old(self).set.futures().update(old(self).pos(), *final(f)))
                && final(self).len == old(self).len - 1,
            final(self).wf(),
            final(self).set.all@ == old(self).set.all@,
            final(self).set.keys() == old(self).set.keys(),
    {
        match self.task {
            None => None,
            Some(t) => {
                let ghost p = self.pos();
                assert(self.set.linked_at(self.set.all@[p], p));
                // With exclusive access the link is read as it stands.
                self.task = self.set.tasks[t].next_all;
                self.len = self.len - 1;
                let node = &mut self.set.tasks[t];
                let key = node.key.as_ref().unwrap();
                let future = node.future.as_mut().unwrap();
                Some((key, future))
            },
        }
    }

    pub fn size_hint(&self) -> (r: (usize, Option<usize>))
        ensures
            r == (self.len, Some(self.len)),
    {
        (self.len, Some(self.len))
    }
}

impl<'a, K, F, S: ReleasesTask<K>> Iter<'a, K, F, S> {
    pub open spec fn wf(&self) -> bool {
        self.0.wf()
    }

    pub fn next(&mut self) -> (r: Option<&'a F>)
        requires
            old(self).wf(),
        ensures
            final(self).wf(),
            final(self).0.set == old(self).0.set,
            old(self).0.len == 0 ==> r is None && final(self).0.len == 0,
            old(self).0.len > 0 ==> r == Some(&old(self).0.remaining()[0]) && final(self).0.len == old(self).0.len - 1,
            final(self).0.remaining() == (if old(self).0.len == 0 {
                old(self).0.remaining()
            } else {
                old(self).0.remaining().drop_first()
            }),
    {
        match self.0.next() {
            Some((_, future)) => Some(future),
            None => None,
        }
    }

    pub fn size_hint(&self) -> (r: (usize, Option<usize>))
        ensures
            r == (self.0.len, Some(self.0.len)),
    {
        self.0.size_hint()
    }
}

impl<'a, K, F, S: ReleasesTask<K>> IterMut<'a, K, F, S> {
    pub open spec fn wf(&self) -> bool {
        self.0.wf()
    }

    pub fn next(&mut self) -> (r: Option<&mut F>)
        requires
            old(self).wf(),
        ensures
            old(self).0.len == 0 ==> r is None && final(self).0.len == 0,
            old(self).0.len > 0 ==> (r matches Some(f)
                && *f == old(self).0.set.futures()[old(self).0.pos()]
                && final(self).0.set.futures() == old(self).0.set.futures().update(old(self).0.pos(), *final(f)))
                && final(self).0.len == old(self).0.len - 1,
            final(self).wf(),
            final(self).0.set.all@ == old(self).0.set.all@,
            final(self).0.set.keys() == old(self).0.set.keys(),
    {
        match self.0.next() {
            Some((_, future)) => Some(future),
            None => None,
        }
    }

    pub fn size_hint(&self) -> (r: (usize, Option<usize>))
        ensures
            r == (self.0.len, Some(self.0.len)),
    {
        self.0.size_hint()
    }
}

impl<K, F, S: ReleasesTask<K>> IntoIter<K, F, S> {
    pub open spec fn wf(&self) -> bool {
        &&& self.inner.wf()
        &&& self.len == self.inner.all@.len()
    }

    /// A cursor that takes the live tasks of `inner`, newest first.
    pub fn new(inner: FuturesUnorderedInternal<K, F, S>) -> (r: Self)
        requires
            inner.wf(),
        ensures
            r.wf(),
            r.inner == inner,
    {
        IntoIter { len: inner.len_all, inner }
    }

    pub fn next(&mut self) -> (r: Option<(K, F)>)
        requires
            old(self).wf(),
        ensures
            final(self).wf(),
            old(self).len == 0 ==> r is None && *final(self) == *old(self),
            old(self).len > 0 ==> r == Some((old(self).inner.keys()[0], old(self).inner.futures()[0]))
                && final(self).inner.all@ == old(self).inner.all@.drop_first()
                && final(self).inner.keys() == old(self).inner.keys().drop_first()
                && final(self).inner.futures() == old(self).inner.futures().drop_first(),
            final(self).inner.ready_to_run_queue == old(self).inner.ready_to_run_queue,
    {
        match self.inner.unlink_head() {
            None => None,
            Some((_, key, future)) => {
                self.len = self.len - 1;
                Some((key, future))
            },
        }
    }

    pub fn size_hint(&self) -> (r: (usize, Option<usize>))
        ensures
            r == (self.len, Some(self.len)),
    {
        (self.len, Some(self.len))
    }

    /// What remains of the container.
    pub fn into_inner(self) -> (r: FuturesUnorderedInternal<K, F, S>)
        ensures
            r == self.inner,
    {
        self.inner
    }
}

} // verus!
