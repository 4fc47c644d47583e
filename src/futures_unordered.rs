//! Cursors of the plain unordered set: tasks carry no key and are released
//! with no bookkeeping.
use vstd::prelude::*;
use crate::futures_unordered_internal::FuturesUnorderedInternal;
use crate::internal_iter;
use crate::release::DummyStruct;

verus! {

/// The container behind the plain set.
pub type TaskSet<Fut> = FuturesUnorderedInternal<(), Fut, DummyStruct>;

/// Exclusive cursor over the units of work of the set, newest first.
pub struct IterPinMut<'a, Fut> {
    pub inner: internal_iter::IterPinMut<'a, (), Fut, DummyStruct>,
}

/// Exclusive cursor over the units of work of the set, newest first.
pub struct IterMut<'a, Fut>(pub IterPinMut<'a, Fut>);

/// Shared cursor over the units of work of the set, newest first.
pub struct IterPinRef<'a, Fut> {
    pub inner: internal_iter::IterPinRef<'a, (), Fut, DummyStruct>,
}

/// Shared cursor over the units of work of the set, newest first.
pub struct Iter<'a, Fut>(pub IterPinRef<'a, Fut>);

/// Consuming cursor over the units of work of the set, newest first.
pub struct IntoIter<Fut> {
    pub inner: internal_iter::IntoIter<(), Fut, DummyStruct>,
}

impl<Fut> IntoIter<Fut> {
    pub fn new(set: TaskSet<Fut>) -> (r: Self)
        requires
            set.wf(),
        ensures
            r.inner.wf(),
            r.inner.inner == set,
    {
        IntoIter { inner: internal_iter::IntoIter::new(set) }
    }

    pub fn next(&mut self) -> (r: Option<Fut>)
        requires
            old(self).inner.wf(),
        ensures
            final(self).inner.wf(),
            old(self).inner.len == 0 ==> r is None && *final(self) == *old(self),
            old(self).inner.len > 0 ==> r == Some(old(self).inner.inner.futures()[0])
                && final(self).inner.inner.futures() == old(self).inner.inner.futures().drop_first(),
    {
        match self.inner.next() {
            Some((_, future)) => Some(future),
            None => None,
        }
    }

    pub fn size_hint(&self) -> (r: (usize, Option<usize>))
        ensures
            r == (self.inner.len, Some(self.inner.len)),
    {
        (self.inner.len, Some(self.inner.len))
    }
}

impl<'a, Fut> IterPinMut<'a, Fut> {
    pub fn new(set: &'a mut TaskSet<Fut>) -> (r: Self)
        requires
            old(set).wf(),
        ensures
            r.inner.wf(),
            *r.inner.set == *old(set),
            r.inner.len == old(set).all@.len(),
    {
        IterPinMut { inner: internal_iter::IterPinMut::new(set) }
    }

    pub fn next(&mut self) -> (r: Option<&mut Fut>)
        requires
            old(self).inner.wf(),
        ensures
            old(self).inner.len == 0 ==> r is None && final(self).inner.len == 0,
            old(self).inner.len > 0 ==> (r matches Some(f)
                && *f == old(self).inner.set.futures()[old(self).inner.pos()]
                && final(self).inner.set.futures() == old(self).inner.set.futures().update(old(self).inner.pos(), *final(f)))
                && final(self).inner.len == old(self).inner.len - 1,
            final(self).inner.wf(),
            final(self).inner.set.all@ == old(self).inner.set.all@,
    {
        match self.inner.next() {
            Some((_, future)) => Some(future),
            None => None,
        }
    }

    pub fn size_hint(&self) -> (r: (usize, Option<usize>))
        ensures
            r == (self.inner.len, Some(self.inner.len)),
    {
        (self.inner.len, Some(self.inner.len))
    }
}

impl<'a, Fut> IterMut<'a, Fut> {
    pub fn new(set: &'a mut TaskSet<Fut>) -> (r: Self)
        requires
            old(set).wf(),
        ensures
            r.0.inner.wf(),
            *r.0.inner.set == *old(set),
            r.0.inner.len == old(set).all@.len(),
    {
        IterMut(IterPinMut::new(set))
    }

    pub fn next(&mut self) -> (r: Option<&mut Fut>)
        requires
            old(self).0.inner.wf(),
        ensures
            old(self).0.inner.len == 0 ==> r is None && final(self).0.inner.len == 0,
            old(self).0.inner.len > 0 ==> (r matches Some(f)
                && *f == old(self).0.inner.set.futures()[old(self).0.inner.pos()]
                && final(self).0.inner.set.futures() == old(self).0.inner.set.futures().update(old(self).0.inner.pos(), *final(f)))
                && final(self).0.inner.len == old(self).0.inner.len - 1,
            final(self).0.inner.wf(),
            final(self).0.inner.set.all@ == old(self).0.inner.set.all@,
    {
        self.0.next()
    }

    pub fn size_hint(&self) -> (r: (usize, Option<usize>))
        ensures
            r == (self.0.inner.len, Some(self.0.inner.len)),
    {
        self.0.size_hint()
    }
}

impl<'a, Fut> IterPinRef<'a, Fut> {
    pub fn new(set: &'a TaskSet<Fut>) -> (r: Self)
        requires
            set.wf(),
        ensures
            r.inner.wf(),
            r.inner.set == set,
            r.inner.len == set.all@.len(),
            r.inner.remaining() == set.futures(),
    {
        IterPinRef { inner: internal_iter::IterPinRef::new(set) }
    }

    pub fn next(&mut self) -> (r: Option<&'a Fut>)
        requires
            old(self).inner.wf(),
        ensures
            final(self).inner.wf(),
            final(self).inner.set == old(self).inner.set,
            old(self).inner.len == 0 ==> r is None && final(self).inner.len == 0,
            old(self).inner.len > 0 ==> r == Some(&old(self).inner.remaining()[0])
                && final(self).inner.len == old(self).inner.len - 1,
            final(self).inner.remaining() == (if old(self).inner.len == 0 {
                old(self).inner.remaining()
            } else {
                old(self).inner.remaining().drop_first()
            }),
    {
        match self.inner.next() {
            Some((_, future)) => Some(future),
            None => None,
        }
    }

    pub fn size_hint(&self) -> (r: (usize, Option<usize>))
        ensures
            r == (self.inner.len, Some(self.inner.len)),
    {
        (self.inner.len, Some(self.inner.len))
    }
}

impl<'a, Fut> Iter<'a, Fut> {
    pub fn new(set: &'a TaskSet<Fut>) -> (r: Self)
        requires
            set.wf(),
        ensures
            r.0.inner.wf(),
            r.0.inner.set == set,
            r.0.inner.len == set.all@.len(),
            r.0.inner.remaining() == set.futures(),
    {
        Iter(IterPinRef::new(set))
    }

    pub fn next(&mut self) -> (r: Option<&'a Fut>)
        requires
            old(self).0.inner.wf(),
        ensures
            final(self).0.inner.wf(),
            final(self).0.inner.set == old(self).0.inner.set,
            old(self).0.inner.len == 0 ==> r is None && final(self).0.inner.len == 0,
            old(self).0.inner.len > 0 ==> r == Some(&old(self).0.inner.remaining()[0])
                && final(self).0.inner.len == old(self).0.inner.len - 1,
            final(self).0.inner.remaining() == (if old(self).0.inner.len == 0 {
                old(self).0.inner.remaining()
            } else {
                old(self).0.inner.remaining().drop_first()
            }),
    {
        self.0.next()
    }

    pub fn size_hint(&self) -> (r: (usize, Option<usize>))
        ensures
            r == (self.0.inner.len, Some(self.0.inner.len)),
    {
        self.0.size_hint()
    }
}

} // verus!
