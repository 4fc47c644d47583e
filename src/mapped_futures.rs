//! Cursors of the keyed map: every task carries its key, and each release
//! is recorded so that the key index can drop it.
use vstd::prelude::*;
use crate::futures_unordered_internal::FuturesUnorderedInternal;
use crate::internal_iter;
use crate::release::ReleaseLog;

verus! {

/// The container behind the keyed map.
pub type TaskMap<K, Fut> = FuturesUnorderedInternal<K, Fut, ReleaseLog>;

/// Exclusive cursor over the entries of the map, newest first.
pub struct IterPinMut<'a, K, Fut> {
    pub inner: internal_iter::IterPinMut<'a, K, Fut, ReleaseLog>,
}

/// Exclusive cursor over the entries of the map, newest first.
pub struct IterMut<'a, K, Fut>(pub IterPinMut<'a, K, Fut>);

/// Shared cursor over the entries of the map, newest first.
pub struct IterPinRef<'a, K, Fut> {
    pub inner: internal_iter::IterPinRef<'a, K, Fut, ReleaseLog>,
}

/// Shared cursor over the entries of the map, newest first.
pub struct Iter<'a, K, Fut>(pub IterPinRef<'a, K, Fut>);

/// Consuming cursor over the entries of the map, newest first.
pub struct IntoIter<K, Fut> {
    pub inner: internal_iter::IntoIter<K, Fut, ReleaseLog>,
}

/// Shared cursor over the keys of the map, newest first.
pub struct Keys<'a, K, Fut> {
    pub inner: internal_iter::IterPinRef<'a, K, Fut, ReleaseLog>,
}

impl<K, Fut> IntoIter<K, Fut> {
    pub fn new(map: TaskMap<K, Fut>) -> (r: Self)
        requires
            map.wf(),
        ensures
            r.inner.wf(),
            r.inner.inner == map,
    {
        IntoIter { inner: internal_iter::IntoIter::new(map) }
    }

    pub fn next(&mut self) -> (r: Option<(K, Fut)>)
        requires
            old(self).inner.wf(),
        ensures
            final(self).inner.wf(),
            old(self).inner.len == 0 ==> r is None && *final(self) == *old(self),
            old(self).inner.len > 0 ==> r == Some((old(self).inner.inner.keys()[0], old(self).inner.inner.futures()[0]))
                && final(self).inner.inner.keys() == old(self).inner.inner.keys().drop_first()
                && final(self).inner.inner.futures() == old(self).inner.inner.futures().drop_first(),
    {
        self.inner.next()
    }

    pub fn size_hint(&self) -> (r: (usize, Option<usize>))
        ensures
            r == (self.inner.len, Some(self.inner.len)),
    {
        self.inner.size_hint()
    }
}

impl<'a, K, Fut> IterPinMut<'a, K, Fut> {
    pub fn new(map: &'a mut TaskMap<K, Fut>) -> (r: Self)
        requires
            old(map).wf(),
        ensures
            r.inner.wf(),
            *r.inner.set == *old(map),
            r.inner.len == old(map).all@.len(),
    {
        IterPinMut { inner: internal_iter::IterPinMut::new(map) }
    }

    pub fn next(&mut self) -> (r: Option<(&K, &mut Fut)>)
        requires
            old(self).inner.wf(),
        ensures
            old(self).inner.len == 0 ==> r is None && final(self).inner.len == 0,
            old(self).inner.len > 0 ==> (r matches Some((k, f))
                && *k == old(self).inner.set.keys()[old(self).inner.pos()]
                && *f == old(self).inner.set.futures()[old(self).inner.pos()]
                && final(self).inner.set.futures() == old(self).inner.set.futures().update(old(self).inner.pos(), *final(f)))
                && final(self).inner.len == old(self).inner.len - 1,
            final(self).inner.wf(),
            final(self).inner.set.all@ == old(self).inner.set.all@,
            final(self).inner.set.keys() == old(self).inner.set.keys(),
    {
        self.inner.next()
    }

    pub fn size_hint(&self) -> (r: (usize, Option<usize>))
        ensures
            r == (self.inner.len, Some(self.inner.len)),
    {
        (self.inner.len, Some(self.inner.len))
    }
}

impl<'a, K, Fut> IterMut<'a, K, Fut> {
    pub fn new(map: &'a mut TaskMap<K, Fut>) -> (r: Self)
        requires
            old(map).wf(),
        ensures
            r.0.inner.wf(),
            *r.0.inner.set == *old(map),
            r.0.inner.len == old(map).all@.len(),
    {
        IterMut(IterPinMut::new(map))
    }

    pub fn next(&mut self) -> (r: Option<(&K, &mut Fut)>)
        requires
            old(self).0.inner.wf(),
        ensures
            old(self).0.inner.len == 0 ==> r is None && final(self).0.inner.len == 0,
            old(self).0.inner.len > 0 ==> (r matches Some((k, f))
                && *k == old(self).0.inner.set.keys()[old(self).0.inner.pos()]
                && *f == old(self).0.inner.set.futures()[old(self).0.inner.pos()]
                && final(self).0.inner.set.futures() == old(self).0.inner.set.futures().update(old(self).0.inner.pos(), *final(f)))
                && final(self).0.inner.len == old(self).0.inner.len - 1,
            final(self).0.inner.wf(),
            final(self).0.inner.set.all@ == old(self).0.inner.set.all@,
            final(self).0.inner.set.keys() == old(self).0.inner.set.keys(),
    {
        self.0.next()
    }

    pub fn size_hint(&self) -> (r: (usize, Option<usize>))
        ensures
            r == (self.0.inner.len, Some(self.0.inner.len)),
    {
        self.0.size_hint()
    }
}

impl<'a, K, Fut> IterPinRef<'a, K, Fut> {
    pub fn new(map: &'a TaskMap<K, Fut>) -> (r: Self)
        requires
            map.wf(),
        ensures
            r.inner.wf(),
            r.inner.set == map,
            r.inner.len == map.all@.len(),
    {
        IterPinRef { inner: internal_iter::IterPinRef::new(map) }
    }

    pub fn next(&mut self) -> (r: Option<(&'a K, &'a Fut)>)
        requires
            old(self).inner.wf(),
        ensures
            final(self).inner.wf(),
            final(self).inner.set == old(self).inner.set,
            old(self).inner.len == 0 ==> r is None && final(self).inner.len == 0,
            old(self).inner.len > 0 ==> (r matches Some((k, f))
                && *k == old(self).inner.set.keys()[old(self).inner.pos()]
                && *f == old(self).inner.set.futures()[old(self).inner.pos()])
                && final(self).inner.len == old(self).inner.len - 1,
    {
        self.inner.next()
    }

    pub fn size_hint(&self) -> (r: (usize, Option<usize>))
        ensures
            r == (self.inner.len, Some(self.inner.len)),
    {
        self.inner.size_hint()
    }
}

impl<'a, K, Fut> Iter<'a, K, Fut> {
    pub fn new(map: &'a TaskMap<K, Fut>) -> (r: Self)
        requires
            map.wf(),
        ensures
            r.0.inner.wf(),
            r.0.inner.set == map,
            r.0.inner.len == map.all@.len(),
    {
        Iter(IterPinRef::new(map))
    }

    pub fn next(&mut self) -> (r: Option<(&'a K, &'a Fut)>)
        requires
            old(self).0.inner.wf(),
        ensures
            final(self).0.inner.wf(),
            final(self).0.inner.set == old(self).0.inner.set,
            old(self).0.inner.len == 0 ==> r is None && final(self).0.inner.len == 0,
            old(self).0.inner.len > 0 ==> (r matches Some((k, f))
                && *k == old(self).0.inner.set.keys()[old(self).0.inner.pos()]
                && *f == old(self).0.inner.set.futures()[old(self).0.inner.pos()])
                && final(self).0.inner.len == old(self).0.inner.len - 1,
    {
        self.0.next()
    }

    pub fn size_hint(&self) -> (r: (usize, Option<usize>))
        ensures
            r == (self.0.inner.len, Some(self.0.inner.len)),
    {
        self.0.size_hint()
    }
}

impl<'a, K, Fut> Keys<'a, K, Fut> {
    pub fn new(map: &'a TaskMap<K, Fut>) -> (r: Self)
        requires
            map.wf(),
        ensures
            r.inner.wf(),
            r.inner.set == map,
            r.inner.len == map.all@.len(),
    {
        Keys { inner: internal_iter::IterPinRef::new(map) }
    }

    pub fn next(&mut self) -> (r: Option<&'a K>)
        requires
            old(self).inner.wf(),
        ensures
            final(self).inner.wf(),
            final(self).inner.set == old(self).inner.set,
            old(self).inner.len == 0 ==> r is None && final(self).inner.len == 0,
            old(self).inner.len > 0 ==> r == Some(&old(self).inner.set.keys()[old(self).inner.pos()])
                && final(self).inner.len == old(self).inner.len - 1,
    {
        match self.inner.next() {
            Some((key, _)) => Some(key),
            None => None,
        }
    }

    pub fn size_hint(&self) -> (r: (usize, Option<usize>))
        ensures
            r == (self.inner.len, Some(self.inner.len)),
    {
        self.inner.size_hint()
    }
}

} // verus!
