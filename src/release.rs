//! What happens to a task when it is permanently removed.
use vstd::prelude::*;

verus! {

/// The policy invoked exactly once for each task that is removed for good:
/// it gets the slot's index and the task's key, and hands the key back.
pub trait ReleasesTask<K> {
    /// The slots released through this policy so far, in order.
    spec fn released(&self) -> Seq<usize>;

    fn release_task(&mut self, task: usize, key: K) -> (r: K)
        ensures
            final(self).released() == old(self).released().push(task),
            r == key;
}

/// The plain set's policy: nothing to do.
pub struct DummyStruct {
    pub released: Ghost<Seq<usize>>,
}

impl DummyStruct {
    pub fn new() -> (r: Self)
        ensures
            r.released@ == Seq::<usize>::empty(),
    {
        DummyStruct { released: Ghost(Seq::empty()) }
    }
}

impl<K> ReleasesTask<K> for DummyStruct {
    open spec fn released(&self) -> Seq<usize> {
        self.released@
    }

    fn release_task(&mut self, task: usize, key: K) -> (r: K) {
        self.released = Ghost(self.released@.push(task));
        key
    }
}

/// A policy that records, in order, the slots that were released, for an
/// index keyed by them to drop.
pub struct ReleaseLog {
    pub released: Vec<usize>,
}

impl ReleaseLog {
    pub fn new() -> (r: Self)
        ensures
            r.released@ == Seq::<usize>::empty(),
    {
        ReleaseLog { released: Vec::new() }
    }
}

impl<K> ReleasesTask<K> for ReleaseLog {
    open spec fn released(&self) -> Seq<usize> {
        self.released@
    }

    fn release_task(&mut self, task: usize, key: K) -> (r: K) {
        self.released.push(task);
        key
    }
}

} // verus!
