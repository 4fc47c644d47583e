//! One slot of the arena: a pending unit of work and its registry links.
use vstd::prelude::*;

verus! {

/// A task slot. Once linked into the registry, a slot never moves: its index
/// is its address.
pub struct Task<K, F> {
    /// The key, present while the task is live; taken at release.
    pub key: Option<K>,
    /// The unit of work; `None` once it is taken out.
    pub future: Option<F>,
    /// The next slot of the registry (inserted earlier), if any.
    pub next_all: Option<usize>,
    /// The previous slot of the registry (inserted later), if any.
    pub prev_all: Option<usize>,
    /// Whether the slot sits in the ready-to-run queue.
    pub queued: bool,
}

impl<K, F> Task<K, F> {
    /// A slot that holds nothing and is linked nowhere, like the stub.
    pub fn empty() -> (r: Self)
        ensures
            r.key is None,
            r.future is None,
            r.next_all is None,
            r.prev_all is None,
            !r.queued,
    {
        Task { key: None, future: None, next_all: None, prev_all: None, queued: false }
    }

    /// Reads `next_all` for a shared reader. A task that is being linked
    /// holds the placeholder `pending` there until its successor is
    /// published; a reader must not take the placeholder for a successor.
    /// Every task the caller can reach is fully linked, so the first read is
    /// the answer.
    pub fn spin_next_all(&self, pending: usize) -> (r: Option<usize>)
        requires
            self.next_all != Some(pending),
        ensures
            r == self.next_all,
            r != Some(pending),
    {
        self.next_all
    }
}

} // verus!
