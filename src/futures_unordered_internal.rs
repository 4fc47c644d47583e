//! The container: an arena of task slots, the registry of live tasks (a
//! doubly-linked list through `next_all` / `prev_all`, newest first), the
//! ready-to-run queue and the release policy.
use vstd::prelude::*;
use crate::ready_to_run_queue::{Dequeue, ReadyToRunQueue};
use crate::release::ReleasesTask;
use crate::task::Task;

verus! {

pub struct FuturesUnorderedInternal<K, F, S> {
    /// Every slot ever allocated; slot 0 is the stub of the ready queue.
    pub tasks: Vec<Task<K, F>>,
    /// The most recently inserted live task.
    pub head_all: Option<usize>,
    /// Number of live tasks.
    pub len_all: usize,
    pub ready_to_run_queue: ReadyToRunQueue,
    pub releaser: S,
    /// The live tasks in registry order, newest first.
    pub all: Ghost<Seq<usize>>,
}

impl<K, F, S: ReleasesTask<K>> FuturesUnorderedInternal<K, F, S> {
    /// The slot at position `i` of the registry.
    pub open spec fn node(&self, i: int) -> Task<K, F> {
        self.tasks@[self.all@[i] as int]
    }

    /// The live units of work, newest first.
    pub open spec fn futures(&self) -> Seq<F> {
        Seq::new(self.all@.len(), |i: int| self.node(i).future->0)
    }

    /// The keys of the live tasks, newest first.
    pub open spec fn keys(&self) -> Seq<K> {
        Seq::new(self.all@.len(), |i: int| self.node(i).key->0)
    }

    /// The link that the registry's shape asks for after position `i`.
    pub open spec fn next_of(&self, i: int) -> Option<usize> {
        if i + 1 < self.all@.len() { Some(self.all@[i + 1]) } else { None }
    }

    /// The link that the registry's shape asks for before position `i`.
    pub open spec fn prev_of(&self, i: int) -> Option<usize> {
        if i > 0 { Some(self.all@[i - 1]) } else { None }
    }

    /// Slot `t` stands at position `i` of the registry, fully linked and
    /// holding a key and a unit of work.
    pub open spec fn linked_at(&self, t: usize, i: int) -> bool {
        let n = self.tasks@[t as int];
        &&& 0 < t < self.tasks@.len()
        &&& n.next_all == self.next_of(i)
        &&& n.prev_all == self.prev_of(i)
        &&& n.key is Some
        &&& n.future is Some
    }

    pub open spec fn wf(&self) -> bool {
        let a = self.all@;
        &&& self.ready_to_run_queue.wf()
        &&& self.tasks@.len() <= usize::MAX
        &&& self.ready_to_run_queue.stub == 0
        &&& self.ready_to_run_queue.slots() == self.tasks@.len()
        &&& self.len_all == a.len()
        &&& a.len() < self.tasks@.len()
        &&& self.head_all == (if a.len() == 0 { None::<usize> } else { Some(a[0]) })
        &&& a.no_duplicates()
        &&& forall|i: int| 0 <= i < a.len() ==> self.linked_at(#[trigger] a[i], i)
        &&& forall|j: int| 0 < j < self.tasks@.len() ==>
                (#[trigger] self.tasks@[j]).queued == self.ready_to_run_queue@.contains(j as usize)
    }

    /// An empty container that releases tasks through `releaser`.
    pub fn new(releaser: S) -> (r: Self)
        ensures
            r.wf(),
            r.all@ == Seq::<usize>::empty(),
            r.ready_to_run_queue@ == Seq::<usize>::empty(),
            r.releaser == releaser,
    {
        let mut tasks: Vec<Task<K, F>> = Vec::new();
        tasks.push(Task::empty());
        FuturesUnorderedInternal {
            tasks,
            head_all: None,
            len_all: 0,
            ready_to_run_queue: ReadyToRunQueue::new(),
            releaser,
            all: Ghost(Seq::empty()),
        }
    }

    /// The placeholder that a task being linked holds in `next_all`: the
    /// stub's slot, which is never live.
    pub fn pending_next_all(&self) -> (r: usize)
        requires
            self.wf(),
        ensures
            r == 0,
            forall|i: int| 0 <= i < self.all@.len() ==> self.all@[i] != r,
    {
        self.ready_to_run_queue.stub()
    }

    /// Number of live tasks.
    pub fn len(&self) -> (r: usize)
        requires
            self.wf(),
        ensures
            r == self.all@.len(),
    {
        self.len_all
    }

    /// Whether no task is live.
    pub fn is_empty(&self) -> (r: bool)
        requires
            self.wf(),
        ensures
            r == (self.all@.len() == 0),
    {
        self.head_all.is_none()
    }

    /// Inserts a unit of work under `key` in a new slot, links it at the head
    /// of the registry and queues it, so that it is polled at least once.
    /// Returns the slot's index.
    pub fn push(&mut self, key: K, future: F) -> (r: usize)
        requires
            old(self).wf(),
            old(self).tasks@.len() < usize::MAX,
        ensures
            final(self).wf(),
            r == old(self).tasks@.len(),
            final(self).tasks@.len() == old(self).tasks@.len() + 1,
            final(self).all@ == seq![r].add(old(self).all@),
            final(self).futures() == seq![future].add(old(self).futures()),
            final(self).keys() == seq![key].add(old(self).keys()),
            final(self).ready_to_run_queue@ == old(self).ready_to_run_queue@.push(r),
            final(self).releaser == old(self).releaser,
    {
        let ghost a = self.all@;
        let pending = self.pending_next_all();
        let idx = self.ready_to_run_queue.add_slot();
        // The new task holds the placeholder as its successor until it is
        // linked in front of the current head.
        let task = Task {
            key: Some(key),
            future: Some(future),
            next_all: Some(pending),
            prev_all: None,
            queued: true,
        };
        self.tasks.push(task);
        let next = self.head_all;
        self.tasks[idx].next_all = next;
        match next {
            Some(h) => {
                self.tasks[h].prev_all = Some(idx);
            },
            None => {},
        }
        self.head_all = Some(idx);
        self.len_all = self.len_all + 1;
        self.all = Ghost(seq![idx].add(a));
        assert(!old(self).ready_to_run_queue@.contains(idx)) by {
            if old(self).ready_to_run_queue@.contains(idx) {
                let j = choose|j: int| 0 <= j < old(self).ready_to_run_queue@.len() && old(self).ready_to_run_queue@[j] == idx;
                assert(old(self).ready_to_run_queue.items@[j] < old(self).tasks@.len());
            }
        }
        self.ready_to_run_queue.enqueue(idx);
        assert(!a.contains(idx)) by {
            if a.contains(idx) {
                let j = choose|j: int| 0 <= j < a.len() && a[j] == idx;
                assert(a[j] < old(self).tasks@.len());
            }
        }
        assert forall|i: int| 0 <= i < self.all@.len() implies self.linked_at(#[trigger] self.all@[i], i) by {
            if i > 0 {
                assert(self.all@[i] == a[i - 1]);
                assert(old(self).linked_at(a[i - 1], i - 1));
                assert(a[i - 1] != idx);
                if i > 1 {
                    assert(a[i - 1] != a[0]);
                }
            }
        }
        assert forall|j: int| 0 < j < self.tasks@.len() implies
            (#[trigger] self.tasks@[j]).queued == self.ready_to_run_queue@.contains(j as usize) by {
            if j < old(self).tasks@.len() {
                assert(self.tasks@[j].queued == old(self).tasks@[j].queued);
                assert(j != idx);
                if old(self).ready_to_run_queue@.contains(j as usize) {
                    let k = choose|k: int| 0 <= k < old(self).ready_to_run_queue@.len() && old(self).ready_to_run_queue@[k] == j as usize;
                    assert(self.ready_to_run_queue@[k] == j as usize);
                }
                if self.ready_to_run_queue@.contains(j as usize) {
                    let k = choose|k: int| 0 <= k < self.ready_to_run_queue@.len() && self.ready_to_run_queue@[k] == j as usize;
                    assert(k < old(self).ready_to_run_queue@.len());
                    assert(old(self).ready_to_run_queue@[k] == j as usize);
                }
            } else {
                assert(self.ready_to_run_queue@.last() == idx);
            }
        }
        assert(self.futures() =~= seq![future].add(old(self).futures()));
        assert(self.keys() =~= seq![key].add(old(self).keys()));
        idx
    }

    /// Unlinks the newest live task and moves its index, key and unit of work
    /// out. Its slot stays allocated, and stays queued if it was.
    pub fn unlink_head(&mut self) -> (r: Option<(usize, K, F)>)
        requires
            old(self).wf(),
        ensures
            final(self).wf(),
            old(self).all@.len() == 0 ==> r is None && *final(self) == *old(self),
            old(self).all@.len() > 0 ==> r == Some((old(self).all@[0], old(self).keys()[0], old(self).futures()[0]))
                && final(self).all@ == old(self).all@.drop_first()
                && final(self).futures() == old(self).futures().drop_first()
                && final(self).keys() == old(self).keys().drop_first(),
            final(self).tasks@.len() == old(self).tasks@.len(),
            final(self).ready_to_run_queue == old(self).ready_to_run_queue,
            final(self).releaser == old(self).releaser,
    {
        let ghost a = self.all@;
        match self.head_all {
            None => {
                None
            },
            Some(h) => {
                assert(self.node(0).key is Some && self.node(0).future is Some);
                let future = self.tasks[h].future.take().unwrap();
                let key = self.tasks[h].key.take().unwrap();
                // With exclusive access the link is read as it stands.
                let next = self.tasks[h].next_all;
                self.tasks[h].next_all = None;
                self.head_all = next;
                match next {
                    Some(n) => {
                        assert(n == a[1]);
                        self.tasks[n].prev_all = None;
                    },
                    None => {},
                }
                self.len_all = self.len_all - 1;
                self.all = Ghost(a.drop_first());
                assert forall|i: int| 0 <= i < self.all@.len() implies
                    (#[trigger] self.node(i)).next_all == self.next_of(i)
                    && self.node(i).prev_all == self.prev_of(i)
                    && self.node(i).key is Some && self.node(i).future is Some by {
                    assert(self.all@[i] == a[i + 1]);
                    assert(a[i + 1] != h);
                    assert(old(self).node(i + 1).next_all == old(self).next_of(i + 1));
                }
                assert forall|j: int| 0 < j < self.tasks@.len() implies
                    (#[trigger] self.tasks@[j]).queued == self.ready_to_run_queue@.contains(j as usize) by {
                    assert(self.tasks@[j].queued == old(self).tasks@[j].queued);
                }
                assert(self.futures() =~= old(self).futures().drop_first());
                assert(self.keys() =~= old(self).keys().drop_first());
                Some((h, key, future))
            },
        }
    }

    /// Signals that the task in slot `task` should be polled again: queues it
    /// unless it is queued already.
    pub fn wake(&mut self, task: usize)
        requires
            old(self).wf(),
            0 < task < old(self).tasks@.len(),
        ensures
            final(self).wf(),
            final(self).ready_to_run_queue@ == (if old(self).tasks@[task as int].queued {
                old(self).ready_to_run_queue@
            } else {
                old(self).ready_to_run_queue@.push(task)
            }),
            final(self).all@ == old(self).all@,
            final(self).futures() == old(self).futures(),
            final(self).keys() == old(self).keys(),
            final(self).tasks@.len() == old(self).tasks@.len(),
    {
        if !self.tasks[task].queued {
            self.tasks[task].queued = true;
            self.ready_to_run_queue.enqueue(task);
            proof {
                self.lemma_queued_after_push(*old(self), task);
                self.lemma_links_kept(*old(self));
            }
        }
        assert(self.futures() =~= old(self).futures());
        assert(self.keys() =~= old(self).keys());
    }

    /// Changing only queued flags keeps the registry's shape.
    proof fn lemma_links_kept(&self, prev: Self)
        requires
            prev.wf(),
            self.all@ == prev.all@,
            self.tasks@.len() == prev.tasks@.len(),
            forall|j: int| 0 <= j < self.tasks@.len() ==> (#[trigger] self.tasks@[j]).key == prev.tasks@[j].key
                && self.tasks@[j].future == prev.tasks@[j].future
                && self.tasks@[j].next_all == prev.tasks@[j].next_all
                && self.tasks@[j].prev_all == prev.tasks@[j].prev_all,
        ensures
            forall|i: int| 0 <= i < self.all@.len() ==> (#[trigger] self.node(i)).next_all == self.next_of(i)
                && self.node(i).prev_all == self.prev_of(i)
                && self.node(i).key is Some && self.node(i).future is Some,
            self.futures() == prev.futures(),
            self.keys() == prev.keys(),
    {
        assert forall|i: int| 0 <= i < self.all@.len() implies (#[trigger] self.node(i)).next_all == self.next_of(i)
            && self.node(i).prev_all == self.prev_of(i)
            && self.node(i).key is Some && self.node(i).future is Some by {
            assert(prev.node(i).next_all == prev.next_of(i));
            assert(self.all@[i] < self.tasks@.len());
        }
        assert(self.futures() =~= prev.futures());
        assert(self.keys() =~= prev.keys());
    }

    /// Setting the flag of `task` while queueing it keeps each slot's flag in
    /// step with the queue.
    proof fn lemma_queued_after_push(&self, prev: Self, task: usize)
        requires
            prev.wf(),
            0 < task < prev.tasks@.len(),
            self.tasks@ == prev.tasks@.update(task as int, Task { queued: true, ..prev.tasks@[task as int] }),
            self.ready_to_run_queue@ == prev.ready_to_run_queue@.push(task),
        ensures
            forall|j: int| 0 < j < self.tasks@.len() ==>
                (#[trigger] self.tasks@[j]).queued == self.ready_to_run_queue@.contains(j as usize),
    {
        let q0 = prev.ready_to_run_queue@;
        let q1 = self.ready_to_run_queue@;
        assert forall|j: int| 0 < j < self.tasks@.len() implies
            (#[trigger] self.tasks@[j]).queued == q1.contains(j as usize) by {
            if j == task {
                assert(q1.last() == task);
            } else {
                if q0.contains(j as usize) {
                    let k = choose|k: int| 0 <= k < q0.len() && q0[k] == j as usize;
                    assert(q1[k] == j as usize);
                }
                if q1.contains(j as usize) {
                    let k = choose|k: int| 0 <= k < q1.len() && q1[k] == j as usize;
                    assert(q0[k] == j as usize);
                }
            }
        }
    }

    /// One step of the consumer: takes the slot at the front of the ready
    /// queue and clears its queued flag, so that a wake during its poll queues
    /// it again. `None` when nothing is ready.
    pub fn poll_ready(&mut self) -> (r: Option<usize>)
        requires
            old(self).wf(),
        ensures
            final(self).wf(),
            old(self).ready_to_run_queue@.len() == 0 <==> r is None,
            r is Some ==> r == Some(old(self).ready_to_run_queue@[0])
                && final(self).ready_to_run_queue@ == old(self).ready_to_run_queue@.drop_first()
                && !final(self).tasks@[r->0 as int].queued,
            r is None ==> final(self).ready_to_run_queue@ == old(self).ready_to_run_queue@,
            final(self).all@ == old(self).all@,
            final(self).futures() == old(self).futures(),
            final(self).keys() == old(self).keys(),
            final(self).tasks@.len() == old(self).tasks@.len(),
    {
        match self.ready_to_run_queue.dequeue() {
            Dequeue::Empty => {
                assert(self.wf());
                None
            },
            Dequeue::Inconsistent => {
                // Every enqueue of this container completes before the next
                // step, so the queue is never caught mid-insert.
                assert(false);
                None
            },
            Dequeue::Data(t) => {
                let ghost q0 = old(self).ready_to_run_queue@;
                assert(q0.contains(t) && q0[0] == t);
                assert(self.ready_to_run_queue.items@ == q0.drop_first());
                assert(t < self.tasks@.len());
                assert(t != 0);
                self.tasks[t].queued = false;
                proof {
                    self.lemma_links_kept(*old(self));
                }
                assert forall|j: int| 0 < j < self.tasks@.len() implies
                    (#[trigger] self.tasks@[j]).queued == self.ready_to_run_queue@.contains(j as usize) by {
                    let q1 = self.ready_to_run_queue@;
                    if j == t {
                        if q1.contains(t) {
                            let k = choose|k: int| 0 <= k < q1.len() && q1[k] == t;
                            assert(q0[k + 1] == t);
                        }
                    } else {
                        assert(self.tasks@[j] == old(self).tasks@[j]);
                        if q0.contains(j as usize) {
                            let k = choose|k: int| 0 <= k < q0.len() && q0[k] == j as usize;
                            if k == 0 {
                                assert(q0[0] == t);
                            }
                            assert(q1[k - 1] == j as usize);
                        }
                        if q1.contains(j as usize) {
                            let k = choose|k: int| 0 <= k < q1.len() && q1[k] == j as usize;
                            assert(q0[k + 1] == j as usize);
                        }
                    }
                }
                assert(self.wf());
                Some(t)
            },
        }
    }

    /// Tears everything down: empties the ready queue, then unlinks every
    /// live task, newest first, handing each key to the release policy once.
    /// Returns the released slots in that order.
    pub fn release_all(&mut self) -> (r: Vec<usize>)
        requires
            old(self).wf(),
        ensures
            final(self).wf(),
            r@ == old(self).all@,
            r@.no_duplicates(),
            final(self).all@ == Seq::<usize>::empty(),
            final(self).ready_to_run_queue@ == Seq::<usize>::empty(),
            final(self).tasks@.len() == old(self).tasks@.len(),
            final(self).releaser.released() == old(self).releaser.released().add(old(self).all@),
    {
        let _ = self.ready_to_run_queue.drain();
        let n = self.tasks.len();
        let mut i: usize = 1;
        while i < n
            invariant
                1 <= i <= n,
                n == self.tasks@.len(),
                n == old(self).tasks@.len(),
                self.ready_to_run_queue.wf(),
                self.ready_to_run_queue.stub == 0,
                self.ready_to_run_queue.slots() == n,
                self.ready_to_run_queue@ == Seq::<usize>::empty(),
                self.all@ == old(self).all@,
                self.releaser == old(self).releaser,
                self.len_all == old(self).len_all,
                self.head_all == old(self).head_all,
                forall|j: int| 1 <= j < i ==> !(#[trigger] self.tasks@[j]).queued,
                forall|j: int| 0 <= j < n ==> (#[trigger] self.tasks@[j]).key == old(self).tasks@[j].key
                    && self.tasks@[j].future == old(self).tasks@[j].future
                    && self.tasks@[j].next_all == old(self).tasks@[j].next_all
                    && self.tasks@[j].prev_all == old(self).tasks@[j].prev_all,
            decreases n - i,
        {
            self.tasks[i].queued = false;
            i = i + 1;
        }
        assert forall|k: int| 0 <= k < self.all@.len() implies
            (#[trigger] self.node(k)).next_all == self.next_of(k)
            && self.node(k).prev_all == self.prev_of(k)
            && self.node(k).key is Some && self.node(k).future is Some by {
            assert(old(self).node(k).next_all == old(self).next_of(k));
            assert(self.all@[k] < n);
        }
        let mut released: Vec<usize> = Vec::new();
        assert(released@.add(self.all@) =~= self.all@);
        assert(self.wf());
        loop
            invariant
                self.wf(),
                self.ready_to_run_queue@ == Seq::<usize>::empty(),
                self.tasks@.len() == n,
                old(self).all@ == released@.add(self.all@),
                self.releaser.released() == old(self).releaser.released().add(released@),
            ensures
                self.releaser.released() == old(self).releaser.released().add(released@),
                self.wf(),
                self.ready_to_run_queue@ == Seq::<usize>::empty(),
                self.tasks@.len() == n,
                old(self).all@ == released@,
                self.all@.len() == 0,
            decreases self.all@.len(),
        {
            let ghost a = self.all@;
            match self.unlink_head() {
                None => {
                    assert(self.all@.len() == 0);
                    assert(released@.add(self.all@) =~= released@);
                    break;
                },
                Some((t, key, future)) => {
                    let _ = self.releaser.release_task(t, key);
                    released.push(t);
                    assert(self.releaser.released() =~= old(self).releaser.released().add(released@));
                    assert(released@.add(self.all@) =~= old(self).all@) by {
                        assert(a =~= seq![t].add(self.all@));
                    }
                },
            }
        }
        assert(self.all@ =~= Seq::<usize>::empty());
        released
    }


    /// Position of live slot `t` in the registry.
    pub open spec fn position(&self, t: usize) -> int {
        choose|i: int| 0 <= i < self.all@.len() && self.all@[i] == t
    }

    /// Removes the live task in slot `task` for good, once its unit of work
    /// has completed: splices it out of the registry, hands its key to the
    /// release policy and returns its unit of work. The slot stays allocated,
    /// and stays queued if it was.
    #[verifier::rlimit(60)]
    pub fn release_task(&mut self, task: usize) -> (r: F)
        requires
            old(self).wf(),
            old(self).all@.contains(task),
        ensures
            final(self).wf(),
            r == old(self).futures()[old(self).position(task)],
            final(self).all@ == old(self).all@.remove(old(self).position(task)),
            final(self).futures() == old(self).futures().remove(old(self).position(task)),
            final(self).keys() == old(self).keys().remove(old(self).position(task)),
            final(self).tasks@.len() == old(self).tasks@.len(),
            final(self).ready_to_run_queue == old(self).ready_to_run_queue,
            final(self).releaser.released() == old(self).releaser.released().push(task),
    {
        let ghost a = self.all@;
        let ghost p = self.position(task);
        assert(self.linked_at(a[p], p));
        let prev = self.tasks[task].prev_all;
        let next = self.tasks[task].next_all;
        let future = self.tasks[task].future.take().unwrap();
        let key = self.tasks[task].key.take().unwrap();
        self.tasks[task].next_all = None;
        self.tasks[task].prev_all = None;
        match prev {
            Some(pv) => {
                assert(self.linked_at(a[p - 1], p - 1));
                self.tasks[pv].next_all = next;
            },
            None => {
                self.head_all = next;
            },
        }
        match next {
            Some(nx) => {
                assert(old(self).linked_at(a[p + 1], p + 1));
                self.tasks[nx].prev_all = prev;
            },
            None => {},
        }
        self.len_all = self.len_all - 1;
        self.all = Ghost(a.remove(p));
        assert forall|i: int| 0 <= i < self.all@.len() implies self.linked_at(#[trigger] self.all@[i], i) by {
            if i < p {
                assert(self.all@[i] == a[i]);
                assert(old(self).linked_at(a[i], i));
                assert(a[i] != task);
                if i + 1 < p {
                    assert(a[i] != a[p - 1]);
                }
                if p + 1 < a.len() {
                    assert(a[i] != a[p + 1]);
                }
            } else {
                assert(self.all@[i] == a[i + 1]);
                assert(old(self).linked_at(a[i + 1], i + 1));
                assert(a[i + 1] != task);
                if i > p {
                    assert(a[i + 1] != a[p + 1]);
                }
                if p > 0 {
                    assert(a[i + 1] != a[p - 1]);
                }
            }
        }
        assert forall|j: int| 0 < j < self.tasks@.len() implies
            (#[trigger] self.tasks@[j]).queued == self.ready_to_run_queue@.contains(j as usize) by {
            assert(self.tasks@[j].queued == old(self).tasks@[j].queued);
        }
        assert(self.futures() =~= old(self).futures().remove(p));
        assert(self.keys() =~= old(self).keys().remove(p));
        let _ = self.releaser.release_task(task, key);
        future
    }

    /// No task reachable in the registry is partially linked: none holds the
    /// placeholder as its successor, and each successor link leads to the
    /// next live task.
    pub proof fn lemma_fully_linked(&self)
        requires
            self.wf(),
        ensures
            forall|i: int| 0 <= i < self.all@.len() ==> (#[trigger] self.node(i)).next_all != Some(0usize)
                && self.node(i).next_all == self.next_of(i),
    {
        assert forall|i: int| 0 <= i < self.all@.len() implies (#[trigger] self.node(i)).next_all != Some(0usize)
            && self.node(i).next_all == self.next_of(i) by {
            assert(self.linked_at(self.all@[i], i));
            if i + 1 < self.all@.len() {
                assert(self.linked_at(self.all@[i + 1], i + 1));
            }
        }
    }

    /// Pushing units of work one after another onto an empty container leaves
    /// them in reverse order of insertion, most recent first, with one live
    /// task for each unit pushed.
    pub proof fn lemma_push_order(states: Seq<Self>, pushed: Seq<F>)
        requires
            states.len() == pushed.len() + 1,
            states[0].all@.len() == 0,
            forall|i: int| 0 <= i < pushed.len() ==> #[trigger] states[i + 1].all@.len() == states[i].all@.len() + 1,
            forall|i: int| 0 <= i < pushed.len() ==> #[trigger] states[i + 1].futures() == seq![pushed[i]].add(states[i].futures()),
        ensures
            states.last().futures() == pushed.reverse(),
            states.last().all@.len() == pushed.len(),
    {
        Self::lemma_push_order_prefix(states, pushed, pushed.len() as int);
        assert(pushed.take(pushed.len() as int) =~= pushed);
    }

    proof fn lemma_push_order_prefix(states: Seq<Self>, pushed: Seq<F>, k: int)
        requires
            states.len() == pushed.len() + 1,
            0 <= k <= pushed.len(),
            states[0].all@.len() == 0,
            forall|i: int| 0 <= i < pushed.len() ==> #[trigger] states[i + 1].all@.len() == states[i].all@.len() + 1,
            forall|i: int| 0 <= i < pushed.len() ==> #[trigger] states[i + 1].futures() == seq![pushed[i]].add(states[i].futures()),
        ensures
            states[k].futures() == pushed.take(k).reverse(),
            states[k].all@.len() == k,
        decreases k,
    {
        if k == 0 {
            assert(states[0].futures() =~= Seq::<F>::empty());
            assert(pushed.take(0).reverse() =~= Seq::<F>::empty());
        } else {
            Self::lemma_push_order_prefix(states, pushed, k - 1);
            let j = k - 1;
            assert(states[j + 1].futures() == seq![pushed[j]].add(states[j].futures()));
            assert(states[j + 1].all@.len() == states[j].all@.len() + 1);
            assert(states[k].futures() =~= pushed.take(k).reverse());
        }
    }

}

} // verus!
