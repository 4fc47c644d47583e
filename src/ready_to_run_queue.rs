//! The intrusive multi-producer / single-consumer queue of slots that are
//! ready to be polled again.
//!
//! Each slot of the arena has one `next_ready_to_run` link, held here. A
//! permanently allocated stub slot keeps the queue from ever being empty from
//! a producer's point of view: `head` is the slot most recently enqueued,
//! `tail` the slot the consumer reads next.
use vstd::prelude::*;

verus! {

/// Outcome of one attempt to take a slot off the queue.
pub enum Dequeue {
    /// The slot at the front of the queue, now taken off it.
    Data(usize),
    /// Nothing is queued.
    Empty,
    /// A producer is between publishing `head` and linking its predecessor:
    /// the caller retries.
    Inconsistent,
}

pub struct ReadyToRunQueue {
    /// The slot most recently enqueued.
    pub head: usize,
    /// The slot that the consumer looks at next.
    pub tail: usize,
    /// The sentinel slot; it never holds work.
    pub stub: usize,
    /// `next_ready_to_run` link of every slot of the arena.
    pub next_ready: Vec<Option<usize>>,
    /// The queued slots, front first, without the stub.
    pub items: Ghost<Seq<usize>>,
    /// Whether the stub stands in front of `items` in the linked chain.
    pub stub_front: Ghost<bool>,
}

impl ReadyToRunQueue {
    /// The slots queued for polling, front first.
    pub open spec fn view(&self) -> Seq<usize> {
        self.items@
    }

    /// The chain of slots linked from `tail` to `head`.
    pub open spec fn chain(&self) -> Seq<usize> {
        if self.stub_front@ {
            seq![self.stub].add(self.items@)
        } else {
            self.items@
        }
    }

    /// Number of slots the queue has links for.
    pub open spec fn slots(&self) -> nat {
        self.next_ready@.len()
    }

    pub open spec fn wf(&self) -> bool {
        let c = self.chain();
        &&& self.stub < self.next_ready@.len()
        &&& c.len() > 0
        &&& self.tail == c[0]
        &&& self.head == c.last()
        &&& self.next_ready@[self.head as int] is None
        &&& forall|i: int| 0 <= i < c.len() - 1 ==> self.next_ready@[#[trigger] c[i] as int] == Some(c[i + 1])
        &&& forall|i: int| 0 <= i < self.items@.len() ==> #[trigger] self.items@[i] < self.next_ready@.len()
        &&& self.items@.no_duplicates()
        &&& !self.items@.contains(self.stub)
    }

    /// No slot stands twice in the chain.
    pub proof fn lemma_chain_distinct(&self)
        requires
            self.items@.no_duplicates(),
            !self.items@.contains(self.stub),
        ensures
            self.chain().no_duplicates(),
    {
        let c = self.chain();
        if self.stub_front@ {
            assert forall|i: int, j: int| 0 <= i < c.len() && 0 <= j < c.len() && i != j implies c[i] != c[j] by {
                if i > 0 && j > 0 {
                    assert(c[i] == self.items@[i - 1]);
                    assert(c[j] == self.items@[j - 1]);
                } else if i == 0 {
                    assert(c[j] == self.items@[j - 1]);
                } else {
                    assert(c[i] == self.items@[i - 1]);
                }
            }
        }
    }

    /// A queue with only its stub, in slot 0.
    pub fn new() -> (r: Self)
        ensures
            r.wf(),
            r@ == Seq::<usize>::empty(),
            r.stub == 0,
            r.slots() == 1,
    {
        let r = ReadyToRunQueue {
            head: 0,
            tail: 0,
            stub: 0,
            next_ready: vec![None],
            items: Ghost(Seq::empty()),
            stub_front: Ghost(true),
        };
        assert(r.chain() =~= seq![0usize]);
        r
    }

    /// The sentinel slot.
    pub fn stub(&self) -> (r: usize)
        ensures
            r == self.stub,
    {
        self.stub
    }

    /// Makes room for the links of one more slot, whose index is returned.
    pub fn add_slot(&mut self) -> (r: usize)
        requires
            old(self).wf(),
            old(self).slots() < usize::MAX,
        ensures
            final(self).wf(),
            r == old(self).slots(),
            final(self).slots() == old(self).slots() + 1,
            final(self)@ == old(self)@,
            final(self).stub == old(self).stub,
    {
        let r = self.next_ready.len();
        self.next_ready.push(None);
        assert(self.chain() == old(self).chain());
        r
    }

    /// Puts `task` at the back of the queue: `head` moves to it, then the
    /// previous head is linked to it.
    pub fn enqueue(&mut self, task: usize)
        requires
            old(self).wf(),
            task < old(self).slots(),
            task != old(self).stub,
            !old(self)@.contains(task),
        ensures
            final(self).wf(),
            final(self)@ == old(self)@.push(task),
            final(self).slots() == old(self).slots(),
            final(self).stub == old(self).stub,
    {
        let ghost c = self.chain();
        self.next_ready.set(task, None);
        let prev = self.head;
        self.head = task;
        self.next_ready.set(prev, Some(task));
        self.items = Ghost(self.items@.push(task));
        let ghost c2 = self.chain();
        assert(c2 =~= c.push(task));
        proof {
            old(self).lemma_chain_distinct();
        }
        assert(!c.contains(task)) by {
            if c.contains(task) {
                let j = choose|j: int| 0 <= j < c.len() && c[j] == task;
                if self.stub_front@ && j > 0 {
                    assert(old(self).items@[j - 1] == task);
                }
                if !self.stub_front@ {
                    assert(old(self).items@[j] == task);
                }
            }
        }
        assert forall|i: int| 0 <= i < c2.len() - 1 implies self.next_ready@[#[trigger] c2[i] as int] == Some(c2[i + 1]) by {
            if i < c.len() - 1 {
                assert(c2[i] == c[i]);
                assert(c[i] != task);
                assert(c[c.len() - 1] == prev);
            }
        }
    }

    /// Takes the slot at the front of the queue. Only one consumer may call
    /// this at a time; with every enqueue completed, the result is never
    /// `Inconsistent`.
    pub fn dequeue(&mut self) -> (r: Dequeue)
        requires
            old(self).wf(),
        ensures
            final(self).wf(),
            final(self).slots() == old(self).slots(),
            final(self).stub == old(self).stub,
            old(self)@.len() == 0 ==> r is Empty && final(self)@ == old(self)@,
            old(self)@.len() > 0 ==> r == Dequeue::Data(old(self)@[0]) && final(self)@ == old(self)@.drop_first(),
            !(r is Inconsistent),
    {
        proof {
            self.lemma_chain_distinct();
        }
        let ghost c = self.chain();
        let mut tail = self.tail;
        let mut next = self.next_ready[tail];
        if tail == self.stub {
            match next {
                None => {
                    assert(self.items@.len() == 0);
                    return Dequeue::Empty;
                },
                Some(n) => {
                    self.tail = n;
                    tail = n;
                    next = self.next_ready[n];
                    self.stub_front = Ghost(false);
                    assert(self.chain() =~= c.drop_first());
                },
            }
        } else {
            assert(!self.stub_front@);
        }
        let ghost c1 = self.chain();
        assert(c1 == self.items@);
        assert(c1[0] == tail);
        match next {
            Some(n) => {
                self.tail = n;
                self.items = Ghost(self.items@.drop_first());
                assert(self.chain() =~= c1.drop_first());
                return Dequeue::Data(tail);
            },
            None => {},
        }
        assert(c1.len() == 1) by {
            if c1.len() > 1 {
                assert(self.next_ready@[c1[0] as int] == Some(c1[1]));
            }
        }
        if self.head != tail {
            return Dequeue::Inconsistent;
        }
        // Re-publish the stub behind the last slot, so that the last slot
        // gets a successor and can be handed out.
        let stub = self.stub;
        self.next_ready.set(stub, None);
        let prev = self.head;
        self.head = stub;
        self.next_ready.set(prev, Some(stub));
        next = self.next_ready[tail];
        match next {
            Some(n) => {
                self.tail = n;
                self.items = Ghost(Seq::empty());
                self.stub_front = Ghost(true);
                assert(self.chain() =~= seq![stub]);
                Dequeue::Data(tail)
            },
            None => Dequeue::Inconsistent,
        }
    }

    /// Takes every queued slot off the queue, front first, and returns them.
    pub fn drain(&mut self) -> (r: Vec<usize>)
        requires
            old(self).wf(),
        ensures
            final(self).wf(),
            final(self)@ == Seq::<usize>::empty(),
            r@ == old(self)@,
            r@.no_duplicates(),
            final(self).slots() == old(self).slots(),
            final(self).stub == old(self).stub,
    {
        let mut out: Vec<usize> = Vec::new();
        loop
            invariant
                self.wf(),
                self.slots() == old(self).slots(),
                self.stub == old(self).stub,
                old(self)@ == out@.add(self@),
            ensures
                self.wf(),
                self.slots() == old(self).slots(),
                self.stub == old(self).stub,
                self@.len() == 0,
                old(self)@ == out@,
            decreases self@.len(),
        {
            let ghost before = self@;
            match self.dequeue() {
                Dequeue::Empty => {
                    assert(out@.add(self@) =~= out@);
                    assert(self@ =~= Seq::<usize>::empty());
                    break;
                },
                Dequeue::Inconsistent => {
                    assert(false);
                    break;
                },
                Dequeue::Data(t) => {
                    out.push(t);
                    assert(out@.add(self@) =~= old(self)@) by {
                        assert(before =~= seq![t].add(self@));
                    }
                },
            }
        }
        out
    }


    /// However enqueues from any number of producers interleave, draining
    /// the queue afterwards hands out exactly the enqueued slots, each once,
    /// in the order in which they were enqueued.
    pub proof fn lemma_drain_returns_enqueued(states: Seq<Self>, enqueued: Seq<usize>, drained: Seq<usize>)
        requires
            states.len() == enqueued.len() + 1,
            states[0]@.len() == 0,
            forall|i: int| 0 <= i < enqueued.len() ==> #[trigger] states[i + 1]@ == states[i]@.push(enqueued[i]),
            states.last().wf(),
            drained == states.last()@,
        ensures
            drained == enqueued,
            drained.len() == enqueued.len(),
            drained.no_duplicates(),
    {
        Self::lemma_enqueued_prefix(states, enqueued, enqueued.len() as int);
        assert(enqueued.take(enqueued.len() as int) =~= enqueued);
    }

    proof fn lemma_enqueued_prefix(states: Seq<Self>, enqueued: Seq<usize>, k: int)
        requires
            states.len() == enqueued.len() + 1,
            0 <= k <= enqueued.len(),
            states[0]@.len() == 0,
            forall|i: int| 0 <= i < enqueued.len() ==> #[trigger] states[i + 1]@ == states[i]@.push(enqueued[i]),
        ensures
            states[k]@ == enqueued.take(k),
        decreases k,
    {
        if k == 0 {
            assert(states[0]@ =~= enqueued.take(0));
        } else {
            Self::lemma_enqueued_prefix(states, enqueued, k - 1);
            let j = k - 1;
            assert(states[j + 1]@ == states[j]@.push(enqueued[j]));
            assert(states[k]@ =~= enqueued.take(k));
        }
    }

} // impl ReadyToRunQueue

} // verus!
