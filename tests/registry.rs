use unordered_tasks::futures_unordered::{self, TaskSet};
use unordered_tasks::futures_unordered_internal::FuturesUnorderedInternal;
use unordered_tasks::mapped_futures::{self, TaskMap};
use unordered_tasks::release::{DummyStruct, ReleaseLog, ReleasesTask};

fn set_of(items: &[u32]) -> TaskSet<u32> {
    let mut set: TaskSet<u32> = FuturesUnorderedInternal::new(DummyStruct::new());
    for &x in items {
        set.push((), x);
    }
    set
}

fn map_of(items: &[(&'static str, u32)]) -> TaskMap<&'static str, u32> {
    let mut map: TaskMap<&'static str, u32> = FuturesUnorderedInternal::new(ReleaseLog::new());
    for &(k, v) in items {
        map.push(k, v);
    }
    map
}

#[test]
fn exclusive_projected_cursor_yields_reverse_insertion_order() {
    let mut set = set_of(&[10, 20, 30, 40]);
    let mut it = futures_unordered::IterMut::new(&mut set);
    assert_eq!(it.size_hint(), (4, Some(4)));
    let mut seen = Vec::new();
    while let Some(f) = it.next() {
        seen.push(*f);
    }
    assert_eq!(seen, vec![40, 30, 20, 10]);
    assert_eq!(it.size_hint(), (0, Some(0)));
}

#[test]
fn exclusive_cursor_on_empty_set_yields_nothing() {
    let mut set = set_of(&[]);
    let mut it = futures_unordered::IterPinMut::new(&mut set);
    assert_eq!(it.size_hint(), (0, Some(0)));
    assert!(it.next().is_none());
}

#[test]
fn exclusive_cursor_writes_through() {
    let mut set = set_of(&[1, 2, 3]);
    {
        let mut it = futures_unordered::IterPinMut::new(&mut set);
        while let Some(f) = it.next() {
            *f += 100;
        }
    }
    let mut it = futures_unordered::Iter::new(&set);
    let mut seen = Vec::new();
    while let Some(f) = it.next() {
        seen.push(*f);
    }
    assert_eq!(seen, vec![103, 102, 101]);
}

#[test]
fn shared_cursor_counts_down() {
    let set = set_of(&[5, 6, 7]);
    let mut it = futures_unordered::IterPinRef::new(&set);
    assert_eq!(it.size_hint(), (3, Some(3)));
    assert_eq!(it.next(), Some(&7));
    assert_eq!(it.size_hint(), (2, Some(2)));
    assert_eq!(it.next(), Some(&6));
    assert_eq!(it.next(), Some(&5));
    assert_eq!(it.size_hint(), (0, Some(0)));
    assert_eq!(it.next(), None);
    assert_eq!(it.next(), None);
}

#[test]
fn two_shared_cursors_at_once() {
    let set = set_of(&[1, 2]);
    let mut a = futures_unordered::Iter::new(&set);
    let mut b = futures_unordered::Iter::new(&set);
    assert_eq!(a.next(), Some(&2));
    assert_eq!(b.next(), Some(&2));
    assert_eq!(a.next(), Some(&1));
    assert_eq!(b.next(), Some(&1));
    assert_eq!(a.size_hint(), (0, Some(0)));
}

#[test]
fn owned_iteration_yields_newest_first_and_empties_the_registry() {
    let set = set_of(&[b'A' as u32, b'B' as u32, b'C' as u32]);
    let mut it = futures_unordered::IntoIter::new(set);
    assert_eq!(it.size_hint(), (3, Some(3)));
    assert_eq!(it.next(), Some(b'C' as u32));
    assert_eq!(it.next(), Some(b'B' as u32));
    assert_eq!(it.next(), Some(b'A' as u32));
    assert_eq!(it.next(), None);
    assert_eq!(it.size_hint(), (0, Some(0)));
    let mut rest = it.inner.into_inner();
    assert_eq!(rest.len(), 0);
    assert!(rest.is_empty());
    assert!(rest.head_all.is_none());
    let released = rest.release_all();
    assert!(released.is_empty());
}

#[test]
fn teardown_releases_each_linked_task_once() {
    let mut map = map_of(&[("a", 1), ("b", 2), ("c", 3), ("d", 4)]);
    // Two of the four are taken off the ready queue; two stay queued.
    assert_eq!(map.poll_ready(), Some(1));
    assert_eq!(map.poll_ready(), Some(2));
    let released = map.release_all();
    assert_eq!(released, vec![4, 3, 2, 1]);
    assert_eq!(map.releaser.released, vec![4, 3, 2, 1]);
    assert_eq!(map.len(), 0);
    assert_eq!(map.poll_ready(), None);
    assert!(map.release_all().is_empty());
    assert_eq!(map.releaser.released.len(), 4);
}

#[test]
fn teardown_of_empty_container_is_a_no_op() {
    let mut set = set_of(&[]);
    assert!(set.release_all().is_empty());
    assert_eq!(set.len(), 0);
}

#[test]
fn push_queues_each_new_task_for_a_first_poll() {
    let mut set = set_of(&[7, 8, 9]);
    assert_eq!(set.len(), 3);
    assert!(!set.is_empty());
    assert_eq!(set.poll_ready(), Some(1));
    assert!(!set.tasks[1].queued);
    assert_eq!(set.poll_ready(), Some(2));
    assert_eq!(set.poll_ready(), Some(3));
    assert_eq!(set.poll_ready(), None);
}

#[test]
fn wake_does_not_queue_twice() {
    let mut set = set_of(&[7, 8]);
    set.wake(1);
    assert_eq!(set.poll_ready(), Some(1));
    assert_eq!(set.poll_ready(), Some(2));
    assert_eq!(set.poll_ready(), None);
    set.wake(2);
    set.wake(2);
    set.wake(1);
    assert!(set.tasks[2].queued);
    assert_eq!(set.poll_ready(), Some(2));
    assert_eq!(set.poll_ready(), Some(1));
    assert_eq!(set.poll_ready(), None);
}

#[test]
fn push_links_newest_at_head() {
    let mut set = set_of(&[]);
    assert_eq!(set.push((), 11), 1);
    assert_eq!(set.push((), 12), 2);
    assert_eq!(set.head_all, Some(2));
    assert_eq!(set.tasks[2].next_all, Some(1));
    assert_eq!(set.tasks[1].prev_all, Some(2));
    assert_eq!(set.tasks[2].prev_all, None);
    assert_eq!(set.tasks[1].next_all, None);
}

#[test]
fn unlink_head_keeps_queue_entries() {
    let mut set = set_of(&[1, 2]);
    let (slot, _, fut) = set.unlink_head().unwrap();
    assert_eq!((slot, fut), (2, 2));
    assert_eq!(set.len(), 1);
    assert_eq!(set.head_all, Some(1));
    assert_eq!(set.tasks[1].prev_all, None);
    assert_eq!(set.poll_ready(), Some(1));
    assert_eq!(set.poll_ready(), Some(2));
    assert!(set.tasks[2].future.is_none());
}

#[test]
fn keyed_cursors_yield_keys_and_units() {
    let mut map = map_of(&[("x", 1), ("y", 2)]);
    let mut keys = mapped_futures::Keys::new(&map);
    assert_eq!(keys.size_hint(), (2, Some(2)));
    assert_eq!(keys.next(), Some(&"y"));
    assert_eq!(keys.next(), Some(&"x"));
    assert_eq!(keys.next(), None);

    let mut it = mapped_futures::IterPinRef::new(&map);
    assert_eq!(it.next(), Some((&"y", &2)));
    assert_eq!(it.next(), Some((&"x", &1)));
    assert_eq!(it.next(), None);

    {
        let mut it = mapped_futures::IterMut::new(&mut map);
        while let Some((k, f)) = it.next() {
            if *k == "x" {
                *f = 50;
            }
        }
    }
    let mut it = mapped_futures::Iter::new(&map);
    assert_eq!(it.size_hint(), (2, Some(2)));
    assert_eq!(it.next(), Some((&"y", &2)));
    assert_eq!(it.next(), Some((&"x", &50)));
    assert_eq!(it.next(), None);

    let mut it = mapped_futures::IterPinMut::new(&mut map);
    assert_eq!(it.size_hint(), (2, Some(2)));
    let (k, f) = it.next().unwrap();
    assert_eq!((*k, *f), ("y", 2));
}

#[test]
fn keyed_owned_iteration_moves_keys_out() {
    let map = map_of(&[("a", 1), ("b", 2), ("c", 3)]);
    let mut it = mapped_futures::IntoIter::new(map);
    assert_eq!(it.size_hint(), (3, Some(3)));
    assert_eq!(it.next(), Some(("c", 3)));
    assert_eq!(it.next(), Some(("b", 2)));
    assert_eq!(it.next(), Some(("a", 1)));
    assert_eq!(it.next(), None);
}

#[test]
fn release_task_splices_out_a_middle_task() {
    let mut map = map_of(&[("a", 1), ("b", 2), ("c", 3)]);
    assert_eq!(map.release_task(2), 2);
    assert_eq!(map.releaser.released, vec![2]);
    assert_eq!(map.len(), 2);
    assert_eq!(map.tasks[3].next_all, Some(1));
    assert_eq!(map.tasks[1].prev_all, Some(3));
    let mut keys = mapped_futures::Keys::new(&map);
    assert_eq!(keys.size_hint(), (2, Some(2)));
    assert_eq!(keys.next(), Some(&"c"));
    assert_eq!(keys.next(), Some(&"a"));
    assert_eq!(keys.next(), None);
}

#[test]
fn release_task_of_head_and_tail() {
    let mut map = map_of(&[("a", 1), ("b", 2), ("c", 3)]);
    assert_eq!(map.release_task(3), 3);
    assert_eq!(map.head_all, Some(2));
    assert_eq!(map.tasks[2].prev_all, None);
    assert_eq!(map.release_task(1), 1);
    assert_eq!(map.tasks[2].next_all, None);
    assert_eq!(map.len(), 1);
    assert_eq!(map.release_task(2), 2);
    assert_eq!(map.len(), 0);
    assert!(map.head_all.is_none());
    assert_eq!(map.releaser.released, vec![3, 1, 2]);
    // The slots stay queued for their first poll; the consumer finds them empty.
    assert_eq!(map.poll_ready(), Some(1));
    assert!(map.tasks[1].future.is_none());
    assert!(map.release_all().is_empty());
    assert_eq!(map.releaser.released.len(), 3);
}

#[test]
fn released_key_is_handed_back_by_the_plain_policy() {
    let mut d = DummyStruct::new();
    assert_eq!(d.release_task(4, "k"), "k");
    let mut log = ReleaseLog::new();
    assert_eq!(log.release_task(4, 9u8), 9);
    assert_eq!(log.released, vec![4]);
}

#[test]
fn empty_slot_holds_nothing() {
    let t: unordered_tasks::task::Task<u8, u8> = unordered_tasks::task::Task::empty();
    assert!(t.key.is_none() && t.future.is_none());
    assert!(t.next_all.is_none() && t.prev_all.is_none() && !t.queued);
}

#[test]
fn placeholder_is_the_stub_and_never_a_live_successor() {
    let set = set_of(&[1, 2, 3]);
    let pending = set.pending_next_all();
    assert_eq!(pending, 0);
    let mut slot = set.head_all;
    let mut visited = 0;
    while let Some(t) = slot {
        let next = set.tasks[t].spin_next_all(pending);
        assert_ne!(next, Some(pending));
        slot = next;
        visited += 1;
    }
    assert_eq!(visited, 3);
}

#[test]
fn shared_cursor_sees_a_task_pushed_before_it_was_made() {
    let mut set = set_of(&[1]);
    set.push((), 2);
    let mut it = futures_unordered::IterPinRef::new(&set);
    assert_eq!(it.size_hint(), (2, Some(2)));
    assert_eq!(it.next(), Some(&2));
    assert_eq!(it.next(), Some(&1));
    assert_eq!(it.next(), None);
}
