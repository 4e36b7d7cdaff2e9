use std::cell::Cell;
use std::collections::BTreeMap;
use std::sync::atomic::{AtomicUsize, Ordering};
use std::sync::{Arc, Mutex};

use remote_drop::allocator::{AllocError, Allocator, Global};
use remote_drop::remote_drop::{Queue, RArc, RBox, RSlice};

// Central place for tracking deallocation order
struct DeallocTracker<Id> {
    dealloc_map: BTreeMap<usize, Id>,
}

impl<Id> DeallocTracker<Id> {
    pub fn register(&mut self, id: Id) {
        self.dealloc_map.insert(self.dealloc_map.len(), id);
    }
}

// A clonable object we can pass around to track when
// things get dropped
#[derive(Clone)]
struct DT<Id>(Arc<Mutex<DeallocTracker<Id>>>);

impl<Id: Clone> DT<Id> {
    pub fn new() -> Self {
        DT(Arc::new(Mutex::new(DeallocTracker {
            dealloc_map: BTreeMap::new(),
        })))
    }
    pub fn results(&self) -> BTreeMap<usize, Id> {
        self.0.lock().unwrap().dealloc_map.clone()
    }
    pub fn order(&self) -> Vec<Id> {
        self.results().into_values().collect()
    }
}

// An object that registers when it gets dropped.
// Stores its ID in the `DT` upon drop().
struct D(u64, DT<u64>);

impl Drop for D {
    fn drop(&mut self) {
        println!("Dropping {}", self.0);
        self.1 .0.lock().unwrap().register(self.0);
    }
}

fn queue<A: Allocator + 'static>() -> &'static Queue<A> {
    Box::leak(Box::new(Queue::new()))
}

// Grants so many requests, and remembers how many bytes are out.
struct Books {
    grants: Cell<usize>,
    bytes_out: Cell<usize>,
    returns: Cell<usize>,
}

#[derive(Clone, Copy)]
struct Budget(&'static Books);

impl Budget {
    fn new(grants: usize) -> Self {
        Budget(Box::leak(Box::new(Books {
            grants: Cell::new(grants),
            bytes_out: Cell::new(0),
            returns: Cell::new(0),
        })))
    }
}

impl Allocator for Budget {
    fn allocate(&self, size: usize) -> Result<(), AllocError> {
        if self.0.grants.get() == 0 {
            return Err(AllocError);
        }
        self.0.grants.set(self.0.grants.get() - 1);
        self.0.bytes_out.set(self.0.bytes_out.get() + size);
        Ok(())
    }

    fn deallocate(&self, size: usize) {
        self.0.bytes_out.set(self.0.bytes_out.get() - size);
        self.0.returns.set(self.0.returns.get() + 1);
    }
}

// Hands out an arena of so many bytes.
struct Arena {
    size: usize,
    used: AtomicUsize,
}

impl Arena {
    fn leak(size: usize) -> &'static Arena {
        Box::leak(Box::new(Arena {
            size,
            used: AtomicUsize::new(0),
        }))
    }
}

impl Allocator for &'static Arena {
    fn allocate(&self, size: usize) -> Result<(), AllocError> {
        self.used
            .fetch_update(Ordering::Relaxed, Ordering::Relaxed, |used| {
                used.checked_add(size).filter(|sum| *sum <= self.size)
            })
            .map(|_| ())
            .map_err(|_| AllocError)
    }

    fn deallocate(&self, size: usize) {
        self.used.fetch_sub(size, Ordering::Relaxed);
    }
}

// An allocator that notes what is done with it, and by which of its clones.
struct Numbered {
    number: usize,
    clones: Arc<AtomicUsize>,
    returns: Arc<Mutex<Vec<(usize, usize)>>>,
}

impl Clone for Numbered {
    fn clone(&self) -> Self {
        Numbered {
            number: self.clones.fetch_add(1, Ordering::Relaxed) + 1,
            clones: self.clones.clone(),
            returns: self.returns.clone(),
        }
    }
}

impl Allocator for Numbered {
    fn allocate(&self, _size: usize) -> Result<(), AllocError> {
        Ok(())
    }

    fn deallocate(&self, size: usize) {
        self.returns.lock().unwrap().push((self.number, size));
    }
}

// Simple case - global allocator.
#[test]
fn test_global_drop() {
    let tracker = DT::new();
    let mut expected = BTreeMap::new();
    let q: &'static Queue<Global> = Box::leak(Box::new(Queue::new()));
    {
        // "Dropped" second, first on cleanup queue
        let _box1 = RBox::try_new(D(1, tracker.clone()), Global, q).unwrap();
        expected.insert(1, 1);
        // "Dropped" first, second on cleanup queue
        let _box2 = RBox::try_new(D(2, tracker.clone()), Global, q).unwrap();
        expected.insert(2, 2);
        let _n3 = D(3, tracker.clone());
        // n3 should get deallocated first
        expected.insert(0, 3);
    }
    println!("Done allocating");
    // Clean up all the dropped values.
    while q.garbage_collect_one() {}
    assert_eq!(expected, tracker.results())
}

// Slightly more complex - using a custom allocator.
#[test]
fn test_talc_drop() {
    type Alloc = &'static Arena;
    let q: &'static Queue<Alloc> = Box::leak(Box::new(Queue::new()));
    let tracker = DT::new();
    let mut expected = BTreeMap::new();
    let a: Alloc = Arena::leak(8 * 1024);
    {
        // "Dropped" second, first on cleanup queue
        let _box1 = RBox::try_new(D(1, tracker.clone()), a, q).unwrap();
        expected.insert(1, 1);
        // "Dropped" first, second on cleanup queue
        let _box2 = RBox::try_new(D(2, tracker.clone()), a, q).unwrap();
        expected.insert(2, 2);
        let _n3 = D(3, tracker.clone());
        // n3 should get deallocated first
        expected.insert(0, 3);
    }
    println!("Done allocating");
    assert!(a.used.load(Ordering::Relaxed) > 0);
    while q.garbage_collect_one() {}
    assert_eq!(expected, tracker.results());
    assert_eq!(a.used.load(Ordering::Relaxed), 0);
}

// An arena that is used up turns the next box down, until one is collected.
#[test]
fn collecting_makes_room() {
    let q: &'static Queue<&'static Arena> = queue();
    let a = Arena::leak(8 * 1024);
    let big = RBox::try_new([0u8; 6000], a, q).unwrap();
    assert_eq!(RBox::try_new([0u8; 6000], a, q).err(), Some(AllocError));
    std::mem::drop(big);
    assert_eq!(RBox::try_new([0u8; 6000], a, q).err(), Some(AllocError));
    assert!(q.garbage_collect_one());
    assert!(RBox::try_new([0u8; 6000], a, q).is_ok());
}

// A dropped box is not destroyed before it is collected, one collection at a
// time.
#[test]
fn boxes_wait_for_collection() {
    let tracker = DT::new();
    let mut expected = BTreeMap::new();
    let q: &'static Queue<Global> = queue();
    let box1 = RBox::try_new(D(1, tracker.clone()), Global, q).unwrap();
    let box2 = RBox::try_new(D(2, tracker.clone()), Global, q).unwrap();
    {
        let _n3 = D(3, tracker.clone());
    }
    expected.insert(0, 3);
    while q.garbage_collect_one() {}
    assert_eq!(expected, tracker.results());

    std::mem::drop(box1);
    assert_eq!(expected, tracker.results());
    while q.garbage_collect_one() {}
    expected.insert(1, 1);
    assert_eq!(expected, tracker.results());

    std::mem::drop(box2);
    assert_eq!(expected, tracker.results());
    while q.garbage_collect_one() {}
    expected.insert(2, 2);
    assert_eq!(expected, tracker.results());
}

// Only the last clone leaves the value to the queue.
#[test]
fn clones_share_one_value() {
    let tracker = DT::new();
    let mut expected = BTreeMap::new();
    let q: &'static Queue<Global> = queue();
    let arc1 = RArc::try_new(D(1, tracker.clone()), Global, q).unwrap();
    let arc1_a = arc1.clone().unwrap();
    assert_eq!(arc1_a.0, 1);

    while q.garbage_collect_one() {}
    assert_eq!(expected, tracker.results());

    std::mem::drop(arc1_a);
    assert!(!q.garbage_collect_one());
    assert_eq!(expected, tracker.results());

    expected.insert(0, 1);
    std::mem::drop(arc1);
    assert_eq!(tracker.results(), BTreeMap::new());
    assert!(q.garbage_collect_one());
    assert!(!q.garbage_collect_one());
    assert_eq!(expected, tracker.results());
}

#[test]
fn last_clone_may_be_any() {
    let tracker = DT::new();
    let q: &'static Queue<Global> = queue();
    let first = RArc::try_new(D(7, tracker.clone()), Global, q).unwrap();
    let mut clones = Vec::new();
    for _ in 0..5 {
        clones.push(first.clone().unwrap());
    }
    std::mem::drop(first);
    while let Some(clone) = clones.pop() {
        assert!(!q.garbage_collect_one());
        assert_eq!(clone.0, 7);
    }
    assert!(q.garbage_collect_one());
    assert_eq!(tracker.order(), vec![7]);
    assert!(!q.garbage_collect_one());
}

// Each clone has an allocator of its own. That of the last one gets the memory
// back.
#[test]
fn clones_have_their_own_allocator() {
    let q: &'static Queue<Numbered> = queue();
    let clones = Arc::new(AtomicUsize::new(0));
    let returns = Arc::new(Mutex::new(Vec::new()));
    let alloc = Numbered {
        number: 0,
        clones: clones.clone(),
        returns: returns.clone(),
    };
    let first = RArc::with_reply(5u8, alloc, 96, Ok(()), q).unwrap();
    assert_eq!(clones.load(Ordering::Relaxed), 0);
    let second = first.clone().unwrap();
    let third = first.clone().unwrap();
    assert_eq!(clones.load(Ordering::Relaxed), 2);
    std::mem::drop(third);
    std::mem::drop(first);
    assert!(!q.garbage_collect_one());
    std::mem::drop(second);
    assert_eq!(returns.lock().unwrap().len(), 0);
    assert!(q.garbage_collect_one());
    assert_eq!(*returns.lock().unwrap(), vec![(1, 96)]);
    assert!(!q.garbage_collect_one());
}

// A clone that is dropped leaves the count as it was.
#[test]
fn dropping_a_clone_undoes_it() {
    let tracker = DT::new();
    let q: &'static Queue<Global> = queue();
    let only = RArc::try_new(D(1, tracker.clone()), Global, q).unwrap();
    for _ in 0..100 {
        std::mem::drop(only.clone().unwrap());
        assert!(!q.garbage_collect_one());
    }
    assert_eq!(only.0, 1);
    std::mem::drop(only);
    assert!(q.garbage_collect_one());
    assert_eq!(tracker.order(), vec![1]);
    assert!(!q.garbage_collect_one());
}

#[test]
fn empty_queue_collects_nothing() {
    let q: &'static Queue<Global> = queue();
    assert!(!q.garbage_collect_one());
    assert_eq!(q.garbage_collect_several::<0>(), 0);
    assert_eq!(q.garbage_collect_several::<4>(), 0);
}

#[test]
fn several_are_collected_in_order() {
    let tracker = DT::new();
    let q: &'static Queue<Global> = queue();
    for id in 1..=5 {
        std::mem::drop(RBox::try_new(D(id, tracker.clone()), Global, q).unwrap());
    }
    assert_eq!(q.garbage_collect_several::<0>(), 0);
    assert_eq!(tracker.order(), vec![]);
    assert_eq!(q.garbage_collect_several::<3>(), 3);
    assert_eq!(tracker.order(), vec![5, 4, 3]);
    assert_eq!(q.garbage_collect_several::<3>(), 2);
    assert_eq!(tracker.order(), vec![5, 4, 3, 2, 1]);
    assert_eq!(q.garbage_collect_several::<3>(), 0);
    assert!(!q.garbage_collect_one());
}

// A queue takes values of any type.
#[test]
fn boxes_arcs_and_slices_share_a_queue() {
    let tracker = DT::new();
    let q: &'static Queue<Global> = queue();
    std::mem::drop(RBox::try_new(D(1, tracker.clone()), Global, q).unwrap());
    std::mem::drop(RArc::try_new(D(2, tracker.clone()), Global, q).unwrap());
    let items = vec![D(3, tracker.clone()), D(4, tracker.clone())];
    std::mem::drop(RSlice::try_new(items, Global, q).unwrap());
    std::mem::drop(RBox::try_new([0u8; 1000], Global, q).unwrap());
    assert_eq!(tracker.order(), vec![]);
    assert!(q.garbage_collect_one());
    assert_eq!(tracker.order(), vec![]);
    assert!(q.garbage_collect_one());
    assert_eq!(tracker.order(), vec![3, 4]);
    assert!(q.garbage_collect_one());
    assert_eq!(tracker.order(), vec![3, 4, 2]);
    assert!(q.garbage_collect_one());
    assert_eq!(tracker.order(), vec![3, 4, 2, 1]);
    assert!(!q.garbage_collect_one());
}

// A slice is one item of the queue.
#[test]
fn slice_is_collected_as_a_whole() {
    let tracker = DT::new();
    let q: &'static Queue<Global> = queue();
    let items = vec![
        D(1, tracker.clone()),
        D(2, tracker.clone()),
        D(3, tracker.clone()),
    ];
    std::mem::drop(RSlice::try_new(items, Global, q).unwrap());
    assert_eq!(tracker.order(), vec![]);
    assert!(q.garbage_collect_one());
    assert_eq!(tracker.order(), vec![1, 2, 3]);
    assert!(!q.garbage_collect_one());
}

#[test]
fn values_join_their_own_queue_only() {
    let tracker = DT::new();
    let q1: &'static Queue<Global> = queue();
    let q2: &'static Queue<Global> = queue();
    std::mem::drop(RBox::try_new(D(1, tracker.clone()), Global, q1).unwrap());
    assert!(!q2.garbage_collect_one());
    assert_eq!(tracker.order(), vec![]);
    assert!(q1.garbage_collect_one());
    assert_eq!(tracker.order(), vec![1]);
}

#[test]
fn dropping_makes_no_allocator_call() {
    let tracker = DT::new();
    let q: &'static Queue<Budget> = queue();
    let a = Budget::new(3);
    let boxed = RBox::try_new(D(1, tracker.clone()), a, q).unwrap();
    let shared = RArc::try_new(D(2, tracker.clone()), a, q).unwrap();
    let slice = RSlice::try_new(vec![D(3, tracker.clone())], a, q).unwrap();
    let bytes = a.0.bytes_out.get();
    assert!(bytes >= 3 * std::mem::size_of::<usize>());
    assert_eq!(a.0.grants.get(), 0);
    std::mem::drop(boxed);
    std::mem::drop(shared);
    std::mem::drop(slice);
    assert_eq!(a.0.bytes_out.get(), bytes);
    assert_eq!(a.0.returns.get(), 0);
    assert_eq!(q.garbage_collect_several::<2>(), 2);
    assert_eq!(a.0.returns.get(), 2);
    assert!(a.0.bytes_out.get() > 0);
    assert!(q.garbage_collect_one());
    assert_eq!(a.0.returns.get(), 3);
    assert_eq!(a.0.bytes_out.get(), 0);
}

// When there is no room the value is dropped on the spot, and nothing is queued.
#[test]
fn refused_requests_are_reported() {
    let tracker = DT::new();
    let q: &'static Queue<Budget> = queue();
    let a = Budget::new(0);
    assert_eq!(
        RBox::try_new(D(1, tracker.clone()), a, q).err(),
        Some(AllocError)
    );
    assert_eq!(
        RArc::try_new(D(2, tracker.clone()), a, q).err(),
        Some(AllocError)
    );
    assert_eq!(
        RSlice::try_new(vec![D(3, tracker.clone())], a, q).err(),
        Some(AllocError)
    );
    assert_eq!(tracker.order(), vec![1, 2, 3]);
    assert!(!q.garbage_collect_one());
    assert_eq!(a.0.returns.get(), 0);
}

// The bytes asked for cover the value.
#[test]
fn requests_cover_the_value() {
    let q: &'static Queue<Budget> = queue();
    let a = Budget::new(1);
    let _boxed = RBox::try_new([0u8; 1000], a, q).unwrap();
    assert!(a.0.bytes_out.get() >= 1000 + std::mem::size_of::<usize>());
    let b = Budget::new(1);
    let _shared = RArc::try_new([0u8; 1000], b, q).unwrap();
    assert!(b.0.bytes_out.get() >= 1000 + 5 * std::mem::size_of::<usize>());
}

#[test]
fn reply_decides_about_a_handle() {
    let tracker = DT::new();
    let q: &'static Queue<Global> = queue();
    let none = RBox::with_reply(D(1, tracker.clone()), Global, 8, Err(AllocError), q);
    assert_eq!(none.err(), Some(AllocError));
    let none = RArc::with_reply(D(2, tracker.clone()), Global, 8, Err(AllocError), q);
    assert_eq!(none.err(), Some(AllocError));
    let items = vec![D(5, tracker.clone()), D(6, tracker.clone())];
    let none = RSlice::with_reply(items, Global, 8, Err(AllocError), q);
    assert_eq!(none.err(), Some(AllocError));
    assert_eq!(tracker.order(), vec![1, 2, 5, 6]);
    assert!(!q.garbage_collect_one());
    let boxed = RBox::with_reply(D(3, tracker.clone()), Global, 8, Ok(()), q).unwrap();
    let shared = RArc::with_reply(D(4, tracker.clone()), Global, 8, Ok(()), q).unwrap();
    assert_eq!(boxed.0 + shared.0, 7);
    std::mem::drop(boxed);
    std::mem::drop(shared);
    assert_eq!(q.garbage_collect_several::<8>(), 2);
    assert_eq!(tracker.order(), vec![1, 2, 5, 6, 4, 3]);
    let slice = RSlice::with_reply(vec![D(7, tracker.clone())], Global, 8, Ok(()), q).unwrap();
    assert_eq!(slice[0].0, 7);
}

#[test]
fn boxes_give_access_to_the_value() {
    let q: &'static Queue<Global> = queue();
    let mut boxed = RBox::try_new(String::from("ab"), Global, q).unwrap();
    assert_eq!(*boxed, "ab");
    boxed.push('c');
    assert_eq!(boxed.len(), 3);
    assert_eq!(*boxed, "abc");
}

#[test]
fn arcs_give_access_to_the_value() {
    let q: &'static Queue<Global> = queue();
    let shared = RArc::try_new(vec![1u32, 2, 3], Global, q).unwrap();
    let clone = shared.clone().unwrap();
    assert_eq!(*shared, vec![1, 2, 3]);
    assert_eq!(clone[2], 3);
}

#[test]
fn slices_give_access_to_the_values() {
    let q: &'static Queue<Global> = queue();
    let mut slice = RSlice::try_new(vec![1u32, 2, 3], Global, q).unwrap();
    assert_eq!(&slice[..], &[1, 2, 3]);
    slice[1] = 20;
    assert_eq!(slice.iter().sum::<u32>(), 24);
    let none: RSlice<u32> = RSlice::try_new(Vec::new(), Global, q).unwrap();
    assert!(none.is_empty());
}

// What is read after a write is what was written, also by the destructor.
#[test]
fn changed_values_are_the_ones_destroyed() {
    let tracker = DT::new();
    let q: &'static Queue<Global> = queue();
    let mut boxed = RBox::try_new(D(1, tracker.clone()), Global, q).unwrap();
    boxed.0 = 9;
    std::mem::drop(boxed);
    assert!(q.garbage_collect_one());
    assert_eq!(tracker.order(), vec![9]);
}

// A destructor may drop a box of the same queue.
#[test]
fn destructors_may_queue_more() {
    struct Outer(Option<RBox<D>>);
    let tracker = DT::new();
    let q: &'static Queue<Global> = queue();
    let inner = RBox::try_new(D(1, tracker.clone()), Global, q).unwrap();
    let outer = RBox::try_new(Outer(Some(inner)), Global, q).unwrap();
    assert!(outer.0.is_some());
    std::mem::drop(outer);
    assert!(q.garbage_collect_one());
    assert_eq!(tracker.order(), vec![]);
    assert!(q.garbage_collect_one());
    assert_eq!(tracker.order(), vec![1]);
    assert!(!q.garbage_collect_one());
}

#[test]
fn handles_can_be_sent_and_shared() {
    fn sendable<T: Send>(_: &T) {}
    fn shareable<T: Sync>(_: &T) {}
    let q: &'static Queue<Global> = queue();
    sendable(&q);
    let boxed = RBox::try_new(1u8, Global, q).unwrap();
    let shared = RArc::try_new(1u8, Global, q).unwrap();
    let slice = RSlice::try_new(vec![1u8], Global, q).unwrap();
    sendable(&boxed);
    shareable(&boxed);
    sendable(&shared);
    shareable(&shared);
    sendable(&slice);
    shareable(&slice);
    shareable(q);
}
