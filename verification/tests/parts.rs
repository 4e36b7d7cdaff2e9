use std::cell::Cell;
use std::sync::{Arc, Mutex as StdMutex};

use remote_drop::allocator::{AllocError, Allocator, Global};
use remote_drop::borrows::{may_borrow, MaxBorrows};
use remote_drop::cleanup_list::{Parcel, ToDeallocate};
use remote_drop::mutex::Mutex;
use remote_drop::remote_drop::{destroy_one, destroy_several};

// Writes its number down when it is dropped.
struct Noted(u32, Arc<StdMutex<Vec<u32>>>);

impl Drop for Noted {
    fn drop(&mut self) {
        self.1.lock().unwrap().push(self.0);
    }
}

fn notes() -> Arc<StdMutex<Vec<u32>>> {
    Arc::new(StdMutex::new(Vec::new()))
}

fn read(notes: &Arc<StdMutex<Vec<u32>>>) -> Vec<u32> {
    notes.lock().unwrap().clone()
}

fn parcel<T>(value: T) -> Parcel<T, Global> {
    Parcel::with_reply(value, Global, 8, Ok(())).unwrap_or_else(|_| unreachable!())
}

fn filled(notes: &Arc<StdMutex<Vec<u32>>>, n: u32) -> ToDeallocate<Global> {
    let mut list = ToDeallocate::new();
    for i in 1..=n {
        list.add_item(parcel(Noted(i, notes.clone())));
    }
    list
}

#[test]
fn new_list_is_empty() {
    let mut list: ToDeallocate<Global> = ToDeallocate::new();
    assert!(list.extract_one().is_none());
    assert_eq!(destroy_several(list.extract_several::<3>()), 0);
}

// What joined last leaves first.
#[test]
fn list_is_last_in_first_out() {
    let notes = notes();
    let mut list = filled(&notes, 3);
    assert_eq!(read(&notes), vec![]);
    let third = list.extract_one().unwrap();
    assert_eq!(read(&notes), vec![]);
    third.destroy();
    assert_eq!(read(&notes), vec![3]);
    list.add_item(parcel(Noted(4, notes.clone())));
    list.extract_one().unwrap().destroy();
    list.extract_one().unwrap().destroy();
    list.extract_one().unwrap().destroy();
    assert!(list.extract_one().is_none());
    assert_eq!(read(&notes), vec![3, 4, 2, 1]);
}

// Two collections take what one of their combined size takes.
#[test]
fn collections_add_up() {
    let notes_a = notes();
    let mut a = filled(&notes_a, 6);
    assert_eq!(destroy_several(a.extract_several::<2>()), 2);
    assert_eq!(destroy_several(a.extract_several::<3>()), 3);
    let notes_b = notes();
    let mut b = filled(&notes_b, 6);
    assert_eq!(destroy_several(b.extract_several::<5>()), 5);
    assert_eq!(read(&notes_a), vec![6, 5, 4, 3, 2]);
    assert_eq!(read(&notes_a), read(&notes_b));
}

#[test]
fn one_is_a_collection_of_one() {
    let notes_a = notes();
    let mut a = filled(&notes_a, 2);
    assert!(destroy_one(a.extract_one()));
    let notes_b = notes();
    let mut b = filled(&notes_b, 2);
    assert_eq!(destroy_several(b.extract_several::<1>()), 1);
    assert_eq!(read(&notes_a), vec![2]);
    assert_eq!(read(&notes_b), vec![2]);
}

#[test]
fn short_collection_empties_the_list() {
    let notes = notes();
    let mut list = filled(&notes, 2);
    assert_eq!(destroy_several(list.extract_several::<5>()), 2);
    assert!(list.extract_one().is_none());
    assert!(!destroy_one(list.extract_one()));
    assert_eq!(read(&notes), vec![2, 1]);
}

#[test]
fn collecting_one_by_one_drains_the_list() {
    let notes = notes();
    let mut list = filled(&notes, 4);
    let mut n = 0;
    while destroy_one(list.extract_one()) {
        n += 1;
    }
    assert_eq!(n, 4);
    assert_eq!(read(&notes), vec![4, 3, 2, 1]);
}

// N single collections, also more than there are values, take what one
// collection of N takes.
#[test]
fn single_collections_add_up() {
    let notes_a = notes();
    let mut a = filled(&notes_a, 3);
    let singles = (0..5).filter(|_| destroy_one(a.extract_one())).count();
    let notes_b = notes();
    let mut b = filled(&notes_b, 3);
    assert_eq!(destroy_several(b.extract_several::<5>()), singles);
    assert_eq!(singles, 3);
    assert_eq!(read(&notes_a), vec![3, 2, 1]);
    assert_eq!(read(&notes_b), vec![3, 2, 1]);
    assert!(a.extract_one().is_none());
    assert!(b.extract_one().is_none());
}

// Only collecting a value destroys it, not losing the list that it is on.
#[test]
fn dropped_list_destroys_nothing() {
    let notes = notes();
    let mut list = filled(&notes, 1000);
    assert!(destroy_one(list.extract_one()));
    std::mem::drop(list);
    assert_eq!(read(&notes), vec![1000]);
}

// An allocator that notes what it gets back.
struct Notebook(Cell<usize>);

impl Allocator for &Notebook {
    fn allocate(&self, _size: usize) -> Result<(), AllocError> {
        Ok(())
    }

    fn deallocate(&self, size: usize) {
        self.0.set(self.0.get() + size);
    }
}

#[test]
fn what_was_asked_for_goes_back() {
    let book = Notebook(Cell::new(0));
    let mut list = ToDeallocate::new();
    let parcel = Parcel::with_reply([1u64; 10], &book, 96, Ok(()));
    list.add_item(parcel.unwrap_or_else(|_| unreachable!()));
    let garbage = list.extract_one().unwrap();
    assert_eq!(book.0.get(), 0);
    garbage.destroy();
    assert_eq!(book.0.get(), 96);
}

#[test]
fn reply_decides_about_a_parcel() {
    let notes = notes();
    let refused = Parcel::with_reply(Noted(1, notes.clone()), Global, 8, Err(AllocError));
    assert_eq!(refused.err(), Some(AllocError));
    assert_eq!(read(&notes), vec![1]);
    let granted = Parcel::with_reply(Noted(2, notes.clone()), Global, 8, Ok(()));
    assert!(granted.is_ok());
    assert_eq!(read(&notes), vec![1]);
}

#[test]
fn global_heap_grants_everything() {
    assert_eq!(Global.allocate(usize::MAX), Ok(()));
    Global.deallocate(3);
}

#[test]
fn limit_on_handles() {
    assert_eq!(may_borrow(0), Ok(()));
    assert_eq!(may_borrow(1), Ok(()));
    assert_eq!(may_borrow(isize::MAX as usize - 1), Ok(()));
    assert_eq!(may_borrow(isize::MAX as usize), Err(MaxBorrows));
    assert_eq!(may_borrow(usize::MAX), Err(MaxBorrows));
}

#[test]
fn lock_applies_the_function_to_the_protected_value() {
    let m = Mutex::new(41);
    assert_eq!(m.lock(|x| *x + 1), 42);
    let cell = Mutex::new(Cell::new(1));
    cell.lock(|c| c.set(5));
    assert_eq!(cell.lock(|c| c.get()), 5);
}

// The thread that holds the lock can take it again.
#[test]
fn lock_is_reentrant() {
    let m = Mutex::new(Cell::new(1));
    let seen = m.lock(|c| {
        c.set(2);
        m.lock(|d| d.get())
    });
    assert_eq!(seen, 2);
}
