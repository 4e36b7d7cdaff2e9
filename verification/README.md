# remote_drop

Heap values that are not destroyed when they are dropped. They are put on a
queue instead, and destroyed when somebody collects them, for instance a
low-priority thread.

The library is written in Verus: what a call does is stated in its contract, and
proved. The calls into the standard library, `embassy_sync` and `heapless` are
trusted to do what is said of them. Where threads share a list, a count or a slot,
a contract says that the call used it, what it found there and what it left. What
it finds depends on which thread came first. The laws say what follows for a given
order of such steps; that a call takes a step once, and no other step, is to be read
off its code.

* `remote_drop`: the queue (`Queue`) and the handles that leave their values to
  it: `RBox`, `RArc` and `RSlice`.
* `cleanup_list`: the list of waiting values. A value brings the memory for its
  place on the list along, so joining it takes no allocation and one short lock.
  The value that joined last is collected first.
* `borrows`: the atomic count of an `RArc`'s clones. The last one to go queues the
  value.
* `allocator`: who is asked for memory and gets it back. Both happen only where
  values are made and where they are collected, never where they are dropped.
* `destruction`: what it means that a value was destroyed, or left alone for good.
* `mutex`, `slot`, `batch`: the lock of `embassy_sync`, a place under it that a
  value can be taken out of, and the fixed-capacity vector of `heapless`.
* `laws`: what holds of sequences of calls, such as that every value leaves the
  list once, and that the last clone, and no other, queues the shared value.

What to know before use:

* An allocator keeps the books, and may turn a request down. The memory itself is
  that of the global heap.
* A box takes two blocks: the value, and its place on the list. A shared box takes
  four, with two for its handles.
* Dropping a box or a slice makes no heap operation. The last clone of a
  shared box frees the block of its count.
* Cloning a shared box and dropping all but its last clone takes no lock.
* A queue can be used by several threads, and handles can be sent, if the allocator
  can be sent. Threads can share an `RArc` itself if they can share the allocator.
* A destructor that panics keeps its memory from the allocator's books.

On a hosted platform the critical section that `embassy_sync` locks with is that
of the `critical-section` crate's `std` feature.

`app` holds a demonstration.
