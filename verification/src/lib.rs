//! Heap values whose destruction is put off.
//!
//! Dropping an [`RBox`](remote_drop::RBox), the last clone of an
//! [`RArc`](remote_drop::RArc) or an [`RSlice`](remote_drop::RSlice) does not
//! run the destructor of what it holds. The value moves onto a cleanup
//! [`Queue`](remote_drop::Queue) instead, and stays there until somebody, for
//! instance a low-priority thread, collects it.
pub mod allocator;
pub mod batch;
pub mod borrows;
pub mod cleanup_list;
pub mod destruction;
pub mod laws;
pub mod lease;
pub mod mutex;
pub mod queue;
pub mod remote_drop;
pub mod slot;
pub mod ticket;
