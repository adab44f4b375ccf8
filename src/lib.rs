//! A growable contiguous array built on an explicitly managed block of
//! element slots, with a double-ended cursor, a consuming iterator and a
//! draining iterator.
//!
//! The layers, leaves first:
//! - [`owned_ptr`]: a block of slots, each initialised or not, owned by one
//!   buffer or iterator;
//! - [`raw_vec`]: the buffer, which knows its capacity and how to grow it;
//! - [`vec`]: the array, a buffer plus the number of live elements;
//! - [`raw_val_iter`]: a cursor, a pair of slot indices, that moves
//!   elements out of a block it is handed;
//! - [`into_iter`] and [`drain`]: a cursor bundled with the storage it
//!   ranges over.
//!
//! Every element lives in exactly one slot until it is moved out, and every
//! block is owned by exactly one value, so its storage, and whatever
//! elements are still in it, are released once, when that value is dropped.

pub mod owned_ptr;
pub mod raw_vec;
pub mod raw_val_iter;
pub mod vec;
pub mod into_iter;
pub mod drain;
