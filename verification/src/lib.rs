//! A generational slot arena.
//!
//! The arena hands out stable, copyable handles ([`Index`]) for inserted
//! values, with O(1) insertion, lookup and removal. Every slot carries a
//! generation counter; a handle resolves only while its generation matches
//! the slot's, so a handle taken before a removal can never silently alias
//! a later value stored in the same slot.

mod arena;
mod free_pointer;
mod generation;
mod iter;

pub use arena::Arena;
pub use arena::Index;
pub use arena::SlotModel;
pub use free_pointer::FreePointer;
pub use generation::Generation;
pub use iter::Drain;
pub use iter::IntoIter;
pub use iter::Iter;
pub use iter::IterMut;
