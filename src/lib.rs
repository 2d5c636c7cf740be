//! A hazard pointer domain: readers publish the address they are about to
//! use in a hazard cell, writers swap addresses out of shared slots and
//! retire them, and a reclamation scan destroys every retired object that no
//! hazard cell protects.
//!
//! Objects live in an arena owned by the domain and are named by nonzero
//! addresses; the address `0` plays the part of the null pointer. The domain
//! is a value handed to each operation, so every step of the protocol (lease
//! a cell, publish, swap, retire, scan) is one call on it, and the contracts
//! state what each step does to the cells, the retired records and the arena.
pub mod deleter;
pub mod domain;
pub mod hazard;
pub mod heap;
pub mod holder;
pub mod retired;

pub use crate::deleter::{BoxedPointer, DeleteKind, Deleter, DropPointer};
pub use crate::domain::GlobalDomain;
pub use crate::hazard::{Hazard, HazardList};
pub use crate::heap::{Block, Heap};
pub use crate::holder::{DoerWrapper, Guard, Holder, Slot};
pub use crate::retired::{Retired, RetiredList};
