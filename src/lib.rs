//! Page-replacement simulation: FIFO, LRU and optimal eviction over an
//! access trace, with a hit/miss outcome per access and the resident frames
//! after every step.
pub mod access;
pub mod laws;
mod engine;
pub mod model;
pub mod parse;
pub mod policy;

pub use access::{MemoryAccess, MemoryAccesses};
pub use model::AllocationType;
pub use policy::{MemoryAllocator, FIFO, LRU, OPT};
