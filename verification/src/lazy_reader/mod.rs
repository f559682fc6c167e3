//! Lazy readers over molecule-encoded Cobuild and CKB blockchain structures.

pub mod support;
pub mod cobuild;
pub mod witness;
pub mod blockchain;
pub mod iterators;
