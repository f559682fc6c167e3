//! Verified core of the Cobuild OTX lock: molecule decoding of Cobuild witnesses,
//! OTX layout scanning, signing-hash preimages, validation planning and the
//! lock contract's argument, error and verifier logic.
#![allow(unused_imports)]

pub mod error;
pub mod protocol;
pub mod lazy_reader;
pub mod reader;
pub mod view;
pub mod layout;
pub mod witness;
pub mod hash;
pub mod plan;
pub mod context;
pub mod source;
pub mod seal;
pub mod engine;
pub mod loader;
pub mod tasks;
pub mod lock;
pub mod coverage;
