//! The OTX lock contract: its arguments, its exit codes, the check of one
//! seal, and the run that checks every signature the plan requires.

pub mod args;
pub mod error;
pub mod verify;
pub mod entry;
