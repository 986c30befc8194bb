//! Decision logic for keeping local clones of every repository of one
//! hosting-service account up to date.
//!
//! The crate performs no input or output. Listing the account's repositories
//! and bringing one local clone up to date are written as state machines: the
//! caller carries out the action a machine asks for and hands back what
//! happened.

pub mod batch;
pub mod descriptor;
pub mod error;
pub mod lister;
pub mod progress;
pub mod sync;
pub mod world;
