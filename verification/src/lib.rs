//! Canonical hashing and wire encoding for a session credential: a scoped,
//! time-limited delegation of signing authority to a temporary key.
//!
//! The crate has two independent pipelines over a shared data model:
//! hashing ([`hash`]) produces the field element that signatures are made
//! over, and the codec ([`codec`]) maps the full credential bundle to and
//! from the flat sequence of field elements that the verifying contract's
//! ABI decoder expects.

pub mod codec;
pub mod felt;
pub mod hash;
pub mod laws;
