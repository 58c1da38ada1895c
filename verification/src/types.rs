//! Identifier types shared across the crate.
use vstd::prelude::*;

verus! {

/// Unique identifier for a network.
pub type NetId = String;

/// Unique identifier for a buffer within its container.
pub type BufId = String;

/// An IRC nickname.
pub type Nick = String;

} // verus!
