//! Verified runtime logic of the kitty and gundam collectible modules:
//! storage models, DNA generation and breeding, ownership bookkeeping,
//! and the byte payloads that feed the chain's randomness.

use vstd::prelude::*;

pub mod avalon;
pub mod creation_list;
pub mod encoding;
pub mod gundams;
pub mod hash_index;
pub mod hashed_kitties;
pub mod kitties;
pub mod kitty_lists;
pub mod numbered_kitties;

verus! {

/// An account of the chain.
pub type AccountId = u64;

} // verus!
