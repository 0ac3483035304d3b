//! The core of the FreeCodex model router: the free model pool and its
//! routing decisions, compute credits and ad rewards, advertisement lists,
//! and FreeCodex's files.
use vstd::prelude::*;

pub mod ads;
pub mod credits;
pub mod json;
pub mod keys;
pub mod paths;
pub mod router;
pub mod session;
pub mod text;

verus! {

} // verus!
