//! The hearth the player defends.
use vstd::prelude::*;

verus! {

/// Marks the entity of the hearth.
#[derive(Debug)]
pub struct Hearth {}

} // verus!
