use vstd::prelude::*;

verus! {

/// Hashing a message to G1 failed.
#[derive(Clone, Debug, PartialEq, Eq)]
pub enum HashingError {
    Failed,
}

} // verus!
