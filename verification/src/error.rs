//! The ways an escrow operation can fail.
use vstd::prelude::*;

verus! {

/// Why an operation was refused. A refused operation changes nothing.
#[derive(Clone, Copy, Debug, PartialEq, Eq, Structural)]
pub enum EscrowError {
    /// The offer that was referred to does not exist.
    NotFound,
    /// The caller has no authority over a holding that was referred to.
    Unauthorized,
    /// A holding or an asset type disagrees with the asset that is expected.
    AssetMismatch,
    /// A holding has less than the amount to be moved out of it.
    InsufficientBalance,
    /// An address to be allocated is in use, or one to be freed is not empty.
    AllocationConflict,
}

} // verus!
