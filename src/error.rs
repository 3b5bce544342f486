use vstd::prelude::*;

verus! {

/// Why an operation on the ledger was refused.
#[derive(Clone, Copy, Debug, PartialEq, Eq, Structural)]
pub enum SplitError {
    /// The total amount of a new bill was negative.
    InvalidAmount,
    /// The participant list of a new bill was empty or named someone twice.
    InvalidParticipants,
    /// No bill is stored under the requested id.
    BillNotFound,
    /// The caller did not prove control of the identity being marked as paid.
    Unauthorized,
}

} // verus!
