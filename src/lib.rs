//! A ledger of shared bills: who takes part in each, what it costs, and who has
//! paid. Bills are opened with validated inputs and ids issued in sequence, and
//! payments are recorded only for identities whose control the caller proved.
use vstd::prelude::*;

pub mod error;
pub mod identity;
pub mod bill;
pub mod contract;
pub mod laws;

verus! {

} // verus!
