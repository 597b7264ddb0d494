use vstd::prelude::*;

verus! {

/// The fee charged for posting a message: 0.05 of the display unit.
pub const MESSAGE_FEE_LAMPORTS: u64 = 50_000_000;

/// The largest message body accepted, in bytes.
pub const MAX_MESSAGE_LENGTH: usize = 500;

/// Headroom left in the poster's balance for the ledger's own transaction fee.
pub const TRANSACTION_FEE_BUFFER: u64 = 1_000_000;

} // verus!
