use vstd::prelude::*;
use vstd::utf8::encode_utf8;
use crate::constants::{MAX_MESSAGE_LENGTH, MESSAGE_FEE_LAMPORTS, TRANSACTION_FEE_BUFFER};
use crate::identity::Identity;

verus! {

/// A wall's record: the wallet that receives its fees, its number, and the
/// bump that places its derived address off the curve.
#[derive(Clone, Copy, Debug)]
pub struct Wall {
    pub dev_wallet: Identity,
    pub wall_id: u64,
    pub bump: u8,
}

impl Wall {
    /// Bytes of a stored record: the owner key, the id and the bump.
    pub const LEN: usize = 32 + 8 + 1;
}

/// Emitted once when a wall is created.
#[derive(Clone, Copy, Debug)]
pub struct WallInitialized {
    pub wall_id: u64,
    pub dev_wallet: Identity,
}

/// Emitted for each message posted, after its fee has been paid.
#[derive(Clone, Debug)]
pub struct MessagePosted {
    pub wall_id: u64,
    pub user: Identity,
    pub message: String,
    pub timestamp: i64,
}

/// The board's own errors, in the order of their numeric codes.
#[derive(Clone, Copy, Debug, PartialEq, Eq, Structural)]
pub enum WallError {
    EmptyMessage,
    MessageTooLong,
    InsufficientFunds,
    InvalidDevWallet,
}

impl WallError {
    pub open spec fn spec_code(self) -> u32 {
        match self {
            WallError::EmptyMessage => 0,
            WallError::MessageTooLong => 1,
            WallError::InsufficientFunds => 2,
            WallError::InvalidDevWallet => 3,
        }
    }

    /// The error's numeric code, counted from the first variant.
    pub fn code(&self) -> (r: u32)
        ensures
            r == self.spec_code(),
    {
        match self {
            WallError::EmptyMessage => 0,
            WallError::MessageTooLong => 1,
            WallError::InsufficientFunds => 2,
            WallError::InvalidDevWallet => 3,
        }
    }
}

/// The length in bytes of the UTF-8 encoding of `s`.
pub open spec fn byte_len(s: Seq<char>) -> nat {
    encode_utf8(s).len()
}

/// The verdict on a message body of `len` bytes.
pub open spec fn length_check(len: nat) -> Result<(), WallError> {
    if len == 0 {
        Err(WallError::EmptyMessage)
    } else if len > MAX_MESSAGE_LENGTH {
        Err(WallError::MessageTooLong)
    } else {
        Ok(())
    }
}

/// Accepts a body of one to 500 bytes.
pub fn check_message(message: &String) -> (r: Result<(), WallError>)
    ensures
        r == length_check(byte_len(message@)),
{
    let len: usize = message.as_str().as_bytes().len();
    if len == 0 {
        Err(WallError::EmptyMessage)
    } else if len > MAX_MESSAGE_LENGTH {
        Err(WallError::MessageTooLong)
    } else {
        Ok(())
    }
}

/// Whether a balance covers the fee and the transaction fee headroom.
pub open spec fn covers_fee(balance: u64) -> bool {
    balance as int >= MESSAGE_FEE_LAMPORTS + TRANSACTION_FEE_BUFFER
}

pub fn check_funds(balance: u64) -> (r: Result<(), WallError>)
    ensures
        r is Ok <==> covers_fee(balance),
        r is Err ==> r == Err::<(), WallError>(WallError::InsufficientFunds),
{
    if balance >= MESSAGE_FEE_LAMPORTS + TRANSACTION_FEE_BUFFER {
        Ok(())
    } else {
        Err(WallError::InsufficientFunds)
    }
}

} // verus!
