//! Reasons for which a call can fail.
use vstd::prelude::*;

verus! {

/// Why a call was refused. Every failure is terminal for the call that raised it.
#[derive(Clone, Copy, Debug, PartialEq, Eq, Structural)]
pub enum TransferError {
    /// The instruction bytes are not an encoding of an instruction.
    MalformedInstruction,
    /// The raw payload ends before one of its fields does.
    InsufficientPayloadLength,
    /// The content locator is not valid UTF-8.
    InvalidEncoding,
    /// The recipient handle is not the recipient that the message names.
    RecipientMismatch,
    /// Storage could not be reserved, or the storage handle is not at the derived address.
    AllocationFailed,
    /// The stored bytes do not decode to a record.
    CorruptRecord,
    /// The bridge did not vouch for the message.
    UnverifiedMessage,
    /// Fewer handles were supplied than the operation reads.
    NotEnoughAccountKeys,
    /// A locator is too long for its length prefix, or a record for its storage.
    TooLarge,
}

} // verus!
