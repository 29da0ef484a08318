//! Receiving side of a cross-chain file-transfer notification protocol.
//!
//! A message that announces a file (a locator of its content, a recipient and a sender)
//! arrives over a bridge and is recorded for its recipient, at an address derived from
//! the recipient's identity. Only the latest transfer of a recipient is kept.
//!
//! - `codec`: little-endian integers, identities and length-prefixed strings in bytes.
//! - `state`, `instruction`, `payload`, `metadata`: the record, the instruction, the raw
//!   bridge payload and the file metadata, each with its layout and its reader.
//! - `address`: where a record and where metadata live.
//! - `account`: account handles and the record store.
//! - `processor`: the dispatcher and the receive operation, and what holds of them.
//! - `error`: why a call fails.
//!
//! Reserving storage and asking the bridge are not done here. The receive operation
//! says when storage has to be reserved and is called again once it is; the
//! authenticated strategy takes the bridge's verdict as an argument.
pub mod account;
pub mod address;
pub mod codec;
pub mod error;
pub mod instruction;
pub mod metadata;
pub mod payload;
pub mod processor;
pub mod state;
