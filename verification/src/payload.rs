//! The positional payload extractor.
//!
//! A raw bridge payload is read by position: one byte that gives the locator's length
//! `L`, `L` bytes of UTF-8, the recipient (32 bytes), the sender (32 bytes) and the
//! creation time (8 bytes, little-endian). Nothing vouches for such a payload: whoever
//! can hand in bytes of this shape can announce a transfer.
use crate::codec::{le_value, lemma_le_bounds, lemma_le_value_bound, read_bytes32, read_u64_le, read_utf8};
use crate::error::TransferError;
use crate::state::TransferView;
use vstd::prelude::*;
use vstd::utf8::*;

verus! {

/// Bytes of a raw payload beside the locator's text: the length byte, the two identities
/// and the time.
pub const PAYLOAD_OVERHEAD: usize = 73;

/// The number of bytes that a raw payload must have for the locator length that its
/// first byte declares.
pub open spec fn required_payload_len(vaa: Seq<u8>) -> int
    recommends
        vaa.len() > 0,
{
    PAYLOAD_OVERHEAD + vaa[0]
}

/// What a raw payload says, or why it says nothing. Length comes first: a payload that
/// is too short is refused for that, whatever its bytes are. Bytes behind the time are
/// not looked at.
pub open spec fn parse_vaa_spec(vaa: Seq<u8>) -> Result<TransferView, TransferError> {
    if vaa.len() == 0 || vaa.len() < required_payload_len(vaa) {
        Err(TransferError::InsufficientPayloadLength)
    } else {
        let fields = 1 + vaa[0];
        if !valid_utf8(vaa.subrange(1, fields)) {
            Err(TransferError::InvalidEncoding)
        } else {
            Ok(
                TransferView {
                    arweave_url: decode_utf8(vaa.subrange(1, fields)),
                    recipient: vaa.subrange(fields, fields + 32),
                    sender: vaa.subrange(fields + 32, fields + 64),
                    created_at: le_value(vaa.subrange(fields + 64, fields + 72)) as u64,
                },
            )
        }
    }
}

/// A payload is refused for its length exactly where it is empty or shorter than the
/// locator length in its first byte demands, whatever else it holds.
pub proof fn lemma_short_payload_is_refused(vaa: Seq<u8>)
    ensures
        (vaa.len() == 0 || vaa.len() < required_payload_len(vaa)) <==> parse_vaa_spec(vaa) == Err::<
            TransferView,
            TransferError,
        >(TransferError::InsufficientPayloadLength),
{
}

/// Reads a raw payload by position: the locator, the recipient, the sender and the
/// creation time.
pub fn parse_vaa(vaa: &[u8]) -> (r: Result<(String, [u8; 32], [u8; 32], u64), TransferError>)
    ensures
        match r {
            Ok((arweave_url, recipient, sender, created_at)) => parse_vaa_spec(vaa@) == Ok::<
                TransferView,
                TransferError,
            >(
                TransferView {
                    arweave_url: arweave_url@,
                    recipient: recipient@,
                    sender: sender@,
                    created_at,
                },
            ),
            Err(e) => parse_vaa_spec(vaa@) == Err::<TransferView, TransferError>(e),
        },
{
    if vaa.len() == 0 {
        return Err(TransferError::InsufficientPayloadLength);
    }
    let arweave_url_len: usize = vaa[0] as usize;
    if vaa.len() - 1 < arweave_url_len + 72 {
        return Err(TransferError::InsufficientPayloadLength);
    }
    let fields: usize = 1 + arweave_url_len;
    let arweave_url = match read_utf8(vaa, 1, fields) {
        Some(text) => text,
        None => {
            return Err(TransferError::InvalidEncoding);
        },
    };
    let recipient = read_bytes32(vaa, fields);
    let sender = read_bytes32(vaa, fields + 32);
    let created_at = read_u64_le(vaa, fields + 64);
    proof {
        lemma_le_value_bound(vaa@.subrange(fields + 64, fields + 72));
        lemma_le_bounds();
    }
    Ok((arweave_url, recipient, sender, created_at))
}

} // verus!
