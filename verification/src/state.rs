//! The transfer record: what one message says, and how it lies in bytes.
//!
//! A record is written as the content locator (length-prefixed UTF-8), the recipient
//! (32 bytes), the sender (32 bytes) and the creation time (8 bytes, little-endian).
use crate::codec::{
    le_bytes, le_value, lemma_le_bounds, lemma_le_bytes_len, lemma_le_bytes_of_value,
    lemma_le_value_bound, lemma_le_value_of_bytes, lemma_le_zero, lemma_parse_string_of_bytes,
    lemma_string_bytes_of_parse, parse_string, read_bytes32, read_string, read_u64_le,
    string_bytes, string_fits, write_bytes, write_string, write_u64_le, zeros,
};
use crate::error::TransferError;
use vstd::prelude::*;
use vstd::utf8::*;

verus! {

/// Bytes that a record takes beside its locator's text: the length prefix, the two
/// identities and the time.
pub const RECORD_OVERHEAD: usize = 76;

/// The longest locator, in bytes, that the raw payload layout can carry.
pub const MAX_LOCATOR_LEN: usize = 255;

/// Bytes reserved for a recipient's record: room for the longest locator.
pub const STATE_ACCOUNT_SPACE: usize = RECORD_OVERHEAD + MAX_LOCATOR_LEN;

/// The latest transfer that a recipient has received.
#[derive(Clone, Debug, PartialEq, Eq)]
pub struct FileTransferState {
    pub arweave_url: String,
    pub recipient: [u8; 32],
    pub sender: [u8; 32],
    pub created_at: u64,
}

/// What a transfer says, as mathematics: the model of a record and of a message.
pub struct TransferView {
    pub arweave_url: Seq<char>,
    pub recipient: Seq<u8>,
    pub sender: Seq<u8>,
    pub created_at: u64,
}

impl TransferView {
    /// Both identities are 32 bytes long.
    pub open spec fn well_formed(self) -> bool {
        self.recipient.len() == 32 && self.sender.len() == 32
    }

    /// Well formed, and the locator's length fits its prefix.
    pub open spec fn encodable(self) -> bool {
        self.well_formed() && string_fits(self.arweave_url)
    }

    /// The record on the wire and in storage.
    pub open spec fn bytes(self) -> Seq<u8> {
        string_bytes(self.arweave_url) + self.recipient + self.sender + le_bytes(
            self.created_at as nat,
            8,
        )
    }

    /// The record that freshly reserved storage holds: no locator, zero identities, time 0.
    pub open spec fn blank() -> TransferView {
        TransferView {
            arweave_url: Seq::empty(),
            recipient: zeros(32),
            sender: zeros(32),
            created_at: 0,
        }
    }
}

impl View for FileTransferState {
    type V = TransferView;

    open spec fn view(&self) -> TransferView {
        TransferView {
            arweave_url: self.arweave_url@,
            recipient: self.recipient@,
            sender: self.sender@,
            created_at: self.created_at,
        }
    }
}

/// The record at the front of `bytes` and the number of bytes it takes. Bytes behind it
/// are not looked at.
pub open spec fn parse_transfer(bytes: Seq<u8>) -> Result<(TransferView, int), TransferError> {
    match parse_string(bytes) {
        Err(e) => Err(e),
        Ok((arweave_url, used)) => {
            if bytes.len() < used + 72 {
                Err(TransferError::InsufficientPayloadLength)
            } else {
                Ok(
                    (
                        TransferView {
                            arweave_url,
                            recipient: bytes.subrange(used, used + 32),
                            sender: bytes.subrange(used + 32, used + 64),
                            created_at: le_value(bytes.subrange(used + 64, used + 72)) as u64,
                        },
                        used + 72,
                    ),
                )
            }
        },
    }
}

/// A record that was written is read back, whatever follows it.
pub proof fn lemma_parse_transfer_of_bytes(t: TransferView, rest: Seq<u8>)
    requires
        t.encodable(),
    ensures
        parse_transfer(t.bytes() + rest) == Ok::<(TransferView, int), TransferError>(
            (t, t.bytes().len() as int),
        ),
        t.bytes().len() == RECORD_OVERHEAD + encode_utf8(t.arweave_url).len(),
{
    let all = t.bytes() + rest;
    let text = string_bytes(t.arweave_url);
    let used = text.len() as int;
    let after = t.recipient + t.sender + le_bytes(t.created_at as nat, 8) + rest;
    lemma_parse_string_of_bytes(t.arweave_url, after);
    assert(all =~= text + after);
    lemma_le_bytes_len(t.created_at as nat, 8);
    lemma_le_bounds();
    lemma_le_value_of_bytes(t.created_at as nat, 8);
    assert(all.subrange(used, used + 32) =~= t.recipient);
    assert(all.subrange(used + 32, used + 64) =~= t.sender);
    assert(all.subrange(used + 64, used + 72) =~= le_bytes(t.created_at as nat, 8));
}

/// Bytes that read as a record start with exactly what writing that record gives.
pub proof fn lemma_transfer_bytes_of_parse(bytes: Seq<u8>)
    requires
        parse_transfer(bytes) is Ok,
    ensures
        ({
            let (t, used) = parse_transfer(bytes)->Ok_0;
            &&& RECORD_OVERHEAD <= used <= bytes.len()
            &&& t.encodable()
            &&& t.bytes() == bytes.subrange(0, used)
        }),
{
    let (t, used) = parse_transfer(bytes)->Ok_0;
    let text_len = used - 72;
    lemma_string_bytes_of_parse(bytes);
    let time = bytes.subrange(text_len + 64, text_len + 72);
    lemma_le_value_bound(time);
    lemma_le_bounds();
    lemma_le_bytes_of_value(time);
    assert(t.bytes() =~= bytes.subrange(0, used));
}

/// Zeroed storage with room for a record holds the blank record.
pub proof fn lemma_zeroed_storage_is_blank(len: nat)
    requires
        len >= RECORD_OVERHEAD,
    ensures
        parse_transfer(zeros(len)) == Ok::<(TransferView, int), TransferError>(
            (TransferView::blank(), RECORD_OVERHEAD as int),
        ),
{
    let bytes = zeros(len);
    lemma_le_zero(4);
    lemma_le_zero(8);
    assert(bytes.subrange(0, 4) =~= zeros(4));
    assert(bytes.subrange(4, 4) =~= Seq::<u8>::empty());
    assert(decode_utf8(Seq::<u8>::empty()) =~= Seq::<char>::empty());
    assert(bytes.subrange(4, 36) =~= zeros(32));
    assert(bytes.subrange(36, 68) =~= zeros(32));
    assert(bytes.subrange(68, 76) =~= zeros(8));
}

/// Reads the record at `at`: the record and the position behind it.
pub(crate) fn read_transfer(data: &[u8], at: usize) -> (r: Result<(FileTransferState, usize), TransferError>)
    requires
        at <= data.len(),
    ensures
        match r {
            Ok((state, next)) => parse_transfer(data@.skip(at as int)) == Ok::<
                (TransferView, int),
                TransferError,
            >((state@, next - at)) && at + RECORD_OVERHEAD <= next <= data@.len(),
            Err(e) => parse_transfer(data@.skip(at as int)) == Err::<
                (TransferView, int),
                TransferError,
            >(e),
        },
{
    let ghost tail = data@.skip(at as int);
    let (arweave_url, fields) = match read_string(data, at) {
        Ok(found) => found,
        Err(e) => {
            return Err(e);
        },
    };
    if data.len() - fields < 72 {
        return Err(TransferError::InsufficientPayloadLength);
    }
    let recipient = read_bytes32(data, fields);
    let sender = read_bytes32(data, fields + 32);
    let created_at = read_u64_le(data, fields + 64);
    proof {
        let used = fields - at;
        assert(tail.subrange(used, used + 32) =~= data@.subrange(fields as int, fields + 32));
        assert(tail.subrange(used + 32, used + 64) =~= data@.subrange(fields + 32, fields + 64));
        assert(tail.subrange(used + 64, used + 72) =~= data@.subrange(fields + 64, fields + 72));
        lemma_le_value_bound(data@.subrange(fields + 64, fields + 72));
        lemma_le_bounds();
    }
    Ok((FileTransferState { arweave_url, recipient, sender, created_at }, fields + 72))
}

/// Appends the record made of the four fields, or leaves `out` alone and returns `false`
/// where the locator's length does not fit its prefix.
pub(crate) fn write_transfer(
    out: &mut Vec<u8>,
    arweave_url: &String,
    recipient: &[u8; 32],
    sender: &[u8; 32],
    created_at: u64,
) -> (written: bool)
    ensures
        written == string_fits(arweave_url@),
        written ==> final(out)@ == old(out)@ + (TransferView {
            arweave_url: arweave_url@,
            recipient: recipient@,
            sender: sender@,
            created_at,
        }).bytes(),
        !written ==> final(out)@ == old(out)@,
{
    if !write_string(out, arweave_url) {
        return false;
    }
    write_bytes(out, recipient.as_slice());
    write_bytes(out, sender.as_slice());
    write_u64_le(out, created_at);
    assert(out@ =~= old(out)@ + (TransferView {
        arweave_url: arweave_url@,
        recipient: recipient@,
        sender: sender@,
        created_at,
    }).bytes());
    true
}

impl FileTransferState {
    /// Reads a record from the front of `data`, as stored: what follows the record is
    /// padding and is not looked at.
    pub fn deserialize(data: &[u8]) -> (r: Result<FileTransferState, TransferError>)
        ensures
            match r {
                Ok(state) => parse_transfer(data@) is Ok && parse_transfer(data@)->Ok_0.0
                    == state@,
                Err(e) => e == TransferError::CorruptRecord && parse_transfer(data@) is Err,
            },
    {
        assert(data@.skip(0) =~= data@);
        match read_transfer(data, 0) {
            Ok((state, _)) => Ok(state),
            Err(_) => Err(TransferError::CorruptRecord),
        }
    }

    /// Appends the record's bytes to `out`. Fails, leaving `out` as it was, where the
    /// locator is too long for its length prefix.
    pub fn serialize(&self, out: &mut Vec<u8>) -> (r: Result<(), TransferError>)
        ensures
            match r {
                Ok(()) => self@.encodable() && final(out)@ == old(out)@ + self@.bytes(),
                Err(e) => e == TransferError::TooLarge && !self@.encodable() && final(out)@
                    == old(out)@,
            },
    {
        if write_transfer(out, &self.arweave_url, &self.recipient, &self.sender, self.created_at) {
            Ok(())
        } else {
            Err(TransferError::TooLarge)
        }
    }
}

} // verus!
