//! The authenticated strategy: file metadata, keyed by the message's own identity.
//!
//! Here a message comes inside an envelope of the bridge, and the bridge is asked first
//! whether the envelope is genuine. Only a verified envelope has its payload decoded.
//! The metadata is stored at the address derived from the message's identity, in storage
//! that is taken to exist already: nothing is reserved, the handle is credited the cost
//! of keeping the bytes, and what the storage held before is not looked at.
use crate::account::{overwrite, padded, AccountHandle, AccountView};
use crate::address::{address_view, get_metadata_account_address, metadata_account_address};
use crate::codec::{
    bytes32_eq, lemma_parse_string_of_bytes, parse_string, read_bytes32, read_string,
    string_bytes, string_fits, write_bytes, write_string, zeros,
};
use crate::error::TransferError;
use vstd::prelude::*;
use vstd::utf8::*;

verus! {

/// Bytes that metadata takes beside its locator's text: the two identities and the
/// length prefix.
pub const METADATA_OVERHEAD: usize = 68;

/// What one message says of one file.
#[derive(Clone, Debug, PartialEq, Eq)]
pub struct FileMetadata {
    /// The message's identity.
    pub id: [u8; 32],
    /// Where the file's content is kept.
    pub arweave_url: String,
    /// Who sent the file, on the chain it came from.
    pub original_sender: [u8; 32],
}

/// The model of file metadata.
pub struct FileMetadataView {
    pub id: Seq<u8>,
    pub arweave_url: Seq<char>,
    pub original_sender: Seq<u8>,
}

impl FileMetadataView {
    /// Both identities are 32 bytes long.
    pub open spec fn well_formed(self) -> bool {
        self.id.len() == 32 && self.original_sender.len() == 32
    }

    /// Well formed, and the locator's length fits its prefix.
    pub open spec fn encodable(self) -> bool {
        self.well_formed() && string_fits(self.arweave_url)
    }

    /// The metadata on the wire and in storage: the identity, the locator
    /// (length-prefixed UTF-8), the sender.
    pub open spec fn bytes(self) -> Seq<u8> {
        self.id + string_bytes(self.arweave_url) + self.original_sender
    }
}

impl View for FileMetadata {
    type V = FileMetadataView;

    open spec fn view(&self) -> FileMetadataView {
        FileMetadataView {
            id: self.id@,
            arweave_url: self.arweave_url@,
            original_sender: self.original_sender@,
        }
    }
}

/// The metadata at the front of `bytes` and the number of bytes it takes, or why there
/// is none: `InsufficientPayloadLength` where a field runs past the end,
/// `InvalidEncoding` where the locator is not UTF-8. Bytes behind the sender are not
/// looked at.
pub open spec fn parse_metadata(bytes: Seq<u8>) -> Result<(FileMetadataView, int), TransferError> {
    if bytes.len() < 32 {
        Err(TransferError::InsufficientPayloadLength)
    } else {
        match parse_string(bytes.skip(32)) {
            Err(e) => Err(e),
            Ok((arweave_url, used)) => {
                if bytes.len() < 64 + used {
                    Err(TransferError::InsufficientPayloadLength)
                } else {
                    Ok(
                        (
                            FileMetadataView {
                                id: bytes.subrange(0, 32),
                                arweave_url,
                                original_sender: bytes.subrange(32 + used, 64 + used),
                            },
                            64 + used,
                        ),
                    )
                }
            },
        }
    }
}

/// Metadata that was written is read back, whatever follows it.
pub proof fn lemma_parse_metadata_of_bytes(m: FileMetadataView, rest: Seq<u8>)
    requires
        m.encodable(),
    ensures
        parse_metadata(m.bytes() + rest) == Ok::<(FileMetadataView, int), TransferError>(
            (m, m.bytes().len() as int),
        ),
        m.bytes().len() == METADATA_OVERHEAD + encode_utf8(m.arweave_url).len(),
{
    let all = m.bytes() + rest;
    let text = string_bytes(m.arweave_url);
    let used = text.len() as int;
    let after = m.original_sender + rest;
    lemma_parse_string_of_bytes(m.arweave_url, after);
    assert(all.skip(32) =~= text + after);
    assert(all.subrange(0, 32) =~= m.id);
    assert(all.subrange(32 + used, 64 + used) =~= m.original_sender);
}

impl FileMetadata {
    /// Reads metadata from the front of `data`.
    pub fn deserialize(data: &[u8]) -> (r: Result<FileMetadata, TransferError>)
        ensures
            match r {
                Ok(metadata) => parse_metadata(data@) is Ok && parse_metadata(data@)->Ok_0.0
                    == metadata@,
                Err(e) => parse_metadata(data@) == Err::<(FileMetadataView, int), TransferError>(
                    e,
                ),
            },
    {
        if data.len() < 32 {
            return Err(TransferError::InsufficientPayloadLength);
        }
        let id = read_bytes32(data, 0);
        let (arweave_url, sender_at) = match read_string(data, 32) {
            Ok(found) => found,
            Err(e) => {
                return Err(e);
            },
        };
        if data.len() - sender_at < 32 {
            return Err(TransferError::InsufficientPayloadLength);
        }
        let original_sender = read_bytes32(data, sender_at);
        Ok(FileMetadata { id, arweave_url, original_sender })
    }

    /// Appends the metadata's bytes to `out`. Fails, leaving `out` as it was, where the
    /// locator is too long for its length prefix.
    pub fn serialize(&self, out: &mut Vec<u8>) -> (r: Result<(), TransferError>)
        ensures
            match r {
                Ok(()) => self@.encodable() && final(out)@ == old(out)@ + self@.bytes(),
                Err(e) => e == TransferError::TooLarge && !self@.encodable() && final(out)@
                    == old(out)@,
            },
    {
        let mut text: Vec<u8> = Vec::new();
        if !write_string(&mut text, &self.arweave_url) {
            return Err(TransferError::TooLarge);
        }
        write_bytes(out, self.id.as_slice());
        write_bytes(out, text.as_slice());
        write_bytes(out, self.original_sender.as_slice());
        assert(final(out)@ =~= old(out)@ + self@.bytes());
        Ok(())
    }
}

/// What the bridge said of an envelope.
#[derive(Clone, Copy, Debug, PartialEq, Eq, Structural)]
pub enum Verification {
    /// The bridge vouches for the envelope.
    Verified,
    /// It does not.
    Rejected,
}

/// Whether `metadata` can be stored in `len` bytes.
pub open spec fn metadata_fits(metadata: FileMetadataView, len: nat) -> bool {
    metadata.encodable() && metadata.bytes().len() <= len
}

/// Storing decoded metadata behind a handle, given the address that was derived for the
/// message: the handle must be at that address, the credit must not overflow its
/// balance, and the metadata must fit. Then the balance grows by `retention_cost` and
/// the storage holds the metadata and nothing else.
pub open spec fn settle_metadata_spec(
    storage: AccountView,
    computed_address: Option<Seq<u8>>,
    metadata: FileMetadataView,
    retention_cost: u64,
) -> Result<AccountView, TransferError> {
    if computed_address != Some(storage.key@) {
        Err(TransferError::AllocationFailed)
    } else if storage.lamports + retention_cost > u64::MAX {
        Err(TransferError::AllocationFailed)
    } else if !metadata_fits(metadata, storage.data.len()) {
        Err(TransferError::TooLarge)
    } else {
        Ok(
            AccountView {
                lamports: (storage.lamports + retention_cost) as u64,
                data: padded(metadata.bytes(), storage.data.len()),
                ..storage
            },
        )
    }
}

/// The authenticated receive operation: an envelope that the bridge rejected is refused
/// before its payload is read; else the payload is decoded and stored at the address
/// derived from the message's identity.
pub open spec fn receive_metadata_spec(
    program_id: [u8; 32],
    storage: AccountView,
    payload: Seq<u8>,
    verification: Verification,
    retention_cost: u64,
) -> Result<AccountView, TransferError> {
    match verification {
        Verification::Rejected => Err(TransferError::UnverifiedMessage),
        Verification::Verified => match parse_metadata(payload) {
            Err(e) => Err(e),
            Ok((metadata, _)) => settle_metadata_spec(
                storage,
                metadata_account_address(program_id@, metadata.id),
                metadata,
                retention_cost,
            ),
        },
    }
}

/// Stores `metadata` behind `storage`, with `computed_address` as the address derived
/// for the message. A call that fails leaves the handle as it was.
pub fn settle_metadata(
    storage: &mut AccountHandle,
    computed_address: &Option<[u8; 32]>,
    metadata: &FileMetadata,
    retention_cost: u64,
) -> (r: Result<(), TransferError>)
    ensures
        match r {
            Ok(()) => settle_metadata_spec(
                old(storage)@,
                address_view(*computed_address),
                metadata@,
                retention_cost,
            ) == Ok::<AccountView, TransferError>(final(storage)@),
            Err(e) => settle_metadata_spec(
                old(storage)@,
                address_view(*computed_address),
                metadata@,
                retention_cost,
            ) == Err::<AccountView, TransferError>(e) && *final(storage) == *old(storage),
        },
{
    match computed_address {
        Some(address) => {
            if !bytes32_eq(address, &storage.key) {
                return Err(TransferError::AllocationFailed);
            }
        },
        None => {
            return Err(TransferError::AllocationFailed);
        },
    }
    let credited: u64 = match storage.lamports.checked_add(retention_cost) {
        Some(sum) => sum,
        None => {
            return Err(TransferError::AllocationFailed);
        },
    };
    let mut bytes: Vec<u8> = Vec::new();
    if metadata.serialize(&mut bytes).is_err() {
        return Err(TransferError::TooLarge);
    }
    if !overwrite(storage, bytes) {
        return Err(TransferError::TooLarge);
    }
    storage.lamports = credited;
    Ok(())
}

/// Receives file metadata: `payload` is the inner payload of an envelope and
/// `verification` what the bridge said of that envelope. A call that fails leaves the
/// handle as it was; on an envelope that was not verified nothing is ever written.
pub fn receive_file_metadata(
    program_id: &[u8; 32],
    storage: &mut AccountHandle,
    payload: &[u8],
    verification: Verification,
    retention_cost: u64,
) -> (r: Result<(), TransferError>)
    ensures
        match r {
            Ok(()) => receive_metadata_spec(
                *program_id,
                old(storage)@,
                payload@,
                verification,
                retention_cost,
            ) == Ok::<AccountView, TransferError>(final(storage)@),
            Err(e) => receive_metadata_spec(
                *program_id,
                old(storage)@,
                payload@,
                verification,
                retention_cost,
            ) == Err::<AccountView, TransferError>(e) && *final(storage) == *old(storage),
        },
{
    match verification {
        Verification::Rejected => {
            return Err(TransferError::UnverifiedMessage);
        },
        Verification::Verified => {},
    }
    let metadata = match FileMetadata::deserialize(payload) {
        Ok(metadata) => metadata,
        Err(e) => {
            return Err(e);
        },
    };
    let computed_address = get_metadata_account_address(program_id, &metadata.id);
    settle_metadata(storage, &computed_address, &metadata, retention_cost)
}

/// Without the bridge's word nothing is stored, whatever the payload and the handle are.
pub proof fn lemma_unverified_is_refused(
    program_id: [u8; 32],
    storage: AccountView,
    payload: Seq<u8>,
    retention_cost: u64,
)
    ensures
        receive_metadata_spec(
            program_id,
            storage,
            payload,
            Verification::Rejected,
            retention_cost,
        ) == Err::<AccountView, TransferError>(TransferError::UnverifiedMessage),
{
}

/// What was stored is read back: metadata that fits its storage decodes from it.
pub proof fn lemma_stored_metadata_is_read_back(metadata: FileMetadataView, len: nat)
    requires
        metadata_fits(metadata, len),
    ensures
        parse_metadata(padded(metadata.bytes(), len)) == Ok::<
            (FileMetadataView, int),
            TransferError,
        >((metadata, metadata.bytes().len() as int)),
{
    lemma_parse_metadata_of_bytes(metadata, zeros((len - metadata.bytes().len()) as nat));
}

} // verus!
