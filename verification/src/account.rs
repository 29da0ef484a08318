//! Account handles and the record store.
//!
//! A handle is what a caller supplies for one account: its address, its owner, its
//! balance and the bytes behind it. The record store decides whether storage has to be
//! reserved, takes the allocator's answer, and loads and persists records. Reserving is
//! the allocator's work: the store only says that it is needed and records its result.
use crate::codec::{bytes32_eq, zeros};
use crate::error::TransferError;
use crate::state::{
    lemma_parse_transfer_of_bytes, lemma_zeroed_storage_is_blank, parse_transfer,
    FileTransferState, TransferView, RECORD_OVERHEAD,
};
use vstd::prelude::*;

verus! {

/// One account as a caller hands it in.
#[derive(Clone, Debug, PartialEq, Eq)]
pub struct AccountHandle {
    /// The account's address.
    pub key: [u8; 32],
    /// The program that owns the account.
    pub owner: [u8; 32],
    /// The account's balance.
    pub lamports: u64,
    /// The bytes behind the account; none while nothing is reserved.
    pub data: Vec<u8>,
}

/// The model of a handle: the same fields, the bytes as a sequence.
pub struct AccountView {
    pub key: [u8; 32],
    pub owner: [u8; 32],
    pub lamports: u64,
    pub data: Seq<u8>,
}

impl View for AccountHandle {
    type V = AccountView;

    open spec fn view(&self) -> AccountView {
        AccountView { key: self.key, owner: self.owner, lamports: self.lamports, data: self.data@ }
    }
}

impl DeepView for AccountHandle {
    type V = AccountView;

    open spec fn deep_view(&self) -> AccountView {
        self@
    }
}

/// What has to happen before a record can be stored behind a handle.
#[derive(Clone, Copy, Debug, PartialEq, Eq, Structural)]
pub enum Provision {
    /// Storage is there.
    Ready,
    /// Nothing is reserved yet: the allocator has to reserve `space` bytes.
    Allocate { space: usize },
}

/// What the allocator is asked for.
#[derive(Clone, Copy, Debug, PartialEq, Eq)]
pub struct AllocationRequest {
    /// Who pays for the reservation.
    pub payer: [u8; 32],
    /// The address at which storage is reserved.
    pub storage: [u8; 32],
    /// The program that is to own the storage.
    pub owner: [u8; 32],
    /// The number of bytes to reserve.
    pub space: usize,
}

/// What the allocator answered.
#[derive(Clone, Copy, Debug, PartialEq, Eq, Structural)]
pub enum AllocatorReply {
    /// The storage was reserved and funded with `lamports`.
    Granted { lamports: u64 },
    /// The request could not be satisfied.
    Refused,
}

/// The decision of `ensure_exists`.
pub open spec fn ensure_exists_spec(
    handle: AccountView,
    computed_address: Option<Seq<u8>>,
    size: usize,
) -> Result<Provision, TransferError> {
    if computed_address != Some(handle.key@) {
        Err(TransferError::AllocationFailed)
    } else if handle.data.len() == 0 {
        Ok(Provision::Allocate { space: size })
    } else {
        Ok(Provision::Ready)
    }
}

/// Checks that `handle` is at `computed_address` and decides whether `size` bytes have to
/// be reserved behind it. A handle elsewhere, or no address at all, fails.
pub fn ensure_exists(handle: &AccountHandle, computed_address: &Option<[u8; 32]>, size: usize) -> (r:
    Result<Provision, TransferError>)
    ensures
        r == ensure_exists_spec(handle@, crate::address::address_view(*computed_address), size),
{
    match computed_address {
        Some(address) => {
            if !bytes32_eq(address, &handle.key) {
                Err(TransferError::AllocationFailed)
            } else if handle.data.len() == 0 {
                Ok(Provision::Allocate { space: size })
            } else {
                Ok(Provision::Ready)
            }
        },
        None => Err(TransferError::AllocationFailed),
    }
}

/// A handle after the allocator granted `request` with `lamports`: zeroed storage of the
/// requested size, owned by the requested owner.
pub open spec fn allocated(handle: AccountView, request: AllocationRequest, lamports: u64) -> AccountView {
    AccountView {
        key: handle.key,
        owner: request.owner,
        lamports,
        data: zeros(request.space as nat),
    }
}

/// What `complete_allocation` makes of a handle, or why it fails.
pub open spec fn complete_allocation_spec(
    handle: AccountView,
    request: AllocationRequest,
    reply: AllocatorReply,
) -> Result<AccountView, TransferError> {
    match reply {
        AllocatorReply::Granted { lamports } => if handle.key@ == request.storage@
            && handle.data.len() == 0 {
            Ok(allocated(handle, request, lamports))
        } else {
            Err(TransferError::AllocationFailed)
        },
        AllocatorReply::Refused => Err(TransferError::AllocationFailed),
    }
}

/// Records the allocator's answer to `request` in `handle`. A refusal, a handle that is
/// not the one the request names, or one that has storage already, fails and leaves the
/// handle as it was: bytes that are there are never zeroed.
pub fn complete_allocation(
    handle: &mut AccountHandle,
    request: &AllocationRequest,
    reply: AllocatorReply,
) -> (r: Result<(), TransferError>)
    ensures
        match r {
            Ok(()) => complete_allocation_spec(old(handle)@, *request, reply) == Ok::<
                AccountView,
                TransferError,
            >(final(handle)@),
            Err(e) => complete_allocation_spec(old(handle)@, *request, reply) == Err::<
                AccountView,
                TransferError,
            >(e) && *final(handle) == *old(handle),
        },
{
    match reply {
        AllocatorReply::Granted { lamports } => {
            if !bytes32_eq(&handle.key, &request.storage) || handle.data.len() != 0 {
                return Err(TransferError::AllocationFailed);
            }
            let mut data: Vec<u8> = Vec::new();
            while data.len() < request.space
                invariant
                    data@.len() <= request.space,
                    data@ == zeros(data@.len()),
                decreases request.space - data@.len(),
            {
                data.push(0u8);
                assert(data@ =~= zeros(data@.len()));
            }
            handle.owner = request.owner;
            handle.lamports = lamports;
            handle.data = data;
            Ok(())
        },
        AllocatorReply::Refused => Err(TransferError::AllocationFailed),
    }
}

/// The record that storage holds, or `CorruptRecord` where its bytes are none.
pub open spec fn load_spec(data: Seq<u8>) -> Result<TransferView, TransferError> {
    match parse_transfer(data) {
        Ok((record, _)) => Ok(record),
        Err(_) => Err(TransferError::CorruptRecord),
    }
}

/// Freshly reserved storage with room for a record holds the blank record.
pub proof fn lemma_fresh_storage_is_blank(len: nat)
    requires
        len >= RECORD_OVERHEAD,
    ensures
        load_spec(zeros(len)) == Ok::<TransferView, TransferError>(TransferView::blank()),
{
    lemma_zeroed_storage_is_blank(len);
}

/// Decodes the record that the handle's storage holds.
pub fn load(handle: &AccountHandle) -> (r: Result<FileTransferState, TransferError>)
    ensures
        match r {
            Ok(record) => load_spec(handle@.data) == Ok::<TransferView, TransferError>(record@),
            Err(e) => load_spec(handle@.data) == Err::<TransferView, TransferError>(e),
        },
{
    FileTransferState::deserialize(handle.data.as_slice())
}

/// `bytes` followed by zeros up to `len` bytes in all.
pub open spec fn padded(bytes: Seq<u8>, len: nat) -> Seq<u8> {
    bytes + zeros((len - bytes.len()) as nat)
}

/// Overwrites the handle's storage, all of it, with `bytes` and zeros behind them.
/// Where `bytes` are longer than the storage, changes nothing and returns `false`.
pub fn overwrite(handle: &mut AccountHandle, bytes: Vec<u8>) -> (written: bool)
    ensures
        written == (bytes@.len() <= old(handle)@.data.len()),
        written ==> final(handle)@ == (AccountView {
            data: padded(bytes@, old(handle)@.data.len()),
            ..old(handle)@
        }),
        !written ==> *final(handle) == *old(handle),
{
    let len: usize = handle.data.len();
    if bytes.len() > len {
        return false;
    }
    let mut data: Vec<u8> = bytes;
    assert(data@ =~= padded(bytes@, bytes@.len()));
    while data.len() < len
        invariant
            bytes@.len() <= data@.len() <= len,
            data@ == padded(bytes@, data@.len()),
        decreases len - data@.len(),
    {
        data.push(0u8);
        assert(data@ =~= padded(bytes@, data@.len()));
    }
    handle.data = data;
    true
}

/// Whether `record` can be stored in `len` bytes.
pub open spec fn record_fits(record: TransferView, len: nat) -> bool {
    record.encodable() && record.bytes().len() <= len
}

/// Storage of `len` bytes that holds `record` and nothing else: the record's bytes, then
/// zeros to the end.
pub open spec fn stored(record: TransferView, len: nat) -> Seq<u8> {
    padded(record.bytes(), len)
}

/// What is stored is what is loaded.
pub proof fn lemma_load_stored(record: TransferView, len: nat)
    requires
        record_fits(record, len),
    ensures
        load_spec(stored(record, len)) == Ok::<TransferView, TransferError>(record),
        stored(record, len).len() == len,
{
    lemma_parse_transfer_of_bytes(record, zeros((len - record.bytes().len()) as nat));
}

/// Overwrites the handle's storage, all of it, with `record`. Where the record does not
/// fit, fails before a byte is changed.
pub fn persist(handle: &mut AccountHandle, record: &FileTransferState) -> (r: Result<
    (),
    TransferError,
>)
    ensures
        match r {
            Ok(()) => record_fits(record@, old(handle)@.data.len()) && final(handle)@ == (
            AccountView { data: stored(record@, old(handle)@.data.len()), ..old(handle)@ }),
            Err(e) => e == TransferError::TooLarge && !record_fits(
                record@,
                old(handle)@.data.len(),
            ) && *final(handle) == *old(handle),
        },
{
    let mut bytes: Vec<u8> = Vec::new();
    if record.serialize(&mut bytes).is_err() {
        return Err(TransferError::TooLarge);
    }
    if overwrite(handle, bytes) {
        Ok(())
    } else {
        Err(TransferError::TooLarge)
    }
}

} // verus!
