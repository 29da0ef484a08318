//! The dispatcher and the receive operation.
//!
//! A call names the program, hands in the account handles in their fixed order and
//! carries a transfer. The operation checks the handles, the recipient and the storage
//! address, and then either asks for storage to be reserved or overwrites the recipient's
//! record. It keeps no state between calls: after the allocator has reserved storage the
//! same call is made again and finds it there. A call that fails changes nothing.
use crate::account::{
    allocated, ensure_exists, ensure_exists_spec, lemma_load_stored, load, load_spec, persist,
    record_fits, stored, AccountHandle, AccountView, AllocationRequest, Provision,
};
use crate::address::{address_view, get_state_account_address, state_account_address};
use crate::codec::bytes32_eq;
use crate::error::TransferError;
use crate::instruction::{parse_instruction, FileTransferInstruction};
use crate::payload::{parse_vaa, parse_vaa_spec};
use crate::state::{lemma_zeroed_storage_is_blank, TransferView, STATE_ACCOUNT_SPACE};
use vstd::prelude::*;

verus! {

/// Position of the bridge-context handle.
pub const BRIDGE_HANDLE: usize = 0;

/// Position of the handle that pays for a reservation.
pub const PAYER_HANDLE: usize = 1;

/// Position of the recipient's handle.
pub const RECIPIENT_HANDLE: usize = 2;

/// Position of the handle of the record's storage.
pub const STORAGE_HANDLE: usize = 3;

/// Position of the system allocator's handle, read only when storage has to be reserved.
pub const ALLOCATOR_HANDLE: usize = 4;

/// How a call that did not fail ended.
#[derive(Clone, Copy, Debug, PartialEq, Eq)]
pub enum Outcome {
    /// The record was written.
    Committed,
    /// Nothing was written: storage has to be reserved as the request says, and the call
    /// made again.
    AllocationRequired(AllocationRequest),
}

/// What a call returns and what it leaves in the handles.
pub struct Settlement {
    pub outcome: Result<Outcome, TransferError>,
    pub accounts: Seq<AccountView>,
}

/// A call that fails with `error` and leaves `accounts` as they were.
pub open spec fn refused(accounts: Seq<AccountView>, error: TransferError) -> Settlement {
    Settlement { outcome: Err(error), accounts }
}

/// Whether the handles that the operation reads are there: four, and the allocator's
/// too where nothing is reserved behind the storage handle.
pub open spec fn enough_handles(accounts: Seq<AccountView>) -> bool {
    accounts.len() > STORAGE_HANDLE && (accounts[STORAGE_HANDLE as int].data.len() == 0
        ==> accounts.len() > ALLOCATOR_HANDLE)
}

/// The receive operation, given the address that was derived for the recipient's record.
/// In order: the handles are counted, the recipient handle is held against the
/// transfer's recipient, the storage handle against the derived address; empty storage
/// ends the call with a request to the allocator; else the stored record must decode,
/// the new one must fit, and it replaces the old one.
pub open spec fn settle_spec(
    accounts: Seq<AccountView>,
    computed_address: Option<Seq<u8>>,
    program_id: [u8; 32],
    transfer: TransferView,
) -> Settlement {
    if !enough_handles(accounts) {
        refused(accounts, TransferError::NotEnoughAccountKeys)
    } else if accounts[RECIPIENT_HANDLE as int].key@ != transfer.recipient {
        refused(accounts, TransferError::RecipientMismatch)
    } else {
        let storage = accounts[STORAGE_HANDLE as int];
        match ensure_exists_spec(storage, computed_address, STATE_ACCOUNT_SPACE) {
            Err(e) => refused(accounts, e),
            Ok(Provision::Allocate { space }) => Settlement {
                outcome: Ok(
                    Outcome::AllocationRequired(
                        AllocationRequest {
                            payer: accounts[PAYER_HANDLE as int].key,
                            storage: storage.key,
                            owner: program_id,
                            space,
                        },
                    ),
                ),
                accounts,
            },
            Ok(Provision::Ready) => match load_spec(storage.data) {
                Err(e) => refused(accounts, e),
                Ok(_) => if !record_fits(transfer, storage.data.len()) {
                    refused(accounts, TransferError::TooLarge)
                } else {
                    Settlement {
                        outcome: Ok(Outcome::Committed),
                        accounts: accounts.update(
                            STORAGE_HANDLE as int,
                            AccountView {
                                data: stored(transfer, storage.data.len()),
                                ..storage
                            },
                        ),
                    }
                },
            },
        }
    }
}

/// The receive operation: `settle_spec` at the address derived for the recipient.
pub open spec fn receive_spec(
    program_id: [u8; 32],
    accounts: Seq<AccountView>,
    transfer: TransferView,
) -> Settlement {
    settle_spec(
        accounts,
        state_account_address(program_id@, transfer.recipient),
        program_id,
        transfer,
    )
}

/// The dispatcher: bytes that are no instruction are refused, the one instruction there
/// is goes to the receive operation.
pub open spec fn process_spec(program_id: [u8; 32], accounts: Seq<AccountView>, data: Seq<u8>) -> Settlement {
    match parse_instruction(data) {
        None => refused(accounts, TransferError::MalformedInstruction),
        Some(instruction) => receive_spec(program_id, accounts, instruction.transfer()),
    }
}

/// The receive operation on a raw payload, read by position.
pub open spec fn receive_vaa_spec(program_id: [u8; 32], accounts: Seq<AccountView>, vaa: Seq<u8>) -> Settlement {
    match parse_vaa_spec(vaa) {
        Err(e) => refused(accounts, e),
        Ok(transfer) => receive_spec(program_id, accounts, transfer),
    }
}

/// Runs the receive operation with `computed_address` as the address derived for the
/// recipient's record.
pub fn settle_transfer(
    program_id: &[u8; 32],
    accounts: &mut Vec<AccountHandle>,
    computed_address: &Option<[u8; 32]>,
    arweave_url: String,
    recipient: [u8; 32],
    sender: [u8; 32],
    created_at: u64,
) -> (r: Result<Outcome, TransferError>)
    ensures
        ({
            let settled = settle_spec(
                old(accounts).deep_view(),
                address_view(*computed_address),
                *program_id,
                TransferView {
                    arweave_url: arweave_url@,
                    recipient: recipient@,
                    sender: sender@,
                    created_at,
                },
            );
            r == settled.outcome && final(accounts).deep_view() == settled.accounts
        }),
{
    let ghost before = accounts.deep_view();
    let ghost transfer = TransferView {
        arweave_url: arweave_url@,
        recipient: recipient@,
        sender: sender@,
        created_at,
    };
    if accounts.len() <= STORAGE_HANDLE {
        return Err(TransferError::NotEnoughAccountKeys);
    }
    if accounts[STORAGE_HANDLE].data.len() == 0 && accounts.len() <= ALLOCATOR_HANDLE {
        return Err(TransferError::NotEnoughAccountKeys);
    }
    if !bytes32_eq(&accounts[RECIPIENT_HANDLE].key, &recipient) {
        return Err(TransferError::RecipientMismatch);
    }
    match ensure_exists(&accounts[STORAGE_HANDLE], computed_address, STATE_ACCOUNT_SPACE) {
        Err(e) => {
            return Err(e);
        },
        Ok(Provision::Allocate { space }) => {
            return Ok(
                Outcome::AllocationRequired(
                    AllocationRequest {
                        payer: accounts[PAYER_HANDLE].key,
                        storage: accounts[STORAGE_HANDLE].key,
                        owner: *program_id,
                        space,
                    },
                ),
            );
        },
        Ok(Provision::Ready) => {},
    }
    let mut state = match load(&accounts[STORAGE_HANDLE]) {
        Ok(state) => state,
        Err(e) => {
            return Err(e);
        },
    };
    state.arweave_url = arweave_url;
    state.recipient = accounts[RECIPIENT_HANDLE].key;
    state.sender = sender;
    state.created_at = created_at;
    let r = persist(&mut accounts[STORAGE_HANDLE], &state);
    match r {
        Ok(()) => {
            assert(accounts.deep_view() =~= before.update(
                STORAGE_HANDLE as int,
                AccountView {
                    data: stored(transfer, before[STORAGE_HANDLE as int].data.len()),
                    ..before[STORAGE_HANDLE as int]
                },
            ));
            Ok(Outcome::Committed)
        },
        Err(e) => {
            assert(accounts.deep_view() =~= before);
            Err(e)
        },
    }
}

/// Records a transfer for `recipient`: derives the address of the recipient's record and
/// runs the receive operation there.
pub fn receive_file_transfer(
    program_id: &[u8; 32],
    accounts: &mut Vec<AccountHandle>,
    arweave_url: String,
    recipient: [u8; 32],
    sender: [u8; 32],
    created_at: u64,
) -> (r: Result<Outcome, TransferError>)
    ensures
        ({
            let settled = receive_spec(
                *program_id,
                old(accounts).deep_view(),
                TransferView {
                    arweave_url: arweave_url@,
                    recipient: recipient@,
                    sender: sender@,
                    created_at,
                },
            );
            r == settled.outcome && final(accounts).deep_view() == settled.accounts
        }),
{
    let computed_address = get_state_account_address(program_id, &recipient);
    settle_transfer(
        program_id,
        accounts,
        &computed_address,
        arweave_url,
        recipient,
        sender,
        created_at,
    )
}

/// Decodes `instruction_data` and carries the instruction out.
pub fn process_instruction(
    program_id: &[u8; 32],
    accounts: &mut Vec<AccountHandle>,
    instruction_data: &[u8],
) -> (r: Result<Outcome, TransferError>)
    ensures
        ({
            let settled = process_spec(*program_id, old(accounts).deep_view(), instruction_data@);
            r == settled.outcome && final(accounts).deep_view() == settled.accounts
        }),
{
    let instruction = match FileTransferInstruction::try_from_slice(instruction_data) {
        Ok(instruction) => instruction,
        Err(e) => {
            return Err(e);
        },
    };
    match instruction {
        FileTransferInstruction::ReceiveFileTransfer {
            arweave_url,
            recipient,
            sender,
            created_at,
        } => receive_file_transfer(program_id, accounts, arweave_url, recipient, sender, created_at),
    }
}

/// Reads the raw payload `vaa` by position and records the transfer that it announces.
/// The payload is taken at its word: nothing vouches for where it came from.
pub fn receive_vaa(program_id: &[u8; 32], accounts: &mut Vec<AccountHandle>, vaa: &[u8]) -> (r:
    Result<Outcome, TransferError>)
    ensures
        ({
            let settled = receive_vaa_spec(*program_id, old(accounts).deep_view(), vaa@);
            r == settled.outcome && final(accounts).deep_view() == settled.accounts
        }),
{
    match parse_vaa(vaa) {
        Ok((arweave_url, recipient, sender, created_at)) => receive_file_transfer(
            program_id,
            accounts,
            arweave_url,
            recipient,
            sender,
            created_at,
        ),
        Err(e) => Err(e),
    }
}

/// Whether a call with `transfer` passes every check before storage is looked at: the
/// handles are there, the recipient handle is the transfer's recipient and the storage
/// handle is at the address derived for that recipient.
pub open spec fn admissible(program_id: [u8; 32], accounts: Seq<AccountView>, transfer: TransferView) -> bool {
    &&& enough_handles(accounts)
    &&& accounts[RECIPIENT_HANDLE as int].key@ == transfer.recipient
    &&& state_account_address(program_id@, transfer.recipient) == Some(
        accounts[STORAGE_HANDLE as int].key@,
    )
}

/// A call that fails leaves every handle as it was, and so does one that asks for
/// storage to be reserved.
pub proof fn lemma_only_commit_changes_handles(
    accounts: Seq<AccountView>,
    computed_address: Option<Seq<u8>>,
    program_id: [u8; 32],
    transfer: TransferView,
)
    ensures
        settle_spec(accounts, computed_address, program_id, transfer).outcome != Ok::<
            Outcome,
            TransferError,
        >(Outcome::Committed) ==> settle_spec(
            accounts,
            computed_address,
            program_id,
            transfer,
        ).accounts == accounts,
{
}

/// What is committed is the transfer, whatever the storage held before, and the record
/// names the recipient whose handle was presented.
pub proof fn lemma_committed_record_is_the_transfer(
    accounts: Seq<AccountView>,
    computed_address: Option<Seq<u8>>,
    program_id: [u8; 32],
    transfer: TransferView,
)
    requires
        settle_spec(accounts, computed_address, program_id, transfer).outcome == Ok::<
            Outcome,
            TransferError,
        >(Outcome::Committed),
    ensures
        ({
            let after = settle_spec(accounts, computed_address, program_id, transfer).accounts;
            &&& load_spec(after[STORAGE_HANDLE as int].data) == Ok::<TransferView, TransferError>(
                transfer,
            )
            &&& transfer.recipient == accounts[RECIPIENT_HANDLE as int].key@
            &&& after[STORAGE_HANDLE as int].data.len() == accounts[STORAGE_HANDLE as int].data.len()
            &&& forall|i: int|
                0 <= i < accounts.len() && i != STORAGE_HANDLE ==> after[i] == accounts[i]
        }),
{
    lemma_load_stored(transfer, accounts[STORAGE_HANDLE as int].data.len());
}

/// A recipient handle that is not the transfer's recipient fails the call with
/// `RecipientMismatch`, wherever the handles that the operation reads are there, and the
/// handles stay as they were, the stored record byte for byte.
pub proof fn lemma_wrong_recipient_is_refused(
    program_id: [u8; 32],
    accounts: Seq<AccountView>,
    transfer: TransferView,
)
    requires
        enough_handles(accounts),
        accounts[RECIPIENT_HANDLE as int].key@ != transfer.recipient,
    ensures
        receive_spec(program_id, accounts, transfer) == refused(
            accounts,
            TransferError::RecipientMismatch,
        ),
{
}

/// The same through the dispatcher and through the raw payload: an instruction, or a
/// payload, that decodes to a transfer for another recipient than the recipient handle's
/// fails with `RecipientMismatch` and changes nothing.
pub proof fn lemma_wrong_recipient_is_refused_at_the_door(
    program_id: [u8; 32],
    accounts: Seq<AccountView>,
    data: Seq<u8>,
)
    requires
        enough_handles(accounts),
    ensures
        parse_instruction(data) is Some && accounts[RECIPIENT_HANDLE as int].key@
            != parse_instruction(data)->Some_0.transfer().recipient ==> process_spec(
            program_id,
            accounts,
            data,
        ) == refused(accounts, TransferError::RecipientMismatch),
        parse_vaa_spec(data) is Ok && accounts[RECIPIENT_HANDLE as int].key@ != parse_vaa_spec(
            data,
        )->Ok_0.recipient ==> receive_vaa_spec(program_id, accounts, data) == refused(
            accounts,
            TransferError::RecipientMismatch,
        ),
{
}

/// Storage is reserved once. With nothing reserved, an admissible call asks for the
/// reservation and changes nothing; once the allocator has granted it, the same call
/// commits, and a further call commits too without asking again.
pub proof fn lemma_creation_is_idempotent(
    program_id: [u8; 32],
    accounts: Seq<AccountView>,
    first: TransferView,
    second: TransferView,
    lamports: u64,
)
    requires
        admissible(program_id, accounts, first),
        accounts[STORAGE_HANDLE as int].data.len() == 0,
        second.recipient == first.recipient,
        record_fits(first, STATE_ACCOUNT_SPACE as nat),
        record_fits(second, STATE_ACCOUNT_SPACE as nat),
    ensures
        ({
            let asked = receive_spec(program_id, accounts, first);
            let request = AllocationRequest {
                payer: accounts[PAYER_HANDLE as int].key,
                storage: accounts[STORAGE_HANDLE as int].key,
                owner: program_id,
                space: STATE_ACCOUNT_SPACE,
            };
            let granted = accounts.update(
                STORAGE_HANDLE as int,
                allocated(accounts[STORAGE_HANDLE as int], request, lamports),
            );
            let once = receive_spec(program_id, granted, first);
            let twice = receive_spec(program_id, once.accounts, second);
            &&& asked.outcome == Ok::<Outcome, TransferError>(Outcome::AllocationRequired(request))
            &&& asked.accounts == accounts
            &&& once.outcome == Ok::<Outcome, TransferError>(Outcome::Committed)
            &&& twice.outcome == Ok::<Outcome, TransferError>(Outcome::Committed)
            &&& load_spec(twice.accounts[STORAGE_HANDLE as int].data) == Ok::<
                TransferView,
                TransferError,
            >(second)
        }),
{
    let space = STATE_ACCOUNT_SPACE as nat;
    lemma_zeroed_storage_is_blank(space);
    lemma_load_stored(first, space);
    lemma_load_stored(second, space);
}

/// The latest transfer wins. Of two transfers to one recipient that are committed one
/// after the other, the record holds the second, and the handles are what the second
/// alone would have left: nothing of the first remains.
pub proof fn lemma_latest_transfer_wins(
    program_id: [u8; 32],
    accounts: Seq<AccountView>,
    first: TransferView,
    second: TransferView,
)
    requires
        second.recipient == first.recipient,
        receive_spec(program_id, accounts, first).outcome == Ok::<Outcome, TransferError>(
            Outcome::Committed,
        ),
        record_fits(second, accounts[STORAGE_HANDLE as int].data.len()),
    ensures
        ({
            let after_first = receive_spec(program_id, accounts, first).accounts;
            let after_second = receive_spec(program_id, after_first, second);
            &&& after_second.outcome == Ok::<Outcome, TransferError>(Outcome::Committed)
            &&& after_second.accounts == receive_spec(program_id, accounts, second).accounts
            &&& load_spec(after_second.accounts[STORAGE_HANDLE as int].data) == Ok::<
                TransferView,
                TransferError,
            >(second)
        }),
{
    let len = accounts[STORAGE_HANDLE as int].data.len();
    lemma_load_stored(first, len);
    lemma_load_stored(second, len);
    let after_first = receive_spec(program_id, accounts, first).accounts;
    let after_second = receive_spec(program_id, after_first, second);
    assert(after_second.accounts =~= receive_spec(program_id, accounts, second).accounts);
}

} // verus!
