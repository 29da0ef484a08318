use solana_program::pubkey::Pubkey;
use sui_solana_file_transfer::account::{
    complete_allocation, ensure_exists, load, persist, AccountHandle, AllocationRequest,
    AllocatorReply, Provision,
};
use sui_solana_file_transfer::address::get_state_account_address;
use sui_solana_file_transfer::error::TransferError;
use sui_solana_file_transfer::instruction::FileTransferInstruction;
use sui_solana_file_transfer::payload::parse_vaa;
use sui_solana_file_transfer::processor::{
    process_instruction, receive_file_transfer, receive_vaa, settle_transfer, Outcome,
};
use sui_solana_file_transfer::state::{FileTransferState, STATE_ACCOUNT_SPACE};

fn handle(key: [u8; 32], data: Vec<u8>) -> AccountHandle {
    AccountHandle { key, owner: [0; 32], lamports: 0, data }
}

fn accounts_for(program_id: &[u8; 32], recipient: [u8; 32], storage: Vec<u8>) -> Vec<AccountHandle> {
    let state_key = get_state_account_address(program_id, &recipient).unwrap();
    vec![
        handle([11; 32], Vec::new()),
        handle([12; 32], Vec::new()),
        handle(recipient, Vec::new()),
        AccountHandle { key: state_key, owner: *program_id, lamports: 0, data: storage },
        handle([0; 32], Vec::new()),
    ]
}

fn instruction_bytes(url: &str, recipient: [u8; 32], sender: [u8; 32], created_at: u64) -> Vec<u8> {
    let mut out = Vec::new();
    FileTransferInstruction::ReceiveFileTransfer {
        arweave_url: url.to_string(),
        recipient,
        sender,
        created_at,
    }
    .serialize(&mut out)
    .unwrap();
    out
}

fn raw_payload(url: &[u8], recipient: [u8; 32], sender: [u8; 32], created_at: u64) -> Vec<u8> {
    let mut out = vec![url.len() as u8];
    out.extend_from_slice(url);
    out.extend_from_slice(&recipient);
    out.extend_from_slice(&sender);
    out.extend_from_slice(&created_at.to_le_bytes());
    out
}

#[test]
fn test_receive_file_transfer() {
    let program_id = Pubkey::new_unique();
    let recipient_key = Pubkey::new_unique();

    let (state_pubkey, _) =
        Pubkey::find_program_address(&[b"file_transfer", recipient_key.as_ref()], &program_id);

    let data = vec![0; STATE_ACCOUNT_SPACE];
    let owner = program_id;

    let state_account = AccountHandle {
        key: state_pubkey.to_bytes(),
        owner: owner.to_bytes(),
        lamports: 0,
        data,
    };

    let mut instruction_data = Vec::new();
    FileTransferInstruction::ReceiveFileTransfer {
        arweave_url: "https://arweave.net/abcdef".to_string(),
        recipient: recipient_key.to_bytes(),
        sender: [1; 32],
        created_at: 1234567890,
    }
    .serialize(&mut instruction_data)
    .unwrap();

    let mut accounts = vec![
        AccountHandle {
            key: Pubkey::new_unique().to_bytes(),
            owner: Pubkey::new_unique().to_bytes(),
            lamports: 0,
            data: Vec::new(),
        },
        AccountHandle {
            key: Pubkey::new_unique().to_bytes(),
            owner: Pubkey::new_unique().to_bytes(),
            lamports: 0,
            data: Vec::new(),
        },
        AccountHandle {
            key: recipient_key.to_bytes(),
            owner: Pubkey::new_unique().to_bytes(),
            lamports: 0,
            data: Vec::new(),
        },
        state_account,
        AccountHandle {
            key: solana_program::system_program::id().to_bytes(),
            owner: Pubkey::new_unique().to_bytes(),
            lamports: 0,
            data: Vec::new(),
        },
    ];

    let result = process_instruction(&program_id.to_bytes(), &mut accounts, &instruction_data);
    assert!(result.is_ok());

    let state = FileTransferState::deserialize(&accounts[3].data).unwrap();
    assert_eq!(state.arweave_url, "https://arweave.net/abcdef");
    assert_eq!(state.recipient, recipient_key.to_bytes());
    assert_eq!(state.sender, [1; 32]);
    assert_eq!(state.created_at, 1234567890);
}

#[test]
fn derived_address_is_the_chains_own() {
    let program_id = Pubkey::new_unique();
    let recipient = Pubkey::new_unique();
    let (expected, _) =
        Pubkey::find_program_address(&[b"file_transfer", recipient.as_ref()], &program_id);
    let derived = get_state_account_address(&program_id.to_bytes(), &recipient.to_bytes());
    assert_eq!(derived, Some(expected.to_bytes()));
    assert_ne!(derived, Some(recipient.to_bytes()));
    assert_ne!(derived, Some(program_id.to_bytes()));
}

#[test]
fn derived_address_is_stable_and_tells_recipients_apart() {
    let program_id = [9u8; 32];
    let first = get_state_account_address(&program_id, &[1; 32]);
    let again = get_state_account_address(&program_id, &[1; 32]);
    let other = get_state_account_address(&program_id, &[2; 32]);
    assert!(first.is_some());
    assert_eq!(first, again);
    assert_ne!(first, other);
}

#[test]
fn committed_call_returns_committed() {
    let program_id = [7u8; 32];
    let recipient = [3u8; 32];
    let mut accounts = accounts_for(&program_id, recipient, vec![0; STATE_ACCOUNT_SPACE]);
    let data = instruction_bytes("ar://x", recipient, [4; 32], 17);
    assert_eq!(process_instruction(&program_id, &mut accounts, &data), Ok(Outcome::Committed));
    assert_eq!(accounts[3].data.len(), STATE_ACCOUNT_SPACE);
}

#[test]
fn concrete_scenario_raw_payload_is_stored_at_derived_address() {
    let program_id = [42u8; 32];
    let r = [0xAA; 32];
    let s = [0xBB; 32];
    let payload = raw_payload(b"http:", r, s, 1000);
    assert_eq!(payload[0], 0x05);
    assert_eq!(payload.len(), 78);
    assert_eq!(&payload[70..], &[0xE8, 0x03, 0, 0, 0, 0, 0, 0]);

    let decoded = parse_vaa(&payload).unwrap();
    assert_eq!(decoded, ("http:".to_string(), r, s, 1000));

    let mut accounts = accounts_for(&program_id, r, vec![0; STATE_ACCOUNT_SPACE]);
    assert_eq!(accounts[3].key, get_state_account_address(&program_id, &r).unwrap());
    assert_eq!(receive_vaa(&program_id, &mut accounts, &payload), Ok(Outcome::Committed));
    let record = load(&accounts[3]).unwrap();
    assert_eq!(
        record,
        FileTransferState {
            arweave_url: "http:".to_string(),
            recipient: r,
            sender: s,
            created_at: 1000
        }
    );
}

#[test]
fn stored_bytes_are_the_record_then_zeros() {
    let program_id = [42u8; 32];
    let r = [0xAA; 32];
    let s = [0xBB; 32];
    let mut accounts = accounts_for(&program_id, r, vec![0xFF; STATE_ACCOUNT_SPACE]);
    // Storage full of 0xFF does not decode: the length prefix runs past the end.
    assert_eq!(
        receive_file_transfer(&program_id, &mut accounts, "http:".to_string(), r, s, 1000),
        Err(TransferError::CorruptRecord)
    );
    assert_eq!(accounts[3].data, vec![0xFF; STATE_ACCOUNT_SPACE]);

    accounts[3].data = vec![0; STATE_ACCOUNT_SPACE];
    assert_eq!(
        receive_file_transfer(&program_id, &mut accounts, "http:".to_string(), r, s, 1000),
        Ok(Outcome::Committed)
    );
    let mut expected = vec![5, 0, 0, 0, b'h', b't', b't', b'p', b':'];
    expected.extend_from_slice(&r);
    expected.extend_from_slice(&s);
    expected.extend_from_slice(&[0xE8, 0x03, 0, 0, 0, 0, 0, 0]);
    expected.resize(STATE_ACCOUNT_SPACE, 0);
    assert_eq!(accounts[3].data, expected);
}

#[test]
fn creation_happens_once() {
    let program_id = [5u8; 32];
    let recipient = [6u8; 32];
    let mut accounts = accounts_for(&program_id, recipient, Vec::new());
    let data = instruction_bytes("https://arweave.net/one", recipient, [1; 32], 10);

    let request = match process_instruction(&program_id, &mut accounts, &data) {
        Ok(Outcome::AllocationRequired(request)) => request,
        other => panic!("expected a request to the allocator, got {:?}", other),
    };
    assert_eq!(
        request,
        AllocationRequest {
            payer: [12; 32],
            storage: accounts[3].key,
            owner: program_id,
            space: STATE_ACCOUNT_SPACE
        }
    );
    assert!(accounts[3].data.is_empty());

    assert_eq!(
        complete_allocation(&mut accounts[3], &request, AllocatorReply::Granted { lamports: 99 }),
        Ok(())
    );
    assert_eq!(accounts[3].data, vec![0; STATE_ACCOUNT_SPACE]);
    assert_eq!(accounts[3].owner, program_id);
    assert_eq!(accounts[3].lamports, 99);

    assert_eq!(process_instruction(&program_id, &mut accounts, &data), Ok(Outcome::Committed));
    assert_eq!(load(&accounts[3]).unwrap().created_at, 10);

    let second = instruction_bytes("https://arweave.net/two", recipient, [2; 32], 11);
    assert_eq!(process_instruction(&program_id, &mut accounts, &second), Ok(Outcome::Committed));
    let record = load(&accounts[3]).unwrap();
    assert_eq!(record.arweave_url, "https://arweave.net/two");
    assert_eq!(record.sender, [2; 32]);
    assert_eq!(record.created_at, 11);
    assert_eq!(accounts[3].data.len(), STATE_ACCOUNT_SPACE);
}

#[test]
fn wrong_recipient_changes_nothing() {
    let program_id = [5u8; 32];
    let recipient = [6u8; 32];
    let mut accounts = accounts_for(&program_id, recipient, vec![0; STATE_ACCOUNT_SPACE]);
    let first = instruction_bytes("https://arweave.net/kept", recipient, [1; 32], 10);
    assert_eq!(process_instruction(&program_id, &mut accounts, &first), Ok(Outcome::Committed));
    let before = accounts.clone();

    let forged = instruction_bytes("https://arweave.net/forged", [7; 32], [1; 32], 11);
    assert_eq!(
        process_instruction(&program_id, &mut accounts, &forged),
        Err(TransferError::RecipientMismatch)
    );
    assert_eq!(accounts, before);
}

#[test]
fn later_transfer_leaves_no_trace_of_the_earlier() {
    let program_id = [5u8; 32];
    let recipient = [6u8; 32];
    let long = "https://arweave.net/a-much-longer-locator-than-the-second-one";
    let mut twice = accounts_for(&program_id, recipient, vec![0; STATE_ACCOUNT_SPACE]);
    let mut once = twice.clone();

    assert_eq!(
        receive_file_transfer(&program_id, &mut twice, long.to_string(), recipient, [1; 32], 100),
        Ok(Outcome::Committed)
    );
    assert_eq!(
        receive_file_transfer(&program_id, &mut twice, "ar://b".to_string(), recipient, [2; 32], 200),
        Ok(Outcome::Committed)
    );
    assert_eq!(
        receive_file_transfer(&program_id, &mut once, "ar://b".to_string(), recipient, [2; 32], 200),
        Ok(Outcome::Committed)
    );
    assert_eq!(twice, once);
    assert_eq!(
        load(&twice[3]).unwrap(),
        FileTransferState {
            arweave_url: "ar://b".to_string(),
            recipient,
            sender: [2; 32],
            created_at: 200
        }
    );
}

#[test]
fn too_few_handles_are_refused() {
    let program_id = [5u8; 32];
    let recipient = [6u8; 32];
    let data = instruction_bytes("ar://x", recipient, [1; 32], 1);

    let mut three = accounts_for(&program_id, recipient, vec![0; STATE_ACCOUNT_SPACE]);
    three.truncate(3);
    assert_eq!(
        process_instruction(&program_id, &mut three, &data),
        Err(TransferError::NotEnoughAccountKeys)
    );

    let mut none: Vec<AccountHandle> = Vec::new();
    assert_eq!(
        process_instruction(&program_id, &mut none, &data),
        Err(TransferError::NotEnoughAccountKeys)
    );

    // Four handles do where storage is there, but not where it has to be reserved.
    let mut four = accounts_for(&program_id, recipient, vec![0; STATE_ACCOUNT_SPACE]);
    four.truncate(4);
    assert_eq!(process_instruction(&program_id, &mut four, &data), Ok(Outcome::Committed));
    let mut four_empty = accounts_for(&program_id, recipient, Vec::new());
    four_empty.truncate(4);
    assert_eq!(
        process_instruction(&program_id, &mut four_empty, &data),
        Err(TransferError::NotEnoughAccountKeys)
    );
}

#[test]
fn handle_count_is_checked_before_the_recipient() {
    let program_id = [5u8; 32];
    let mut three = accounts_for(&program_id, [6; 32], vec![0; STATE_ACCOUNT_SPACE]);
    three.truncate(3);
    let forged = instruction_bytes("ar://x", [7; 32], [1; 32], 1);
    assert_eq!(
        process_instruction(&program_id, &mut three, &forged),
        Err(TransferError::NotEnoughAccountKeys)
    );
}

#[test]
fn storage_handle_elsewhere_is_an_allocation_failure() {
    let program_id = [5u8; 32];
    let recipient = [6u8; 32];
    let data = instruction_bytes("ar://x", recipient, [1; 32], 1);

    let mut accounts = accounts_for(&program_id, recipient, vec![0; STATE_ACCOUNT_SPACE]);
    accounts[3].key = [8; 32];
    let before = accounts.clone();
    assert_eq!(
        process_instruction(&program_id, &mut accounts, &data),
        Err(TransferError::AllocationFailed)
    );
    assert_eq!(accounts, before);

    // Handles out of order: the storage handle stands where the recipient should.
    let mut swapped = accounts_for(&program_id, recipient, vec![0; STATE_ACCOUNT_SPACE]);
    swapped.swap(2, 3);
    assert_eq!(
        process_instruction(&program_id, &mut swapped, &data),
        Err(TransferError::RecipientMismatch)
    );
}

#[test]
fn settle_with_a_given_address() {
    let program_id = [5u8; 32];
    let recipient = [6u8; 32];
    let mut accounts = vec![
        handle([11; 32], Vec::new()),
        handle([12; 32], Vec::new()),
        handle(recipient, Vec::new()),
        handle([13; 32], vec![0; 100]),
    ];
    assert_eq!(
        settle_transfer(&program_id, &mut accounts, &None, "a".to_string(), recipient, [1; 32], 1),
        Err(TransferError::AllocationFailed)
    );
    assert_eq!(
        settle_transfer(
            &program_id,
            &mut accounts,
            &Some([14; 32]),
            "a".to_string(),
            recipient,
            [1; 32],
            1
        ),
        Err(TransferError::AllocationFailed)
    );
    assert_eq!(
        settle_transfer(
            &program_id,
            &mut accounts,
            &Some([13; 32]),
            "a".to_string(),
            recipient,
            [1; 32],
            1
        ),
        Ok(Outcome::Committed)
    );
    assert_eq!(accounts[3].data.len(), 100);
    assert_eq!(&accounts[3].data[..5], &[1, 0, 0, 0, b'a']);
    assert_eq!(&accounts[3].data[77..], &[0u8; 23][..]);
}

#[test]
fn record_that_does_not_fit_is_refused_whole() {
    let program_id = [5u8; 32];
    let recipient = [6u8; 32];
    let mut accounts = accounts_for(&program_id, recipient, vec![0; STATE_ACCOUNT_SPACE]);
    let fits = "x".repeat(255);
    let too_long = "x".repeat(256);
    assert_eq!(
        receive_file_transfer(&program_id, &mut accounts, fits.clone(), recipient, [1; 32], 1),
        Ok(Outcome::Committed)
    );
    let before = accounts.clone();
    assert_eq!(
        receive_file_transfer(&program_id, &mut accounts, too_long, recipient, [1; 32], 2),
        Err(TransferError::TooLarge)
    );
    assert_eq!(accounts, before);
    assert_eq!(load(&accounts[3]).unwrap().arweave_url, fits);
}

#[test]
fn malformed_instruction_is_refused_before_anything_else() {
    let program_id = [5u8; 32];
    let mut accounts: Vec<AccountHandle> = Vec::new();
    assert_eq!(
        process_instruction(&program_id, &mut accounts, &[]),
        Err(TransferError::MalformedInstruction)
    );
    assert_eq!(
        process_instruction(&program_id, &mut accounts, &[1, 0, 0, 0, 0]),
        Err(TransferError::MalformedInstruction)
    );
}

#[test]
fn raw_payload_errors_reach_the_caller() {
    let program_id = [5u8; 32];
    let recipient = [6u8; 32];
    let mut accounts = accounts_for(&program_id, recipient, vec![0; STATE_ACCOUNT_SPACE]);
    let before = accounts.clone();
    let mut short = raw_payload(b"http:", recipient, [1; 32], 1);
    short.pop();
    assert_eq!(
        receive_vaa(&program_id, &mut accounts, &short),
        Err(TransferError::InsufficientPayloadLength)
    );
    let bad = raw_payload(&[0xFF, 0xFE], recipient, [1; 32], 1);
    assert_eq!(receive_vaa(&program_id, &mut accounts, &bad), Err(TransferError::InvalidEncoding));
    assert_eq!(accounts, before);
}

#[test]
fn ensure_exists_decides() {
    let at = handle([1; 32], Vec::new());
    assert_eq!(ensure_exists(&at, &Some([1; 32]), 64), Ok(Provision::Allocate { space: 64 }));
    assert_eq!(ensure_exists(&at, &Some([2; 32]), 64), Err(TransferError::AllocationFailed));
    assert_eq!(ensure_exists(&at, &None, 64), Err(TransferError::AllocationFailed));
    let full = handle([1; 32], vec![0; 8]);
    assert_eq!(ensure_exists(&full, &Some([1; 32]), 64), Ok(Provision::Ready));
    assert_eq!(ensure_exists(&full, &Some([2; 32]), 64), Err(TransferError::AllocationFailed));
}

#[test]
fn refused_allocation_fails_and_changes_nothing() {
    let mut storage = handle([1; 32], Vec::new());
    let request =
        AllocationRequest { payer: [2; 32], storage: [1; 32], owner: [3; 32], space: 80 };
    assert_eq!(
        complete_allocation(&mut storage, &request, AllocatorReply::Refused),
        Err(TransferError::AllocationFailed)
    );
    assert_eq!(storage, handle([1; 32], Vec::new()));

    let mut elsewhere = handle([4; 32], Vec::new());
    assert_eq!(
        complete_allocation(&mut elsewhere, &request, AllocatorReply::Granted { lamports: 1 }),
        Err(TransferError::AllocationFailed)
    );
    assert_eq!(elsewhere, handle([4; 32], Vec::new()));

    assert_eq!(
        complete_allocation(&mut storage, &request, AllocatorReply::Granted { lamports: 5 }),
        Ok(())
    );
    assert_eq!(
        storage,
        AccountHandle { key: [1; 32], owner: [3; 32], lamports: 5, data: vec![0; 80] }
    );

    // Storage that is there is never zeroed, whatever the allocator is said to have said.
    let mut in_use = handle([1; 32], vec![7; 80]);
    assert_eq!(
        complete_allocation(&mut in_use, &request, AllocatorReply::Granted { lamports: 5 }),
        Err(TransferError::AllocationFailed)
    );
    assert_eq!(in_use, handle([1; 32], vec![7; 80]));
}

#[test]
fn fresh_storage_loads_as_the_blank_record() {
    let storage = handle([1; 32], vec![0; STATE_ACCOUNT_SPACE]);
    assert_eq!(
        load(&storage),
        Ok(FileTransferState {
            arweave_url: String::new(),
            recipient: [0; 32],
            sender: [0; 32],
            created_at: 0
        })
    );
    assert_eq!(load(&handle([1; 32], vec![0; 76])).map(|r| r.created_at), Ok(0));
    assert_eq!(load(&handle([1; 32], vec![0; 75])), Err(TransferError::CorruptRecord));
    assert_eq!(load(&handle([1; 32], Vec::new())), Err(TransferError::CorruptRecord));
}

#[test]
fn persist_then_load() {
    let record = FileTransferState {
        arweave_url: "https://arweave.net/é".to_string(),
        recipient: [1; 32],
        sender: [2; 32],
        created_at: u64::MAX,
    };
    let mut storage = handle([9; 32], vec![7; 120]);
    assert_eq!(persist(&mut storage, &record), Ok(()));
    assert_eq!(storage.data.len(), 120);
    assert_eq!(load(&storage), Ok(record.clone()));
    let used = 76 + "https://arweave.net/é".len();
    assert!(storage.data[used..].iter().all(|b| *b == 0));

    let mut exact = handle([9; 32], vec![7; used]);
    assert_eq!(persist(&mut exact, &record), Ok(()));
    assert_eq!(load(&exact), Ok(record.clone()));

    let mut small = handle([9; 32], vec![7; used - 1]);
    assert_eq!(persist(&mut small, &record), Err(TransferError::TooLarge));
    assert_eq!(small.data, vec![7; used - 1]);
}
