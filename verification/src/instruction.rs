//! The instruction envelope: what a caller sends, and how it lies in bytes.
//!
//! An instruction is one tag byte followed by the fields of its variant. The only
//! variant has tag 0 and carries a transfer, laid out as a record is.
use crate::error::TransferError;
use crate::state::{
    lemma_parse_transfer_of_bytes, lemma_transfer_bytes_of_parse, parse_transfer, read_transfer,
    write_transfer, TransferView,
};
use vstd::prelude::*;

verus! {

/// The tag byte of `ReceiveFileTransfer`.
pub const RECEIVE_FILE_TRANSFER_TAG: u8 = 0;

/// What a caller can ask of the program.
#[derive(Clone, Debug, PartialEq, Eq)]
pub enum FileTransferInstruction {
    /// Record a transfer for `recipient`.
    ReceiveFileTransfer {
        arweave_url: String,
        recipient: [u8; 32],
        sender: [u8; 32],
        created_at: u64,
    },
}

/// The model of an instruction.
pub enum InstructionView {
    ReceiveFileTransfer(TransferView),
}

impl InstructionView {
    /// The transfer that the instruction carries.
    pub open spec fn transfer(self) -> TransferView {
        self->ReceiveFileTransfer_0
    }

    /// Whether the instruction can be written: see `TransferView::encodable`.
    pub open spec fn encodable(self) -> bool {
        self.transfer().encodable()
    }

    /// The instruction on the wire.
    pub open spec fn bytes(self) -> Seq<u8> {
        seq![RECEIVE_FILE_TRANSFER_TAG] + self.transfer().bytes()
    }
}

impl View for FileTransferInstruction {
    type V = InstructionView;

    open spec fn view(&self) -> InstructionView {
        match self {
            FileTransferInstruction::ReceiveFileTransfer {
                arweave_url,
                recipient,
                sender,
                created_at,
            } => InstructionView::ReceiveFileTransfer(
                TransferView {
                    arweave_url: arweave_url@,
                    recipient: recipient@,
                    sender: sender@,
                    created_at: *created_at,
                },
            ),
        }
    }
}

/// The instruction that `bytes` are, if they are one: a known tag, the fields of its
/// variant, and nothing after them.
pub open spec fn parse_instruction(bytes: Seq<u8>) -> Option<InstructionView> {
    if bytes.len() == 0 || bytes[0] != RECEIVE_FILE_TRANSFER_TAG {
        None
    } else {
        match parse_transfer(bytes.skip(1)) {
            Ok((transfer, used)) => if used == bytes.len() - 1 {
                Some(InstructionView::ReceiveFileTransfer(transfer))
            } else {
                None
            },
            Err(_) => None,
        }
    }
}

/// Writing an instruction and reading the bytes back gives the same instruction.
pub proof fn lemma_instruction_round_trip(instruction: InstructionView)
    requires
        instruction.encodable(),
    ensures
        parse_instruction(instruction.bytes()) == Some(instruction),
{
    let transfer = instruction.transfer();
    lemma_parse_transfer_of_bytes(transfer, Seq::empty());
    assert(transfer.bytes() + Seq::<u8>::empty() =~= transfer.bytes());
    assert(instruction.bytes().skip(1) =~= transfer.bytes());
}

/// Bytes that read as an instruction are exactly the bytes that writing it gives: no
/// two byte strings stand for one instruction.
pub proof fn lemma_instruction_bytes_unique(bytes: Seq<u8>)
    requires
        parse_instruction(bytes) is Some,
    ensures
        parse_instruction(bytes)->Some_0.encodable(),
        parse_instruction(bytes)->Some_0.bytes() == bytes,
{
    let rest = bytes.skip(1);
    lemma_transfer_bytes_of_parse(rest);
    assert(rest.subrange(0, rest.len() as int) =~= rest);
    assert(seq![RECEIVE_FILE_TRANSFER_TAG] + rest =~= bytes);
}

impl FileTransferInstruction {
    /// Reads an instruction from `data`, all of it.
    pub fn try_from_slice(data: &[u8]) -> (r: Result<FileTransferInstruction, TransferError>)
        ensures
            match r {
                Ok(instruction) => parse_instruction(data@) == Some(instruction@),
                Err(e) => e == TransferError::MalformedInstruction && parse_instruction(data@)
                    is None,
            },
    {
        if data.len() == 0 || data[0] != RECEIVE_FILE_TRANSFER_TAG {
            return Err(TransferError::MalformedInstruction);
        }
        match read_transfer(data, 1) {
            Ok((state, next)) => {
                if next == data.len() {
                    Ok(
                        FileTransferInstruction::ReceiveFileTransfer {
                            arweave_url: state.arweave_url,
                            recipient: state.recipient,
                            sender: state.sender,
                            created_at: state.created_at,
                        },
                    )
                } else {
                    Err(TransferError::MalformedInstruction)
                }
            },
            Err(_) => Err(TransferError::MalformedInstruction),
        }
    }

    /// Appends the instruction's bytes to `out`. Fails, leaving `out` as it was, where
    /// the locator is too long for its length prefix.
    pub fn serialize(&self, out: &mut Vec<u8>) -> (r: Result<(), TransferError>)
        ensures
            match r {
                Ok(()) => self@.encodable() && final(out)@ == old(out)@ + self@.bytes(),
                Err(e) => e == TransferError::TooLarge && !self@.encodable() && final(out)@
                    == old(out)@,
            },
    {
        match self {
            FileTransferInstruction::ReceiveFileTransfer {
                arweave_url,
                recipient,
                sender,
                created_at,
            } => {
                let mut body: Vec<u8> = Vec::new();
                if !write_transfer(&mut body, arweave_url, recipient, sender, *created_at) {
                    return Err(TransferError::TooLarge);
                }
                out.push(RECEIVE_FILE_TRANSFER_TAG);
                crate::codec::write_bytes(out, body.as_slice());
                assert(final(out)@ =~= old(out)@ + self@.bytes());
                Ok(())
            },
        }
    }
}

} // verus!
