//! Deterministic addresses: where a recipient's record and a message's metadata live.
//!
//! An address is derived from a namespace tag, a 32-byte key and the program's identity.
//! The derivation is the chain's own; this module names its result and fixes what is
//! handed to it.
use solana_program::pubkey::Pubkey;
use vstd::prelude::*;
use vstd::string::StringSliceAdditionalSpecFns;

verus! {

/// The address that the host chain derives for a program from a list of seeds, or `None`
/// where it derives none. It depends on the seeds and the program's identity alone.
pub uninterp spec fn program_derived_address(seeds: Seq<Seq<u8>>, program_id: Seq<u8>) -> Option<
    Seq<u8>,
>;

/// An optional address as bytes.
pub open spec fn address_view(address: Option<[u8; 32]>) -> Option<Seq<u8>> {
    match address {
        Some(bytes) => Some(bytes@),
        None => None,
    }
}

/// `Pubkey::try_find_program_address` on the two seeds `tag` and `key`.
///
/// Trusted: the call searches the bump seeds from 255 downwards for the first one whose
/// hash with the seeds and the program's identity is no curve point, and returns that
/// hash, or `None` where no bump seed gives one or a seed is too long. Nothing but the
/// arguments enters the search, so the result is the named one. The bump seed that comes
/// with the address is dropped.
#[verifier::external_body]
fn try_find_program_address(tag: &[u8], key: &[u8; 32], program_id: &[u8; 32]) -> (address: Option<
    [u8; 32],
>)
    ensures
        address_view(address) == program_derived_address(seq![tag@, key@], program_id@),
{
    Pubkey::try_find_program_address(&[tag, key.as_slice()], &Pubkey::new_from_array(*program_id))
        .map(|found| found.0.to_bytes())
}

/// The namespace tag of transfer records.
pub open spec fn transfer_tag() -> Seq<u8> {
    "file_transfer".spec_bytes()
}

/// The namespace tag of file metadata.
pub open spec fn metadata_tag() -> Seq<u8> {
    "file_metadata".spec_bytes()
}

/// Where the record of `recipient` lives under the program `program_id`.
pub open spec fn state_account_address(program_id: Seq<u8>, recipient: Seq<u8>) -> Option<
    Seq<u8>,
> {
    program_derived_address(seq![transfer_tag(), recipient], program_id)
}

/// Where the metadata of the message `id` lives under the program `program_id`.
pub open spec fn metadata_account_address(program_id: Seq<u8>, id: Seq<u8>) -> Option<Seq<u8>> {
    program_derived_address(seq![metadata_tag(), id], program_id)
}

/// Derives the address of the record of `recipient`. The same arguments always give the
/// same address; `None` where the chain derives no address for them.
pub fn get_state_account_address(program_id: &[u8; 32], recipient: &[u8; 32]) -> (address: Option<
    [u8; 32],
>)
    ensures
        address_view(address) == state_account_address(program_id@, recipient@),
{
    try_find_program_address("file_transfer".as_bytes(), recipient, program_id)
}

/// Derives the address of the metadata of the message `id`. The same arguments always
/// give the same address; `None` where the chain derives no address for them.
pub fn get_metadata_account_address(program_id: &[u8; 32], id: &[u8; 32]) -> (address: Option<
    [u8; 32],
>)
    ensures
        address_view(address) == metadata_account_address(program_id@, id@),
{
    try_find_program_address("file_metadata".as_bytes(), id, program_id)
}

} // verus!
