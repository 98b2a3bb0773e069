//! The calls into other crates, with what is taken for granted of them.

use crate::cluster::Pubkey;
use crate::transaction::Transaction;
use base64::Engine;
use solana_sdk::instruction::CompiledInstruction as SdkInstruction;
use solana_sdk::message::{Message as SdkMessage, MessageHeader as SdkHeader};
use solana_sdk::transaction::Transaction as SdkTransaction;
use std::str::FromStr;
use vstd::prelude::*;

verus! {

/// How many slots in a row one leader has.
pub open spec fn consecutive_leader_slots() -> u64 {
    4
}

/// How far a node's QUIC port lies above its UDP port.
pub open spec fn quic_port_offset() -> u16 {
    6
}

/// How long a slot lasts, in milliseconds.
pub open spec fn ms_per_slot() -> u64 {
    400
}

/// The constant `solana_sdk::clock::NUM_CONSECUTIVE_LEADER_SLOTS`, which is 4.
#[verifier::external_body]
pub(crate) fn num_consecutive_leader_slots() -> (slots: u64)
    ensures
        slots == consecutive_leader_slots(),
{
    solana_sdk::clock::NUM_CONSECUTIVE_LEADER_SLOTS
}

/// The constant `solana_sdk::quic::QUIC_PORT_OFFSET`, which is 6.
#[verifier::external_body]
pub(crate) fn quic_offset() -> (offset: u16)
    ensures
        offset == quic_port_offset(),
{
    solana_sdk::quic::QUIC_PORT_OFFSET
}

/// The constant `solana_sdk::clock::DEFAULT_MS_PER_SLOT`, which is 400.
#[verifier::external_body]
pub(crate) fn default_ms_per_slot() -> (ms: u64)
    ensures
        ms == ms_per_slot(),
{
    solana_sdk::clock::DEFAULT_MS_PER_SLOT
}

/// The address that a text spells, as `solana_sdk::pubkey::Pubkey::from_str` reads it.
pub uninterp spec fn address_of(text: Seq<char>) -> Option<Seq<u8>>;

/// Reads an address with `solana_sdk::pubkey::Pubkey::from_str`. What it reads
/// goes by the text alone; a text that it rejects spells no address.
#[verifier::external_body]
pub(crate) fn parse_pubkey(text: &str) -> (key: Option<Pubkey>)
    ensures
        key matches Some(k) ==> address_of(text@) == Some(k.bytes@),
        key is None ==> address_of(text@) is None,
{
    solana_sdk::pubkey::Pubkey::from_str(text).ok().map(|key| Pubkey { bytes: key.to_bytes() })
}

/// The bytes that a base64 text stands for, as the `STANDARD` engine of `base64` reads it.
pub uninterp spec fn base64_decoded(text: Seq<u8>) -> Option<Seq<u8>>;

/// Decodes with `base64::engine::general_purpose::STANDARD.decode`. The outcome
/// goes by the text alone; a text that it rejects stands for no bytes.
#[verifier::external_body]
pub(crate) fn decode_base64(text: &Vec<u8>) -> (bytes: Option<Vec<u8>>)
    ensures
        bytes matches Some(b) ==> base64_decoded(text@) == Some(b@),
        bytes is None ==> base64_decoded(text@) is None,
{
    base64::engine::general_purpose::STANDARD.decode(text).ok()
}

/// The bytes of a transaction on the wire, as `bincode::serialize` writes a
/// `solana_sdk::transaction::Transaction` with these parts: the signatures, the
/// three counts of the header, the account keys, the recent block hash, and of
/// each instruction the index of its program, its accounts and its data.
pub uninterp spec fn wire_bytes(
    signatures: Seq<Seq<u8>>,
    header: (u8, u8, u8),
    account_keys: Seq<Seq<u8>>,
    recent_blockhash: Seq<u8>,
    instructions: Seq<(u8, Seq<u8>, Seq<u8>)>,
) -> Seq<u8>;

/// Writes a transaction with `bincode::serialize`. What it writes goes by the
/// parts of the transaction alone, and it fails exactly where a list of the
/// transaction is too long for the format.
#[verifier::external_body]
pub(crate) fn bincode_serialize(tx: &Transaction) -> (bytes: Option<Vec<u8>>)
    ensures
        bytes is Some <==> tx.fits(),
        bytes matches Some(b) ==> b@ == wire_bytes(
            tx.signature_bytes(),
            tx.message.header.counts(),
            tx.message.key_bytes(),
            tx.message.recent_blockhash@,
            tx.message.instruction_parts(),
        ),
{
    let header = SdkHeader {
        num_required_signatures: tx.message.header.num_required_signatures,
        num_readonly_signed_accounts: tx.message.header.num_readonly_signed_accounts,
        num_readonly_unsigned_accounts: tx.message.header.num_readonly_unsigned_accounts,
    };
    let account_keys = tx.message.account_keys.iter().map(|key| key.bytes.into()).collect();
    let recent_blockhash = tx.message.recent_blockhash.into();
    let instructions = tx.message.instructions.iter().map(|part| SdkInstruction {
        program_id_index: part.program_id_index,
        accounts: part.accounts.clone(),
        data: part.data.clone(),
    }).collect();
    let message = SdkMessage { header, account_keys, recent_blockhash, instructions };
    let signatures = tx.signatures.iter().map(|bytes| (*bytes).into()).collect();
    bincode::serialize(&SdkTransaction { signatures, message }).ok()
}

} // verus!
