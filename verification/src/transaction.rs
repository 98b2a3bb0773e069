use crate::cluster::Pubkey;
use crate::outside;
use vstd::prelude::*;

verus! {

/// How many of a message's accounts sign, and which are read-only.
#[derive(Clone, Copy, Debug)]
pub struct MessageHeader {
    pub num_required_signatures: u8,
    pub num_readonly_signed_accounts: u8,
    pub num_readonly_unsigned_accounts: u8,
}

/// A call of a program, with accounts given by their index.
#[derive(Debug)]
pub struct CompiledInstruction {
    pub program_id_index: u8,
    pub accounts: Vec<u8>,
    pub data: Vec<u8>,
}

/// What a transaction does.
#[derive(Debug)]
pub struct Message {
    pub header: MessageHeader,
    pub account_keys: Vec<Pubkey>,
    pub recent_blockhash: [u8; 32],
    pub instructions: Vec<CompiledInstruction>,
}

/// A message and its signatures.
#[derive(Debug)]
pub struct Transaction {
    pub signatures: Vec<[u8; 64]>,
    pub message: Message,
}

/// The longest list that the wire format can hold.
pub const MAX_WIRE_LIST: u64 = 0xffff;

impl Transaction {
    /// No list is too long for the wire format.
    pub open spec fn fits(&self) -> bool {
        &&& self.signatures@.len() <= MAX_WIRE_LIST
        &&& self.message.account_keys@.len() <= MAX_WIRE_LIST
        &&& self.message.instructions@.len() <= MAX_WIRE_LIST
        &&& forall|i: int|
            0 <= i < self.message.instructions@.len() ==> #[trigger] self.message.instructions@[i].fits()
    }

    pub open spec fn signature_bytes(&self) -> Seq<Seq<u8>> {
        self.signatures@.map_values(|signature: [u8; 64]| signature@)
    }

    /// The transaction on the wire.
    pub open spec fn on_the_wire(&self) -> Seq<u8> {
        outside::wire_bytes(
            self.signature_bytes(),
            self.message.header.counts(),
            self.message.key_bytes(),
            self.message.recent_blockhash@,
            self.message.instruction_parts(),
        )
    }

    /// The bytes to send.
    pub fn serialize(&self) -> (wire_transaction: Vec<u8>)
        requires
            self.fits(),
        ensures
            wire_transaction@ == self.on_the_wire(),
    {
        match outside::bincode_serialize(self) {
            Some(bytes) => bytes,
            None => {
                assert(false);
                Vec::new()
            },
        }
    }

    /// Tells whether no list is too long for the wire format.
    pub fn can_serialize(&self) -> (can: bool)
        ensures
            can == self.fits(),
    {
        if self.signatures.len() as u64 > MAX_WIRE_LIST || self.message.account_keys.len() as u64
            > MAX_WIRE_LIST || self.message.instructions.len() as u64 > MAX_WIRE_LIST {
            return false;
        }
        let mut next: usize = 0;
        while next < self.message.instructions.len()
            invariant
                next <= self.message.instructions@.len(),
                forall|i: int|
                    0 <= i < next ==> #[trigger] self.message.instructions@[i].fits(),
            decreases self.message.instructions@.len() - next,
        {
            let part = &self.message.instructions[next];
            if part.accounts.len() as u64 > MAX_WIRE_LIST || part.data.len() as u64
                > MAX_WIRE_LIST {
                assert(!self.message.instructions@[next as int].fits());
                return false;
            }
            next = next + 1;
        }
        true
    }
}

impl MessageHeader {
    pub open spec fn counts(&self) -> (u8, u8, u8) {
        (
            self.num_required_signatures,
            self.num_readonly_signed_accounts,
            self.num_readonly_unsigned_accounts,
        )
    }
}

impl Message {
    pub open spec fn key_bytes(&self) -> Seq<Seq<u8>> {
        self.account_keys@.map_values(|key: Pubkey| key.bytes@)
    }

    /// Of each instruction the index of its program, its accounts and its data.
    pub open spec fn instruction_parts(&self) -> Seq<(u8, Seq<u8>, Seq<u8>)> {
        self.instructions@.map_values(
            |part: CompiledInstruction| (part.program_id_index, part.accounts@, part.data@),
        )
    }
}

impl CompiledInstruction {
    pub open spec fn fits(&self) -> bool {
        self.accounts@.len() <= MAX_WIRE_LIST && self.data@.len() <= MAX_WIRE_LIST
    }
}

/// A transaction can be put on the wire exactly where none of its lists is longer
/// than 65535.
pub proof fn law_only_long_lists_do_not_fit(transaction: Transaction)
    ensures
        transaction.fits() <==> {
            &&& transaction.signatures@.len() <= 65535
            &&& transaction.message.account_keys@.len() <= 65535
            &&& transaction.message.instructions@.len() <= 65535
            &&& forall|i: int|
                0 <= i < transaction.message.instructions@.len() ==> (
                #[trigger] transaction.message.instructions@[i]).accounts@.len() <= 65535
                    && transaction.message.instructions@[i].data@.len() <= 65535
        },
{
    assert forall|i: int|
        0 <= i < transaction.message.instructions@.len() implies (
    #[trigger] transaction.message.instructions@[i]).fits() == (
    transaction.message.instructions@[i].accounts@.len() <= 65535
        && transaction.message.instructions@[i].data@.len() <= 65535) by {}
}

/// What goes on the wire is every part of the transaction, in order and unchanged.
pub proof fn law_every_part_goes_on_the_wire(transaction: Transaction)
    ensures
        exists|
            signatures: Seq<Seq<u8>>,
            keys: Seq<Seq<u8>>,
            parts: Seq<(u8, Seq<u8>, Seq<u8>)>,
        |
            {
                &&& transaction.on_the_wire() == #[trigger] outside::wire_bytes(
                    signatures,
                    (
                        transaction.message.header.num_required_signatures,
                        transaction.message.header.num_readonly_signed_accounts,
                        transaction.message.header.num_readonly_unsigned_accounts,
                    ),
                    keys,
                    transaction.message.recent_blockhash@,
                    parts,
                )
                &&& signatures.len() == transaction.signatures@.len()
                &&& forall|i: int|
                    0 <= i < signatures.len() ==> #[trigger] signatures[i]
                        == transaction.signatures@[i]@
                &&& keys.len() == transaction.message.account_keys@.len()
                &&& forall|i: int|
                    0 <= i < keys.len() ==> #[trigger] keys[i]
                        == transaction.message.account_keys@[i].bytes@
                &&& parts.len() == transaction.message.instructions@.len()
                &&& forall|i: int|
                    0 <= i < parts.len() ==> #[trigger] parts[i] == (
                        transaction.message.instructions@[i].program_id_index,
                        transaction.message.instructions@[i].accounts@,
                        transaction.message.instructions@[i].data@,
                    )
            },
{
    let signatures = transaction.signature_bytes();
    let keys = transaction.message.key_bytes();
    let parts = transaction.message.instruction_parts();
    assert(transaction.on_the_wire() == outside::wire_bytes(
        signatures,
        transaction.message.header.counts(),
        keys,
        transaction.message.recent_blockhash@,
        parts,
    ));
}

} // verus!
