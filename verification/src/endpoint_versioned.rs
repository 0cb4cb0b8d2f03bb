//! Versioned transactions as the library holds them, and the checks that a
//! transaction fits in a packet and carries valid signatures.
use vstd::prelude::*;

use crate::endpoint::{Instruction, InstructionV, Pubkey, ToolboxEndpoint, ToolboxEndpointError};
use crate::endpoint_message::{CompiledInstructionV, CompiledMessageV, ToolboxCompiledMessage};
use crate::endpoint_rpc::Signature;
use crate::endpoint_transaction::{
    instructions_view,
    pubkeys_view,
    spec_decompile_message,
    spec_decompile_versioned,
    CompiledInstruction,
    MessageAddressTableLookup,
    MessageHeader,
    TRANSACTION_LENGTH_LIMIT,
};

verus! {

/// A legacy message: its header, its account keys, the recent blockhash and
/// its compiled instructions.
#[derive(Debug)]
pub struct ToolboxLegacyMessage {
    pub header: MessageHeader,
    pub account_keys: Vec<Pubkey>,
    pub recent_blockhash: [u8; 32],
    pub instructions: Vec<CompiledInstruction>,
}

/// The view of a legacy message.
pub struct LegacyMessageV {
    pub header: MessageHeader,
    pub account_keys: Seq<Seq<u8>>,
    pub recent_blockhash: Seq<u8>,
    pub instructions: Seq<CompiledInstructionV>,
}

impl View for ToolboxLegacyMessage {
    type V = LegacyMessageV;

    open spec fn view(&self) -> LegacyMessageV {
        LegacyMessageV {
            header: self.header,
            account_keys: pubkeys_view(self.account_keys@),
            recent_blockhash: self.recent_blockhash@,
            instructions: Seq::new(self.instructions@.len(), |i: int| self.instructions@[i]@),
        }
    }
}

/// A message in either of its versions.
#[derive(Debug)]
pub enum ToolboxVersionedMessage {
    Legacy(ToolboxLegacyMessage),
    V0(ToolboxCompiledMessage),
}

/// The view of a versioned message.
pub enum VersionedMessageV {
    Legacy(LegacyMessageV),
    V0(CompiledMessageV),
}

impl View for ToolboxVersionedMessage {
    type V = VersionedMessageV;

    open spec fn view(&self) -> VersionedMessageV {
        match self {
            ToolboxVersionedMessage::Legacy(m) => VersionedMessageV::Legacy(m@),
            ToolboxVersionedMessage::V0(m) => VersionedMessageV::V0(m@),
        }
    }
}

/// A transaction: its signatures and its message.
#[derive(Debug)]
pub struct ToolboxVersionedTransaction {
    pub signatures: Vec<Signature>,
    pub message: ToolboxVersionedMessage,
}

/// The view of a transaction.
pub struct VersionedTransactionV {
    pub signatures: Seq<Seq<u8>>,
    pub message: VersionedMessageV,
}

impl View for ToolboxVersionedTransaction {
    type V = VersionedTransactionV;

    open spec fn view(&self) -> VersionedTransactionV {
        VersionedTransactionV {
            signatures: Seq::new(self.signatures@.len(), |i: int| self.signatures@[i]@),
            message: self.message@,
        }
    }
}

/// Whether a list of `n` items can carry its length prefix (two bytes at
/// most, so at most 65535 items).
pub open spec fn fits_short_vec(n: nat) -> bool {
    n <= 65535
}

pub open spec fn instructions_fit(instructions: Seq<CompiledInstructionV>) -> bool {
    forall|i: int|
        0 <= i < instructions.len() ==> fits_short_vec(#[trigger] instructions[i].accounts.len())
            && fits_short_vec(instructions[i].data.len())
}

/// Whether every list of a message can carry its length prefix.
pub open spec fn message_fits(m: VersionedMessageV) -> bool {
    match m {
        VersionedMessageV::Legacy(l) => fits_short_vec(l.account_keys.len()) && fits_short_vec(
            l.instructions.len(),
        ) && instructions_fit(l.instructions),
        VersionedMessageV::V0(v) => fits_short_vec(v.account_keys.len()) && fits_short_vec(
            v.instructions.len(),
        ) && instructions_fit(v.instructions) && fits_short_vec(v.address_table_lookups.len())
            && forall|j: int|
            0 <= j < v.address_table_lookups.len() ==> fits_short_vec(
                #[trigger] v.address_table_lookups[j].writable_indexes.len(),
            ) && fits_short_vec(v.address_table_lookups[j].readonly_indexes.len()),
    }
}

/// Whether every list of a transaction can carry its length prefix.
pub open spec fn transaction_fits(tx: VersionedTransactionV) -> bool {
    fits_short_vec(tx.signatures.len()) && message_fits(tx.message)
}

/// The header of a message.
pub open spec fn message_header(m: VersionedMessageV) -> MessageHeader {
    match m {
        VersionedMessageV::Legacy(l) => l.header,
        VersionedMessageV::V0(v) => v.header,
    }
}

/// The static account keys of a message.
pub open spec fn message_static_keys(m: VersionedMessageV) -> Seq<Seq<u8>> {
    match m {
        VersionedMessageV::Legacy(l) => l.account_keys,
        VersionedMessageV::V0(v) => v.account_keys,
    }
}

/// The bytes that solana-sdk serializes a message to.
pub uninterp spec fn message_bincode(m: VersionedMessageV) -> Seq<u8>;

/// The bytes that bincode serializes a transaction to.
pub uninterp spec fn transaction_bincode(tx: VersionedTransactionV) -> Seq<u8>;

/// Whether a signature of some bytes verifies under a public key (ed25519,
/// strict).
pub uninterp spec fn ed25519_verifies(signature: Seq<u8>, pubkey: Seq<u8>, message: Seq<u8>) -> bool;

/// The verification result of each signature against the static key at its
/// position, as far as both lists go.
pub open spec fn signature_results(tx: VersionedTransactionV) -> Seq<bool> {
    let keys = message_static_keys(tx.message);
    let n = if tx.signatures.len() <= keys.len() {
        tx.signatures.len()
    } else {
        keys.len()
    };
    Seq::new(n, |i: int| ed25519_verifies(tx.signatures[i], keys[i], message_bincode(tx.message)))
}

/// The payer and instructions of a transaction's message, its lookups
/// resolved with the given tables (a legacy message has no lookups).
pub open spec fn spec_decompile_transaction(
    tx: ToolboxVersionedTransaction,
    tables: Seq<(Pubkey, Vec<Pubkey>)>,
) -> Result<(Pubkey, Seq<InstructionV>), ToolboxEndpointError> {
    match tx.message {
        ToolboxVersionedMessage::Legacy(l) => spec_decompile_versioned(
            l.header,
            l.account_keys@,
            Seq::empty(),
            l.instructions@,
            tables,
        ),
        ToolboxVersionedMessage::V0(v) => spec_decompile_versioned(
            v.header,
            v.account_keys@,
            v.address_table_lookups@,
            v.instructions@,
            tables,
        ),
    }
}

/// The header, static addresses and compiled instructions of a message.
pub open spec fn message_parts(m: ToolboxVersionedMessage) -> (MessageHeader, Seq<Pubkey>, Seq<CompiledInstruction>) {
    match m {
        ToolboxVersionedMessage::Legacy(l) => (l.header, l.account_keys@, l.instructions@),
        ToolboxVersionedMessage::V0(v) => (v.header, v.account_keys@, v.instructions@),
    }
}

#[verifier::external_type_specification]
#[verifier::external_body]
pub struct ExSdkLegacyMessage(solana_sdk::message::legacy::Message);

#[verifier::external_type_specification]
#[verifier::external_body]
pub struct ExSdkVersionedMessage(solana_sdk::message::VersionedMessage);

/// A header, account keys, blockhash and instructions as solana-sdk's legacy
/// `Message`, field for field. Nothing is claimed.
#[verifier::external_body]
fn sdk_legacy_message(
    h: &MessageHeader,
    keys: &Vec<Pubkey>,
    recent_blockhash: [u8; 32],
    instructions: &Vec<CompiledInstruction>,
) -> solana_sdk::message::legacy::Message {
    let header = solana_sdk::message::MessageHeader { num_required_signatures: h.num_required_signatures, num_readonly_signed_accounts: h.num_readonly_signed_accounts, num_readonly_unsigned_accounts: h.num_readonly_unsigned_accounts };
    let c = |c: &CompiledInstruction| solana_sdk::instruction::CompiledInstruction { program_id_index: c.program_id_index, accounts: c.accounts.clone(), data: c.data.clone() };
    let account_keys = keys.iter().map(|k| solana_sdk::pubkey::Pubkey::new_from_array(k.bytes)).collect();
    let recent_blockhash = solana_sdk::hash::Hash::new_from_array(recent_blockhash);
    solana_sdk::message::legacy::Message { header, account_keys, recent_blockhash, instructions: instructions.iter().map(c).collect() }
}

/// A v0 message as solana-sdk's v0 `Message`, field for field. Nothing is
/// claimed.
#[verifier::external_body]
fn sdk_v0_message(m: &ToolboxCompiledMessage) -> solana_sdk::message::v0::Message {
    let p = sdk_legacy_message(&m.header, &m.account_keys, m.recent_blockhash, &m.instructions);
    let k = |k: &Pubkey| solana_sdk::pubkey::Pubkey::new_from_array(k.bytes);
    let l = |l: &MessageAddressTableLookup| solana_sdk::message::v0::MessageAddressTableLookup { account_key: k(&l.account_key), writable_indexes: l.writable_indexes.clone(), readonly_indexes: l.readonly_indexes.clone() };
    let address_table_lookups = m.address_table_lookups.iter().map(l).collect();
    solana_sdk::message::v0::Message { header: p.header, account_keys: p.account_keys, recent_blockhash: p.recent_blockhash, instructions: p.instructions, address_table_lookups }
}

/// A message as solana-sdk's `VersionedMessage`, version for version.
/// Nothing is claimed.
#[verifier::external_body]
fn sdk_versioned_message(m: &ToolboxVersionedMessage) -> solana_sdk::message::VersionedMessage {
    match m {
        ToolboxVersionedMessage::Legacy(l) => solana_sdk::message::VersionedMessage::Legacy(sdk_legacy_message(&l.header, &l.account_keys, l.recent_blockhash, &l.instructions)),
        ToolboxVersionedMessage::V0(v) => solana_sdk::message::VersionedMessage::V0(sdk_v0_message(v)),
    }
}

/// solana-sdk's `VersionedMessage::serialize`. Claimed: the bytes are a
/// function of the message alone (named `message_bincode`). The source
/// unwraps bincode's result, which fails only when a list is too long for
/// its length prefix: such messages are left out.
#[verifier::external_body]
fn message_serialize(m: &ToolboxVersionedMessage) -> (r: Vec<u8>)
    requires
        message_fits(m@),
    ensures
        r@ == message_bincode(m@),
{
    sdk_versioned_message(m).serialize()
}

/// solana-sdk's `Signature::verify`. Claimed: the answer is a function of
/// the signature, the key and the bytes alone (named `ed25519_verifies`).
#[verifier::external_body]
fn signature_verify(signature: &Signature, pubkey: &Pubkey, message: &Vec<u8>) -> (r: bool)
    ensures
        r == ed25519_verifies(signature@, pubkey@, message@),
{
    solana_sdk::signature::Signature::from(signature.bytes).verify(&pubkey.bytes, message)
}

/// bincode's `serialize` of solana-sdk's `VersionedTransaction`. Claimed:
/// the bytes are a function of the transaction alone (named
/// `transaction_bincode`), and serializing fails exactly when a list is too
/// long for its length prefix (the only error that the source can raise).
#[verifier::external_body]
fn transaction_serialize(tx: &ToolboxVersionedTransaction) -> (r: Option<Vec<u8>>)
    ensures
        r is Some <==> transaction_fits(tx@),
        r matches Some(bytes) ==> bytes@ == transaction_bincode(tx@),
{
    let signatures = tx.signatures.iter().map(|s| solana_sdk::signature::Signature::from(s.bytes)).collect();
    let message = sdk_versioned_message(&tx.message);
    bincode::serialize(&solana_sdk::transaction::VersionedTransaction { signatures, message }).ok()
}

impl<P, L> ToolboxEndpoint<P, L> {
    /// The payer and instructions of a transaction: its address table
    /// lookups are resolved with the given tables, then its instructions are
    /// read against the static and loaded addresses.
    pub fn decompile_versioned_transaction(
        versioned_transaction: &ToolboxVersionedTransaction,
        resolved_address_lookup_tables: &Vec<(Pubkey, Vec<Pubkey>)>,
    ) -> (r: Result<(Pubkey, Vec<Instruction>), ToolboxEndpointError>)
        ensures
            match r {
                Ok((payer, instructions)) => spec_decompile_transaction(
                    *versioned_transaction,
                    resolved_address_lookup_tables@,
                ) == Ok::<(Pubkey, Seq<InstructionV>), ToolboxEndpointError>(
                    (payer, instructions_view(instructions@)),
                ),
                Err(e) => spec_decompile_transaction(*versioned_transaction, resolved_address_lookup_tables@)
                    == Err::<(Pubkey, Seq<InstructionV>), ToolboxEndpointError>(e),
            },
    {
        match &versioned_transaction.message {
            ToolboxVersionedMessage::Legacy(l) => {
                let no_lookups: Vec<MessageAddressTableLookup> = Vec::new();
                proof {
                    assert(no_lookups@ =~= Seq::<MessageAddressTableLookup>::empty());
                }
                Self::decompile_message_parts(
                    l.header,
                    &l.account_keys,
                    &no_lookups,
                    &l.instructions,
                    resolved_address_lookup_tables,
                )
            },
            ToolboxVersionedMessage::V0(v) => Self::decompile_message_parts(
                v.header,
                &v.account_keys,
                &v.address_table_lookups,
                &v.instructions,
                resolved_address_lookup_tables,
            ),
        }
    }

    /// The payer and instructions of a transaction, given the addresses
    /// that its lookups loaded.
    pub fn decompile_versioned_transaction_with_loaded_addresses(
        versioned_transaction: &ToolboxVersionedTransaction,
        loaded_writable_addresses: &Vec<Pubkey>,
        loaded_readonly_addresses: &Vec<Pubkey>,
    ) -> (r: Result<(Pubkey, Vec<Instruction>), ToolboxEndpointError>)
        requires
            message_parts(versioned_transaction.message).1.len() + loaded_writable_addresses@.len()
                + loaded_readonly_addresses@.len() <= usize::MAX,
        ensures
            ({
                let (header, statics, compiled) = message_parts(versioned_transaction.message);
                match r {
                    Ok((payer, instructions)) => spec_decompile_message(
                        header,
                        statics,
                        loaded_writable_addresses@,
                        loaded_readonly_addresses@,
                        compiled,
                    ) == Ok::<(Pubkey, Seq<InstructionV>), ToolboxEndpointError>(
                        (payer, instructions_view(instructions@)),
                    ),
                    Err(e) => spec_decompile_message(
                        header,
                        statics,
                        loaded_writable_addresses@,
                        loaded_readonly_addresses@,
                        compiled,
                    ) == Err::<(Pubkey, Seq<InstructionV>), ToolboxEndpointError>(e),
                }
            }),
    {
        match &versioned_transaction.message {
            ToolboxVersionedMessage::Legacy(l) => Self::decompile_parts_with_loaded_addresses(
                l.header,
                &l.account_keys,
                loaded_writable_addresses,
                loaded_readonly_addresses,
                &l.instructions,
            ),
            ToolboxVersionedMessage::V0(v) => Self::decompile_parts_with_loaded_addresses(
                v.header,
                &v.account_keys,
                loaded_writable_addresses,
                loaded_readonly_addresses,
                &v.instructions,
            ),
        }
    }

    /// Checks that a transaction, serialized, fits in a packet.
    pub fn verify_versioned_transaction_length(versioned_transaction: &ToolboxVersionedTransaction) -> (r:
        Result<(), ToolboxEndpointError>)
        ensures
            !transaction_fits(versioned_transaction@) ==> r == Err::<(), ToolboxEndpointError>(
                ToolboxEndpointError::TransactionNotSerializable,
            ),
            transaction_fits(versioned_transaction@) ==> (r is Ok <==> transaction_bincode(
                versioned_transaction@,
            ).len() <= TRANSACTION_LENGTH_LIMIT),
            transaction_fits(versioned_transaction@) && r is Err ==> r == Err::<(), ToolboxEndpointError>(
                ToolboxEndpointError::TransactionTooLong,
            ),
    {
        match transaction_serialize(versioned_transaction) {
            None => Err(ToolboxEndpointError::TransactionNotSerializable),
            Some(bytes) => Self::check_transaction_length(bytes.len()),
        }
    }

    /// Checks a transaction's signatures: each is verified against the
    /// static key at its position over the serialized message; there must be
    /// as many results as the message requires signatures, and all must hold.
    pub fn verify_versioned_transaction_signatures(versioned_transaction: &ToolboxVersionedTransaction) -> (r:
        Result<(), ToolboxEndpointError>)
        requires
            message_fits(versioned_transaction.message@),
        ensures
            ({
                let results = signature_results(versioned_transaction@);
                let required = message_header(versioned_transaction.message@).num_required_signatures;
                &&& results.len() != required ==> r == Err::<(), ToolboxEndpointError>(
                    ToolboxEndpointError::SignatureCountMismatch,
                )
                &&& results.len() == required ==> (r is Ok <==> forall|i: int|
                    0 <= i < results.len() ==> #[trigger] results[i])
                &&& results.len() == required && r is Err ==> r == Err::<(), ToolboxEndpointError>(
                    ToolboxEndpointError::InvalidSignatures,
                )
            }),
    {
        let message = &versioned_transaction.message;
        let (header, keys) = match message {
            ToolboxVersionedMessage::Legacy(l) => (l.header, &l.account_keys),
            ToolboxVersionedMessage::V0(v) => (v.header, &v.account_keys),
        };
        let bytes = message_serialize(message);
        let signatures = &versioned_transaction.signatures;
        let n = if signatures.len() <= keys.len() {
            signatures.len()
        } else {
            keys.len()
        };
        let ghost expected = signature_results(versioned_transaction@);
        let mut results: Vec<bool> = Vec::new();
        let mut i: usize = 0;
        while i < n
            invariant
                i <= n,
                n <= signatures.len(),
                n <= keys.len(),
                n == expected.len(),
                bytes@ == message_bincode(message@),
                message_static_keys(message@) == pubkeys_view(keys@),
                expected == signature_results(versioned_transaction@),
                *message == versioned_transaction.message,
                *signatures == versioned_transaction.signatures,
                results@ == expected.subrange(0, i as int),
            decreases n - i,
        {
            let ok = signature_verify(&signatures[i], &keys[i], &bytes);
            results.push(ok);
            proof {
                assert(results@ =~= expected.subrange(0, i + 1));
            }
            i = i + 1;
        }
        proof {
            assert(results@ =~= expected);
        }
        Self::check_signature_results(&results, header.num_required_signatures)
    }
}

} // verus!
