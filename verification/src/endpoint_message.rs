//! Compiling instructions into a v0 message, with solana-sdk's compiler.
use vstd::prelude::*;

use crate::endpoint::{AccountMeta, InstructionV, Pubkey, ToolboxEndpoint};
use crate::endpoint_transaction::{
    instructions_view,
    pubkeys_view,
    CompiledInstruction,
    MessageAddressTableLookup,
    MessageHeader,
};

verus! {

/// The view of a compiled instruction.
pub struct CompiledInstructionV {
    pub program_id_index: u8,
    pub accounts: Seq<u8>,
    pub data: Seq<u8>,
}

impl View for CompiledInstruction {
    type V = CompiledInstructionV;

    open spec fn view(&self) -> CompiledInstructionV {
        CompiledInstructionV {
            program_id_index: self.program_id_index,
            accounts: self.accounts@,
            data: self.data@,
        }
    }
}

/// The view of an address table lookup.
pub struct MessageAddressTableLookupV {
    pub account_key: Seq<u8>,
    pub writable_indexes: Seq<u8>,
    pub readonly_indexes: Seq<u8>,
}

impl View for MessageAddressTableLookup {
    type V = MessageAddressTableLookupV;

    open spec fn view(&self) -> MessageAddressTableLookupV {
        MessageAddressTableLookupV {
            account_key: self.account_key@,
            writable_indexes: self.writable_indexes@,
            readonly_indexes: self.readonly_indexes@,
        }
    }
}

/// A v0 message: its header, its static account keys, the recent blockhash,
/// its compiled instructions and its address table lookups.
#[derive(Debug)]
pub struct ToolboxCompiledMessage {
    pub header: MessageHeader,
    pub account_keys: Vec<Pubkey>,
    pub recent_blockhash: [u8; 32],
    pub instructions: Vec<CompiledInstruction>,
    pub address_table_lookups: Vec<MessageAddressTableLookup>,
}

/// The view of a v0 message.
pub struct CompiledMessageV {
    pub header: MessageHeader,
    pub account_keys: Seq<Seq<u8>>,
    pub recent_blockhash: Seq<u8>,
    pub instructions: Seq<CompiledInstructionV>,
    pub address_table_lookups: Seq<MessageAddressTableLookupV>,
}

impl View for ToolboxCompiledMessage {
    type V = CompiledMessageV;

    open spec fn view(&self) -> CompiledMessageV {
        CompiledMessageV {
            header: self.header,
            account_keys: pubkeys_view(self.account_keys@),
            recent_blockhash: self.recent_blockhash@,
            instructions: Seq::new(self.instructions@.len(), |i: int| self.instructions@[i]@),
            address_table_lookups: Seq::new(
                self.address_table_lookups@.len(),
                |i: int| self.address_table_lookups@[i]@,
            ),
        }
    }
}

/// Why instructions could not be compiled into a message.
#[derive(Clone, Copy, Debug)]
pub enum ToolboxCompileError {
    /// More accounts than an index of one byte can name.
    AccountIndexOverflow,
    /// A lookup table position that does not fit in one byte.
    AddressTableLookupIndexOverflow,
    /// An instruction names a key that the message does not hold.
    UnknownInstructionKey(Pubkey),
}

/// The resolved lookup tables as keys and addresses.
pub open spec fn tables_view(tables: Seq<(Pubkey, Vec<Pubkey>)>) -> Seq<(Seq<u8>, Seq<Seq<u8>>)> {
    Seq::new(tables.len(), |i: int| (tables[i].0@, pubkeys_view(tables[i].1@)))
}

/// The message (or the error) that solana-sdk's v0 compiler makes of a
/// payer, instructions, lookup tables and a recent blockhash.
pub uninterp spec fn v0_compiled_message(
    payer: Seq<u8>,
    instructions: Seq<InstructionV>,
    tables: Seq<(Seq<u8>, Seq<Seq<u8>>)>,
    recent_blockhash: Seq<u8>,
) -> Result<CompiledMessageV, ToolboxCompileError>;

#[verifier::external_type_specification]
#[verifier::external_body]
pub struct ExSdkAddressLookupTableAccount(solana_sdk::message::AddressLookupTableAccount);

#[verifier::external_type_specification]
#[verifier::external_body]
pub struct ExSdkMessageV0(solana_sdk::message::v0::Message);

#[verifier::external_type_specification]
#[verifier::external_body]
pub struct ExSdkCompileError(solana_sdk::message::CompileError);

/// Resolved lookup tables as solana-sdk's `AddressLookupTableAccount`s, field
/// for field. Nothing is claimed.
#[verifier::external_body]
fn sdk_lookup_tables(tables: &Vec<(Pubkey, Vec<Pubkey>)>) -> Vec<solana_sdk::message::AddressLookupTableAccount> {
    let k = |p: &Pubkey| solana_sdk::pubkey::Pubkey::new_from_array(p.bytes);
    tables.iter().map(|t| solana_sdk::message::AddressLookupTableAccount { key: k(&t.0), addresses: t.1.iter().map(k).collect() }).collect()
}

/// solana-sdk's v0 `Message` as a `ToolboxCompiledMessage`, field for
/// field. Nothing is claimed.
#[verifier::external_body]
fn library_message(m: solana_sdk::message::v0::Message) -> ToolboxCompiledMessage {
    let k = |p: solana_sdk::pubkey::Pubkey| Pubkey { bytes: p.to_bytes() };
    let h = m.header;
    let header = MessageHeader { num_required_signatures: h.num_required_signatures, num_readonly_signed_accounts: h.num_readonly_signed_accounts, num_readonly_unsigned_accounts: h.num_readonly_unsigned_accounts };
    let instructions = m.instructions.into_iter().map(|c| CompiledInstruction { program_id_index: c.program_id_index, accounts: c.accounts, data: c.data }).collect();
    let lookups = m.address_table_lookups.into_iter().map(|l| MessageAddressTableLookup { account_key: k(l.account_key), writable_indexes: l.writable_indexes, readonly_indexes: l.readonly_indexes }).collect();
    ToolboxCompiledMessage { header, account_keys: m.account_keys.into_iter().map(k).collect(), recent_blockhash: m.recent_blockhash.to_bytes(), instructions, address_table_lookups: lookups }
}

/// solana-sdk's `CompileError` as a `ToolboxCompileError`, variant for
/// variant. Nothing is claimed.
#[verifier::external_body]
fn library_compile_error(e: solana_sdk::message::CompileError) -> ToolboxCompileError {
    match e {
        solana_sdk::message::CompileError::AccountIndexOverflow => ToolboxCompileError::AccountIndexOverflow,
        solana_sdk::message::CompileError::AddressTableLookupIndexOverflow => ToolboxCompileError::AddressTableLookupIndexOverflow,
        solana_sdk::message::CompileError::UnknownInstructionKey(k) => ToolboxCompileError::UnknownInstructionKey(Pubkey { bytes: k.to_bytes() }),
    }
}

/// solana-sdk's `v0::Message::try_compile`. Claimed: the message or the
/// error is a function of the payer, the instructions, the tables and the
/// blockhash alone (named `v0_compiled_message`); the source compiles
/// through ordered maps and never panics.
#[verifier::external_body]
fn v0_message_try_compile(
    payer: &Pubkey,
    instructions: &Vec<crate::endpoint::Instruction>,
    tables: &Vec<(Pubkey, Vec<Pubkey>)>,
    recent_blockhash: [u8; 32],
) -> (r: Result<ToolboxCompiledMessage, ToolboxCompileError>)
    ensures
        match r {
            Ok(m) => v0_compiled_message(payer@, instructions_view(instructions@), tables_view(tables@), recent_blockhash@)
                == Ok::<CompiledMessageV, ToolboxCompileError>(m@),
            Err(e) => v0_compiled_message(payer@, instructions_view(instructions@), tables_view(tables@), recent_blockhash@)
                == Err::<CompiledMessageV, ToolboxCompileError>(e),
        },
{
    let k = |p: &Pubkey| solana_sdk::pubkey::Pubkey::new_from_array(p.bytes);
    let m = |a: &AccountMeta| solana_sdk::instruction::AccountMeta { pubkey: k(&a.pubkey), is_signer: a.is_signer, is_writable: a.is_writable };
    let ixs: Vec<_> = instructions.iter().map(|ix| solana_sdk::instruction::Instruction { program_id: k(&ix.program_id), accounts: ix.accounts.iter().map(m).collect(), data: ix.data.clone() }).collect();
    let hash = solana_sdk::hash::Hash::new_from_array(recent_blockhash);
    let r = solana_sdk::message::v0::Message::try_compile(&k(payer), &ixs, &sdk_lookup_tables(tables), hash);
    r.map(library_message).map_err(library_compile_error)
}

impl<P, L> ToolboxEndpoint<P, L> {
    /// Compiles instructions into a v0 message paid by `payer`, loading what
    /// it can from the given lookup tables.
    pub fn compile_versioned_transaction_message(
        payer: &Pubkey,
        instructions: &Vec<crate::endpoint::Instruction>,
        resolved_address_lookup_tables: &Vec<(Pubkey, Vec<Pubkey>)>,
        recent_blockhash: [u8; 32],
    ) -> (r: Result<ToolboxCompiledMessage, ToolboxCompileError>)
        ensures
            match r {
                Ok(m) => v0_compiled_message(
                    payer@,
                    instructions_view(instructions@),
                    tables_view(resolved_address_lookup_tables@),
                    recent_blockhash@,
                ) == Ok::<CompiledMessageV, ToolboxCompileError>(m@),
                Err(e) => v0_compiled_message(
                    payer@,
                    instructions_view(instructions@),
                    tables_view(resolved_address_lookup_tables@),
                    recent_blockhash@,
                ) == Err::<CompiledMessageV, ToolboxCompileError>(e),
            },
    {
        v0_message_try_compile(payer, instructions, resolved_address_lookup_tables, recent_blockhash)
    }
}

} // verus!
