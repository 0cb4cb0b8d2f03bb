use solana_sdk::instruction::AccountMeta;
use solana_sdk::instruction::Instruction;
use solana_sdk::message::v0;
use solana_sdk::message::VersionedMessage;
use solana_sdk::pubkey::Pubkey;
use solana_sdk::signature::Keypair;
use solana_sdk::signer::Signer;
use solana_sdk::transaction::VersionedTransaction;
use solana_toolbox::endpoint::Pubkey as LibraryPubkey;
use solana_toolbox::endpoint::ToolboxEndpoint;
use solana_toolbox::endpoint::ToolboxEndpointError;
use solana_toolbox::endpoint_message::ToolboxCompiledMessage;
use solana_toolbox::endpoint_rpc::Signature as LibrarySignature;
use solana_toolbox::endpoint_transaction::CompiledInstruction;
use solana_toolbox::endpoint_transaction::MessageAddressTableLookup;
use solana_toolbox::endpoint_transaction::MessageHeader;
use solana_toolbox::endpoint_versioned::ToolboxLegacyMessage;
use solana_toolbox::endpoint_versioned::ToolboxVersionedMessage;
use solana_toolbox::endpoint_versioned::ToolboxVersionedTransaction;

type Endpoint = ToolboxEndpoint<(), String>;

fn library_key(key: &Pubkey) -> LibraryPubkey {
    LibraryPubkey { bytes: key.to_bytes() }
}

fn library_header(header: &solana_sdk::message::MessageHeader) -> MessageHeader {
    MessageHeader {
        num_required_signatures: header.num_required_signatures,
        num_readonly_signed_accounts: header.num_readonly_signed_accounts,
        num_readonly_unsigned_accounts: header.num_readonly_unsigned_accounts,
    }
}

fn library_instructions(instructions: &[solana_sdk::instruction::CompiledInstruction]) -> Vec<CompiledInstruction> {
    instructions
        .iter()
        .map(|i| CompiledInstruction { program_id_index: i.program_id_index, accounts: i.accounts.clone(), data: i.data.clone() })
        .collect()
}

fn library_transaction(tx: &VersionedTransaction) -> ToolboxVersionedTransaction {
    let message = match &tx.message {
        VersionedMessage::Legacy(m) => ToolboxVersionedMessage::Legacy(ToolboxLegacyMessage {
            header: library_header(&m.header),
            account_keys: m.account_keys.iter().map(library_key).collect(),
            recent_blockhash: m.recent_blockhash.to_bytes(),
            instructions: library_instructions(&m.instructions),
        }),
        VersionedMessage::V0(m) => ToolboxVersionedMessage::V0(ToolboxCompiledMessage {
            header: library_header(&m.header),
            account_keys: m.account_keys.iter().map(library_key).collect(),
            recent_blockhash: m.recent_blockhash.to_bytes(),
            instructions: library_instructions(&m.instructions),
            address_table_lookups: m
                .address_table_lookups
                .iter()
                .map(|l| MessageAddressTableLookup {
                    account_key: library_key(&l.account_key),
                    writable_indexes: l.writable_indexes.clone(),
                    readonly_indexes: l.readonly_indexes.clone(),
                })
                .collect(),
        }),
    };
    ToolboxVersionedTransaction {
        signatures: tx.signatures.iter().map(|s| LibrarySignature { bytes: *s.as_array() }).collect(),
        message,
    }
}

fn signed(payer: &Keypair, other: &Keypair, data: Vec<u8>) -> VersionedTransaction {
    let instruction = Instruction {
        program_id: Pubkey::new_from_array([9; 32]),
        accounts: vec![AccountMeta::new_readonly(other.pubkey(), true), AccountMeta::new(Pubkey::new_from_array([5; 32]), false)],
        data,
    };
    let message = v0::Message::try_compile(&payer.pubkey(), &[instruction], &[], solana_sdk::hash::Hash::new_from_array([1; 32]))
        .unwrap();
    VersionedTransaction::try_new(VersionedMessage::V0(message), &[payer, other]).unwrap()
}

#[test]
fn versioned_transaction_signatures() {
    let payer = Keypair::new();
    let other = Keypair::new();
    let tx = signed(&payer, &other, vec![1, 2, 3]);
    assert_eq!(Endpoint::verify_versioned_transaction_signatures(&library_transaction(&tx)), Ok(()));
    // A changed signature no longer holds.
    let mut tampered = library_transaction(&tx);
    tampered.signatures[1].bytes[0] ^= 1;
    assert_eq!(
        Endpoint::verify_versioned_transaction_signatures(&tampered),
        Err(ToolboxEndpointError::InvalidSignatures)
    );
    // A missing signature is counted.
    let mut missing = library_transaction(&tx);
    missing.signatures.pop();
    assert_eq!(
        Endpoint::verify_versioned_transaction_signatures(&missing),
        Err(ToolboxEndpointError::SignatureCountMismatch)
    );
    // A changed message breaks every signature.
    let mut changed = library_transaction(&tx);
    if let ToolboxVersionedMessage::V0(m) = &mut changed.message {
        m.recent_blockhash[0] = 2;
    }
    assert_eq!(
        Endpoint::verify_versioned_transaction_signatures(&changed),
        Err(ToolboxEndpointError::InvalidSignatures)
    );
}

#[test]
fn versioned_transaction_length() {
    let payer = Keypair::new();
    let other = Keypair::new();
    let small = signed(&payer, &other, vec![0; 10]);
    assert!(bincode::serialize(&small).unwrap().len() <= 1232);
    assert_eq!(Endpoint::verify_versioned_transaction_length(&library_transaction(&small)), Ok(()));
    let large = signed(&payer, &other, vec![0; 2000]);
    assert!(bincode::serialize(&large).unwrap().len() > 1232);
    assert_eq!(
        Endpoint::verify_versioned_transaction_length(&library_transaction(&large)),
        Err(ToolboxEndpointError::TransactionTooLong)
    );
    // A legacy message counts the same way.
    let legacy = solana_sdk::message::Message::new_with_blockhash(
        &[Instruction { program_id: Pubkey::new_from_array([9; 32]), accounts: vec![], data: vec![7; 100] }],
        Some(&payer.pubkey()),
        &solana_sdk::hash::Hash::new_from_array([1; 32]),
    );
    let legacy = VersionedTransaction::try_new(VersionedMessage::Legacy(legacy), &[&payer]).unwrap();
    assert_eq!(Endpoint::verify_versioned_transaction_length(&library_transaction(&legacy)), Ok(()));
    assert_eq!(Endpoint::verify_versioned_transaction_signatures(&library_transaction(&legacy)), Ok(()));
    // Too many signatures for a length prefix.
    let mut bloated = library_transaction(&small);
    bloated.signatures = vec![LibrarySignature { bytes: [0; 64] }; 70000];
    assert_eq!(
        Endpoint::verify_versioned_transaction_length(&bloated),
        Err(ToolboxEndpointError::TransactionNotSerializable)
    );
}

#[test]
fn versioned_transaction_decompiled() {
    let payer = Keypair::new();
    let other = Keypair::new();
    let tx = signed(&payer, &other, vec![4, 2]);
    let (back_payer, instructions) =
        Endpoint::decompile_versioned_transaction(&library_transaction(&tx), &vec![]).unwrap();
    assert_eq!(back_payer.bytes, payer.pubkey().to_bytes());
    assert_eq!(instructions.len(), 1);
    assert_eq!(instructions[0].program_id.bytes, [9; 32]);
    assert_eq!(instructions[0].data, vec![4, 2]);
    let accounts: Vec<([u8; 32], bool, bool)> =
        instructions[0].accounts.iter().map(|m| (m.pubkey.bytes, m.is_signer, m.is_writable)).collect();
    assert_eq!(accounts, vec![(other.pubkey().to_bytes(), true, false), ([5; 32], false, true)]);
    // A legacy message has no lookups to resolve.
    let legacy = solana_sdk::message::Message::new_with_blockhash(
        &[Instruction { program_id: Pubkey::new_from_array([9; 32]), accounts: vec![], data: vec![1] }],
        Some(&payer.pubkey()),
        &solana_sdk::hash::Hash::new_from_array([1; 32]),
    );
    let legacy = VersionedTransaction::try_new(VersionedMessage::Legacy(legacy), &[&payer]).unwrap();
    let (back_payer, instructions) =
        Endpoint::decompile_versioned_transaction(&library_transaction(&legacy), &vec![]).unwrap();
    assert_eq!(back_payer.bytes, payer.pubkey().to_bytes());
    assert_eq!(instructions[0].data, vec![1]);
}

#[test]
fn versioned_transaction_with_loaded_addresses() {
    let key = |b: u8| LibraryPubkey { bytes: [b; 32] };
    let message = ToolboxCompiledMessage {
        header: MessageHeader { num_required_signatures: 1, num_readonly_signed_accounts: 0, num_readonly_unsigned_accounts: 1 },
        account_keys: vec![key(1), key(9)],
        recent_blockhash: [0; 32],
        instructions: vec![CompiledInstruction { program_id_index: 1, accounts: vec![0, 2, 3], data: vec![8] }],
        address_table_lookups: vec![],
    };
    let tx = ToolboxVersionedTransaction { signatures: vec![], message: ToolboxVersionedMessage::V0(message) };
    let (payer, instructions) =
        Endpoint::decompile_versioned_transaction_with_loaded_addresses(&tx, &vec![key(20)], &vec![key(21)]).unwrap();
    assert_eq!(payer.bytes, [1; 32]);
    let accounts: Vec<(u8, bool, bool)> =
        instructions[0].accounts.iter().map(|m| (m.pubkey.bytes[0], m.is_signer, m.is_writable)).collect();
    assert_eq!(accounts, vec![(1, true, true), (20, false, true), (21, false, false)]);
    // An index past the loaded addresses is refused.
    assert!(matches!(
        Endpoint::decompile_versioned_transaction_with_loaded_addresses(&tx, &vec![key(20)], &vec![]),
        Err(ToolboxEndpointError::InvalidAccountIndex)
    ));
}
