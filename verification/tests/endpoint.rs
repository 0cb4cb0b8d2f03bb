use solana_sdk::program_option::COption;
use solana_sdk::program_pack::Pack;
use solana_toolbox::endpoint::AccountMeta;
use solana_toolbox::endpoint::Instruction;
use solana_toolbox::endpoint::Pubkey;
use solana_toolbox::endpoint::ToolboxEndpoint;
use solana_toolbox::endpoint::ToolboxEndpointError;
use solana_toolbox::endpoint_rpc::forward_counter_target;
use solana_toolbox::endpoint_rpc::forward_unix_timestamp_target;
use solana_toolbox::endpoint_rpc::forwarded_clock;
use solana_toolbox::endpoint_rpc::prepare_return_data;
use solana_toolbox::endpoint_rpc::search_addresses_filters;
use solana_toolbox::endpoint_rpc::wait_result;
use solana_toolbox::endpoint_rpc::wait_step;
use solana_toolbox::endpoint_rpc::ToolboxClock;
use solana_toolbox::endpoint_rpc::ToolboxProgramAccountsFilter;
use solana_toolbox::endpoint_rpc::ToolboxReturnDataEncoding;
use solana_toolbox::endpoint_rpc::ToolboxSignatureSearch;
use solana_toolbox::endpoint_rpc::ToolboxSignatureSearchStep;
use solana_toolbox::endpoint_rpc::ToolboxWaitStep;
use solana_toolbox::endpoint_rpc::WAIT_TIMEOUT_MILLIS;
use solana_toolbox::endpoint_message::ToolboxCompileError;
use solana_toolbox::endpoint_spl_token::SPL_TOKEN_MINT_LEN;
use solana_toolbox::endpoint_transaction::CompiledInstruction;
use solana_toolbox::endpoint_transaction::MessageAddressTableLookup;
use solana_toolbox::endpoint_transaction::MessageHeader;

type Endpoint = ToolboxEndpoint<(), String>;

fn key(byte: u8) -> Pubkey {
    Pubkey { bytes: [byte; 32] }
}

fn meta(k: Pubkey, is_signer: bool, is_writable: bool) -> AccountMeta {
    AccountMeta { pubkey: k, is_signer, is_writable }
}

fn from_sdk(ix: solana_sdk::instruction::Instruction) -> (Vec<u8>, Vec<(Vec<u8>, bool, bool)>, Vec<u8>) {
    (
        ix.program_id.to_bytes().to_vec(),
        ix.accounts.iter().map(|m| (m.pubkey.to_bytes().to_vec(), m.is_signer, m.is_writable)).collect(),
        ix.data,
    )
}

fn from_lib(ix: &Instruction) -> (Vec<u8>, Vec<(Vec<u8>, bool, bool)>, Vec<u8>) {
    (
        ix.program_id.bytes.to_vec(),
        ix.accounts.iter().map(|m| (m.pubkey.bytes.to_vec(), m.is_signer, m.is_writable)).collect(),
        ix.data.clone(),
    )
}

fn sdk_key(k: &Pubkey) -> solana_sdk::pubkey::Pubkey {
    solana_sdk::pubkey::Pubkey::new_from_array(k.bytes)
}

#[test]
fn endpoint_loggers() {
    let mut endpoint: Endpoint = ToolboxEndpoint::from_proxy(());
    assert!(endpoint.loggers().is_empty());
    endpoint.add_logger("first".to_string());
    endpoint.add_logger("second".to_string());
    assert_eq!(endpoint.loggers(), &vec!["first".to_string(), "second".to_string()]);
}

#[test]
fn signature_search_batches() {
    let signatures: Vec<solana_sdk::signature::Signature> =
        (0..5).map(|_| solana_sdk::signature::Signature::new_unique()).collect();
    let texts: Vec<String> = signatures.iter().map(|s| s.to_string()).collect();
    let mut search = ToolboxSignatureSearch::new(None, None, 4);
    let (before, size) = search.next_request();
    assert!(before.is_none());
    assert_eq!(size, 10);
    assert_eq!(search.on_batch(&texts[0..2].to_vec()), ToolboxSignatureSearchStep::Continue);
    let (before, size) = search.next_request();
    assert_eq!(before.unwrap().bytes, *signatures[1].as_array());
    assert_eq!(size, 100);
    assert_eq!(search.on_batch(&texts[2..5].to_vec()), ToolboxSignatureSearchStep::Done);
    let found = search.into_signatures();
    assert_eq!(found.len(), 4);
    for (i, signature) in found.iter().enumerate() {
        assert_eq!(signature.bytes, *signatures[i].as_array());
    }
}

#[test]
fn signature_search_rewind_empty_and_invalid() {
    let signatures: Vec<solana_sdk::signature::Signature> =
        (0..3).map(|_| solana_sdk::signature::Signature::new_unique()).collect();
    let texts: Vec<String> = signatures.iter().map(|s| s.to_string()).collect();
    let until = solana_toolbox::endpoint_rpc::Signature { bytes: *signatures[1].as_array() };
    let mut search = ToolboxSignatureSearch::new(None, Some(until), 100);
    assert_eq!(search.on_batch(&texts), ToolboxSignatureSearchStep::Done);
    assert_eq!(search.into_signatures().len(), 2);
    let mut empty = ToolboxSignatureSearch::new(None, None, 100);
    assert_eq!(empty.on_batch(&vec![]), ToolboxSignatureSearchStep::Done);
    let mut invalid = ToolboxSignatureSearch::new(None, None, 100);
    assert_eq!(invalid.on_batch(&vec!["nope".to_string()]), ToolboxSignatureSearchStep::Failed);
    let mut retries = ToolboxSignatureSearch::new(None, None, 100);
    retries.next_request();
    retries.next_request();
    assert_eq!(retries.next_request().1, 1000);
}

#[test]
fn waiting_and_clock() {
    assert_eq!(wait_step(true, 0), ToolboxWaitStep::Done);
    assert_eq!(wait_step(false, WAIT_TIMEOUT_MILLIS), ToolboxWaitStep::Sleep);
    assert_eq!(wait_step(false, WAIT_TIMEOUT_MILLIS + 1), ToolboxWaitStep::TimedOut);
    assert_eq!(wait_result(ToolboxWaitStep::TimedOut), Some(Err(ToolboxEndpointError::Timeout)));
    assert_eq!(wait_result(ToolboxWaitStep::Done), Some(Ok(())));
    assert_eq!(wait_result(ToolboxWaitStep::Sleep), None);
    assert_eq!(forward_unix_timestamp_target(-5, 10), 5);
    assert_eq!(forward_counter_target(5, 10), 15);
    let clock = ToolboxClock {
        slot: 10,
        epoch_start_timestamp: 100,
        epoch: 2,
        leader_schedule_epoch: 3,
        unix_timestamp: 1000,
    };
    let next = forwarded_clock(clock, 60, 150);
    assert_eq!(next.slot, 160);
    assert_eq!(next.epoch, 3);
    assert_eq!(next.unix_timestamp, 1060);
    assert_eq!(next.epoch_start_timestamp, 100);
    assert_eq!(next.leader_schedule_epoch, 3);
}

#[test]
fn return_data_and_filters() {
    assert_eq!(
        prepare_return_data(Some(("AQID".to_string(), ToolboxReturnDataEncoding::Base64))),
        Ok(Some(vec![1, 2, 3]))
    );
    assert_eq!(prepare_return_data(None), Ok(None));
    assert_eq!(
        prepare_return_data(Some(("!!".to_string(), ToolboxReturnDataEncoding::Base64))),
        Err(ToolboxEndpointError::Base64Decode)
    );
    let filters = search_addresses_filters(Some(165), &vec![(32, vec![1, 2, 3])]);
    assert_eq!(filters.len(), 2);
    assert!(matches!(filters[0], ToolboxProgramAccountsFilter::DataSize(165)));
    match &filters[1] {
        ToolboxProgramAccountsFilter::MemoryCompare { offset, bytes_base64 } => {
            assert_eq!(*offset, 32);
            assert_eq!(bytes_base64, "AQID");
        },
        _ => panic!("expected a comparison"),
    }
    assert!(search_addresses_filters(None, &vec![]).is_empty());
}

#[test]
fn compile_signers_and_checks() {
    let payer = key(1);
    let needed = key(2);
    let unneeded = key(3);
    let instructions = vec![Instruction {
        program_id: key(9),
        accounts: vec![meta(payer, true, true), meta(needed, true, false), meta(unneeded, false, true)],
        data: vec![],
    }];
    let chosen = Endpoint::compile_versioned_transaction_signers(
        &payer,
        &instructions,
        &vec![unneeded, needed, payer, needed],
    );
    assert_eq!(chosen, vec![1]);
    assert_eq!(Endpoint::check_transaction_length(1232), Ok(()));
    assert_eq!(
        Endpoint::check_transaction_length(1233),
        Err(ToolboxEndpointError::TransactionTooLong)
    );
    assert_eq!(Endpoint::check_signature_results(&vec![true, true], 2), Ok(()));
    assert_eq!(
        Endpoint::check_signature_results(&vec![true], 2),
        Err(ToolboxEndpointError::SignatureCountMismatch)
    );
    assert_eq!(
        Endpoint::check_signature_results(&vec![true, false], 2),
        Err(ToolboxEndpointError::InvalidSignatures)
    );
}

#[test]
fn decompile_with_lookups() {
    let header = MessageHeader {
        num_required_signatures: 1,
        num_readonly_signed_accounts: 0,
        num_readonly_unsigned_accounts: 1,
    };
    let statics = vec![key(1), key(9)];
    let lookups = vec![MessageAddressTableLookup {
        account_key: key(7),
        writable_indexes: vec![1],
        readonly_indexes: vec![0],
    }];
    let tables = vec![(key(7), vec![key(20), key(21)])];
    let compiled = vec![CompiledInstruction { program_id_index: 1, accounts: vec![0, 2, 3], data: vec![5] }];
    let (payer, instructions) =
        Endpoint::decompile_message_parts(header, &statics, &lookups, &compiled, &tables).unwrap();
    assert_eq!(payer.bytes, key(1).bytes);
    assert_eq!(instructions.len(), 1);
    assert_eq!(instructions[0].program_id.bytes, key(9).bytes);
    assert_eq!(instructions[0].data, vec![5]);
    let accounts: Vec<(u8, bool, bool)> =
        instructions[0].accounts.iter().map(|m| (m.pubkey.bytes[0], m.is_signer, m.is_writable)).collect();
    assert_eq!(accounts, vec![(1, true, true), (21, false, true), (20, false, false)]);
    let missing = Endpoint::decompile_message_parts(header, &statics, &lookups, &compiled, &vec![]);
    assert!(matches!(missing, Err(ToolboxEndpointError::AddressTableLookupIndexOverflow)));
    let bad = vec![CompiledInstruction { program_id_index: 9, accounts: vec![], data: vec![] }];
    let invalid = Endpoint::decompile_message_parts(header, &statics, &vec![], &bad, &vec![]);
    assert!(matches!(invalid, Err(ToolboxEndpointError::InvalidAccountIndex)));
    let nobody = Endpoint::decompile_message_parts(header, &vec![], &vec![], &vec![], &vec![]);
    assert!(matches!(nobody, Err(ToolboxEndpointError::MissingPayer)));
}

#[test]
fn spl_token_instructions_match_spl_token() {
    let program = spl_token::ID;
    let (mint, authority, account, payer) = (key(1), key(2), key(3), key(4));
    let ix = Endpoint::spl_token_mint_to_instruction(&mint, &authority, &account, 77).unwrap();
    let expected = spl_token::instruction::mint_to(&program, &sdk_key(&mint), &sdk_key(&account), &sdk_key(&authority), &[], 77)
        .unwrap();
    assert_eq!(from_lib(&ix), from_sdk(expected));
    let ix = Endpoint::spl_token_transfer_instruction(&authority, &account, &mint, 5).unwrap();
    let expected = spl_token::instruction::transfer(&program, &sdk_key(&account), &sdk_key(&mint), &sdk_key(&authority), &[], 5)
        .unwrap();
    assert_eq!(from_lib(&ix), from_sdk(expected));
    let ix = Endpoint::spl_token_burn_instruction(&authority, &account, &mint, 6).unwrap();
    let expected = spl_token::instruction::burn(&program, &sdk_key(&account), &sdk_key(&mint), &sdk_key(&authority), &[], 6)
        .unwrap();
    assert_eq!(from_lib(&ix), from_sdk(expected));
    let ix = Endpoint::spl_token_freeze_instruction(&mint, &authority, &account).unwrap();
    assert_eq!(ix.data, vec![10]);
    let ix = Endpoint::spl_token_thaw_instruction(&mint, &authority, &account).unwrap();
    assert_eq!(ix.data, vec![11]);
    let ix = Endpoint::spl_token_mint_set_authority_instruction(&mint, &authority, None).unwrap();
    assert_eq!(ix.data, vec![6, 0, 0]);
    let ix = Endpoint::spl_token_mint_set_freeze_authority_instruction(&mint, &authority, Some(payer)).unwrap();
    let mut data = vec![6, 1, 1];
    data.extend_from_slice(&payer.bytes);
    assert_eq!(ix.data, data);
    let ixs = Endpoint::spl_token_mint_init_instructions(&payer, &mint, &authority, None, 6, 1000).unwrap();
    assert_eq!(ixs.len(), 2);
    let create = solana_sdk::system_instruction::create_account(
        &sdk_key(&payer),
        &sdk_key(&mint),
        1000,
        SPL_TOKEN_MINT_LEN,
        &program,
    );
    assert_eq!(from_lib(&ixs[0]), from_sdk(create));
    let init = spl_token::instruction::initialize_mint(&program, &sdk_key(&mint), &sdk_key(&authority), None, 6).unwrap();
    assert_eq!(from_lib(&ixs[1]), from_sdk(init));
    let ixs = Endpoint::spl_token_account_init_instructions(&payer, &account, &authority, &mint, 2000).unwrap();
    let init = spl_token::instruction::initialize_account(&program, &sdk_key(&account), &sdk_key(&mint), &sdk_key(&authority))
        .unwrap();
    assert_eq!(from_lib(&ixs[1]), from_sdk(init));
}

#[test]
fn clock_from_sysvar_data() {
    let clock = solana_sdk::sysvar::clock::Clock {
        slot: 42,
        epoch_start_timestamp: -7,
        epoch: 3,
        leader_schedule_epoch: 4,
        unix_timestamp: 1_700_000_000,
    };
    let mut data = bincode::serialize(&clock).unwrap();
    data.push(0);
    let read = solana_toolbox::endpoint_rpc::sysvar_clock_from_data(&data).unwrap();
    assert_eq!(read.slot, 42);
    assert_eq!(read.epoch_start_timestamp, -7);
    assert_eq!(read.epoch, 3);
    assert_eq!(read.leader_schedule_epoch, 4);
    assert_eq!(read.unix_timestamp, 1_700_000_000);
    assert_eq!(
        solana_toolbox::endpoint_rpc::sysvar_clock_from_data(&vec![0; 39]).unwrap_err(),
        ToolboxEndpointError::InvalidClockData
    );
}

#[test]
fn spl_token_state_from_data() {
    let mint = spl_token::state::Mint {
        mint_authority: COption::Some(sdk_key(&key(7))),
        supply: 1_000_000_007,
        decimals: 6,
        is_initialized: true,
        freeze_authority: COption::None,
    };
    let mut data = vec![0u8; spl_token::state::Mint::LEN];
    mint.pack_into_slice(&mut data);
    let got = Endpoint::spl_token_mint_from_data(&data).unwrap();
    assert_eq!(got.mint_authority.map(|k| k.bytes), Some([7u8; 32]));
    assert_eq!(got.supply, 1_000_000_007);
    assert_eq!(got.decimals, 6);
    assert!(got.is_initialized);
    assert!(got.freeze_authority.is_none());
    // Uninitialized, wrong length and a bad option tag are refused.
    let zeroes = vec![0u8; spl_token::state::Mint::LEN];
    assert_eq!(Endpoint::spl_token_mint_from_data(&zeroes).err().unwrap(), ToolboxEndpointError::InvalidSplTokenData);
    assert_eq!(Endpoint::spl_token_mint_from_data(&data[1..].to_vec()).err().unwrap(), ToolboxEndpointError::InvalidSplTokenData);
    let mut bad = data.clone();
    bad[0] = 2;
    assert_eq!(Endpoint::spl_token_mint_from_data(&bad).err().unwrap(), ToolboxEndpointError::InvalidSplTokenData);

    let account = spl_token::state::Account {
        mint: sdk_key(&key(1)),
        owner: sdk_key(&key(2)),
        amount: 42,
        delegate: COption::Some(sdk_key(&key(3))),
        state: spl_token::state::AccountState::Frozen,
        is_native: COption::Some(5),
        delegated_amount: 9,
        close_authority: COption::None,
    };
    let mut data = vec![0u8; spl_token::state::Account::LEN];
    account.pack_into_slice(&mut data);
    let got = Endpoint::spl_token_account_from_data(&data).unwrap();
    assert_eq!(got.mint.bytes, [1u8; 32]);
    assert_eq!(got.owner.bytes, [2u8; 32]);
    assert_eq!(got.amount, 42);
    assert_eq!(got.delegate.map(|k| k.bytes), Some([3u8; 32]));
    assert_eq!(got.state, 2);
    assert_eq!(got.is_native, Some(5));
    assert_eq!(got.delegated_amount, 9);
    assert!(got.close_authority.is_none());
    let zeroes = vec![0u8; spl_token::state::Account::LEN];
    assert_eq!(Endpoint::spl_token_account_from_data(&zeroes).err().unwrap(), ToolboxEndpointError::InvalidSplTokenData);
}

#[test]
fn compile_message_and_back() {
    let payer = key(1);
    let instruction = Instruction {
        program_id: key(9),
        accounts: vec![meta(key(2), true, false), meta(key(20), false, true), meta(key(21), false, false)],
        data: vec![5, 6],
    };
    let tables = vec![(key(7), vec![key(21), key(20)])];
    let message =
        Endpoint::compile_versioned_transaction_message(&payer, &vec![instruction], &tables, [3u8; 32]).unwrap();
    assert_eq!(message.header.num_required_signatures, 2);
    assert_eq!(message.header.num_readonly_signed_accounts, 1);
    assert_eq!(message.header.num_readonly_unsigned_accounts, 1);
    let statics: Vec<u8> = message.account_keys.iter().map(|k| k.bytes[0]).collect();
    assert_eq!(statics, vec![1, 2, 9]);
    assert_eq!(message.recent_blockhash, [3u8; 32]);
    assert_eq!(message.address_table_lookups.len(), 1);
    assert_eq!(message.address_table_lookups[0].account_key.bytes, key(7).bytes);
    assert_eq!(message.address_table_lookups[0].writable_indexes, vec![1]);
    assert_eq!(message.address_table_lookups[0].readonly_indexes, vec![0]);
    assert_eq!(message.instructions.len(), 1);
    assert_eq!(message.instructions[0].program_id_index, 2);
    assert_eq!(message.instructions[0].accounts, vec![1, 3, 4]);
    assert_eq!(message.instructions[0].data, vec![5, 6]);
    // Taking the message apart gives the instruction back.
    let (back_payer, back) = Endpoint::decompile_message_parts(
        message.header,
        &message.account_keys,
        &message.address_table_lookups,
        &message.instructions,
        &tables,
    )
    .unwrap();
    assert_eq!(back_payer.bytes, payer.bytes);
    assert_eq!(back.len(), 1);
    assert_eq!(back[0].program_id.bytes, key(9).bytes);
    assert_eq!(back[0].data, vec![5, 6]);
    let accounts: Vec<(u8, bool, bool)> =
        back[0].accounts.iter().map(|m| (m.pubkey.bytes[0], m.is_signer, m.is_writable)).collect();
    assert_eq!(accounts, vec![(2, true, false), (20, false, true), (21, false, false)]);
    // Too many accounts for one-byte indexes.
    let many = Instruction {
        program_id: key(9),
        accounts: (0..300u32)
            .map(|i| meta(Pubkey { bytes: [(i % 256) as u8, (i / 256) as u8, 1, 1, 1, 1, 1, 1, 1, 1, 1, 1, 1, 1, 1, 1, 1, 1, 1, 1, 1, 1, 1, 1, 1, 1, 1, 1, 1, 1, 1, 1] }, false, false))
            .collect(),
        data: vec![],
    };
    let overflow = Endpoint::compile_versioned_transaction_message(&payer, &vec![many], &vec![], [0u8; 32]);
    assert!(matches!(overflow, Err(ToolboxCompileError::AccountIndexOverflow)));
}

#[test]
fn spl_token_and_rent_ids() {
    let token: [u8; 32] = [
        6, 221, 246, 225, 215, 101, 161, 147, 217, 203, 225, 70, 206, 235, 121, 172, 28, 180, 133, 237, 95, 91, 55, 145,
        58, 140, 245, 133, 126, 255, 0, 169,
    ];
    let rent: [u8; 32] = [
        6, 167, 213, 23, 25, 44, 92, 81, 33, 140, 201, 76, 61, 74, 241, 127, 88, 218, 238, 8, 155, 161, 253, 68, 227,
        219, 217, 138, 0, 0, 0, 0,
    ];
    assert_eq!(spl_token::ID.to_bytes(), token);
    assert_eq!(solana_sdk::sysvar::rent::id().to_bytes(), rent);
    let ixs = Endpoint::spl_token_mint_init_instructions(&key(4), &key(1), &key(2), Some(key(3)), 9, 1).unwrap();
    assert_eq!(ixs[1].program_id.bytes, token);
    assert_eq!(ixs[1].accounts[1].pubkey.bytes, rent);
    assert_eq!(ixs[0].data[20..52].to_vec(), token.to_vec());
}
