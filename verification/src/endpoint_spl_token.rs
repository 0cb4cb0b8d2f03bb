//! The SPL token instructions that the endpoint sends: creating and
//! initializing mints and token accounts, minting, moving, burning, freezing
//! and thawing tokens, and changing a mint's authorities.
use vstd::prelude::*;

use crate::endpoint::{AccountMeta, Instruction, Pubkey, ToolboxEndpoint, ToolboxEndpointError};
use crate::idl_bytes::le_value;
use crate::idl_bytes::le_bytes;

verus! {

/// The size of a mint account, in bytes.
pub const SPL_TOKEN_MINT_LEN: u64 = 82;

/// The size of a token account, in bytes.
pub const SPL_TOKEN_ACCOUNT_LEN: u64 = 165;

/// Which authority of a mint a change is about.
#[derive(Clone, Copy, Debug, PartialEq, Eq, Structural)]
pub enum ToolboxSplTokenAuthority {
    MintTokens,
    FreezeAccount,
}

/// The byte that names an authority in a `SetAuthority` instruction.
pub open spec fn authority_tag(a: ToolboxSplTokenAuthority) -> u8 {
    match a {
        ToolboxSplTokenAuthority::MintTokens => 0,
        ToolboxSplTokenAuthority::FreezeAccount => 1,
    }
}

/// An account that is written but does not sign.
pub open spec fn writable(k: Pubkey) -> AccountMeta {
    AccountMeta { pubkey: k, is_signer: false, is_writable: true }
}

/// An account that is only read and does not sign.
pub open spec fn readonly(k: Pubkey) -> AccountMeta {
    AccountMeta { pubkey: k, is_signer: false, is_writable: false }
}

/// An account that signs and is only read.
pub open spec fn signer_readonly(k: Pubkey) -> AccountMeta {
    AccountMeta { pubkey: k, is_signer: true, is_writable: false }
}

/// An account that signs and is written.
pub open spec fn signer_writable(k: Pubkey) -> AccountMeta {
    AccountMeta { pubkey: k, is_signer: true, is_writable: true }
}

/// An optional public key as spl-token packs it: 0, or 1 and the key.
pub open spec fn packed_option(k: Option<Pubkey>) -> Seq<u8> {
    match k {
        None => seq![0u8],
        Some(k) => seq![1u8] + k@,
    }
}

/// The data of an instruction that carries an amount after its tag.
pub open spec fn amount_data(tag: u8, amount: u64) -> Seq<u8> {
    seq![tag] + le_bytes(amount as nat, 8)
}

/// The 32 bytes of the spl-token program's id,
/// `TokenkegQfeZyiNwAJbNbGKPFXCWuBvf9Ss623VQ5DA`.
pub open spec fn spl_token_id_bytes() -> Seq<u8> {
    seq![
        6u8, 221u8, 246u8, 225u8, 215u8, 101u8, 161u8, 147u8,
        217u8, 203u8, 225u8, 70u8, 206u8, 235u8, 121u8, 172u8,
        28u8, 180u8, 133u8, 237u8, 95u8, 91u8, 55u8, 145u8,
        58u8, 140u8, 245u8, 133u8, 126u8, 255u8, 0u8, 169u8,
    ]
}

/// The 32 bytes of the rent sysvar's id,
/// `SysvarRent111111111111111111111111111111111`.
pub open spec fn rent_sysvar_bytes() -> Seq<u8> {
    seq![
        6u8, 167u8, 213u8, 23u8, 25u8, 44u8, 92u8, 81u8,
        33u8, 140u8, 201u8, 76u8, 61u8, 74u8, 241u8, 127u8,
        88u8, 218u8, 238u8, 8u8, 155u8, 161u8, 253u8, 68u8,
        227u8, 219u8, 217u8, 138u8, 0u8, 0u8, 0u8, 0u8,
    ]
}

/// Whether an account is the rent sysvar, read only and not signing.
pub open spec fn rent_sysvar_readonly(m: AccountMeta) -> bool {
    m.pubkey@ == rent_sysvar_bytes() && !m.is_signer && !m.is_writable
}

/// The id of the spl-token program, from spl-token's `ID`. Claimed, as
/// spl-token's `declare_id!` shows: the bytes of
/// `TokenkegQfeZyiNwAJbNbGKPFXCWuBvf9Ss623VQ5DA`.
#[verifier::external_body]
fn spl_token_program_id() -> (r: Pubkey)
    ensures
        r@ == spl_token_id_bytes(),
{
    Pubkey { bytes: spl_token::ID.to_bytes() }
}

/// solana-sdk's `system_instruction::create_account`. Claimed, as its
/// source shows: the system program (all-zero id), the funder then the new
/// account, both signing and written, and the bincode encoding of
/// `CreateAccount`: variant 0 on 4 bytes, the lamports, the space and the
/// owner.
#[verifier::external_body]
fn system_create_account(from: &Pubkey, to: &Pubkey, lamports: u64, space: u64, owner: &Pubkey) -> (r:
    Instruction)
    ensures
        r.program_id@ == Seq::new(32, |i: int| 0u8),
        r.accounts@ == seq![signer_writable(*from), signer_writable(*to)],
        r.data@ == seq![0u8, 0u8, 0u8, 0u8] + le_bytes(lamports as nat, 8) + le_bytes(space as nat, 8)
            + owner@,
{
    let k = |p: &Pubkey| solana_sdk::pubkey::Pubkey::new_from_array(p.bytes);
    let ix = solana_sdk::system_instruction::create_account(&k(from), &k(to), lamports, space, &k(owner));
    Instruction {
        program_id: Pubkey { bytes: ix.program_id.to_bytes() },
        accounts: ix.accounts.iter().map(|m| AccountMeta { pubkey: Pubkey { bytes: m.pubkey.to_bytes() }, is_signer: m.is_signer, is_writable: m.is_writable }).collect(),
        data: ix.data,
    }
}

/// spl-token's `instruction::initialize_mint`. Claimed, as its source
/// shows, when it succeeds (it fails exactly when `program` is not spl-token's id):
/// the mint written, then the rent sysvar read, and
/// the data 0, the decimals, the mint authority and the packed freeze
/// authority.
#[verifier::external_body]
fn spl_token_initialize_mint(
    program: &Pubkey,
    mint: &Pubkey,
    authority: &Pubkey,
    freeze_authority: Option<Pubkey>,
    decimals: u8,
) -> (r: Option<Instruction>)
    ensures
        r is Some <==> program@ == spl_token_id_bytes(),
        r matches Some(ix) ==> ix.program_id == *program && ix.accounts@.len() == 2
            && ix.accounts@[0] == writable(*mint) && rent_sysvar_readonly(ix.accounts@[1])
            && ix.data@ == seq![0u8, decimals] + authority@
            + packed_option(freeze_authority),
{
    let k = |p: &Pubkey| solana_sdk::pubkey::Pubkey::new_from_array(p.bytes);
    let freeze = freeze_authority.map(|f| k(&f));
    let ix = spl_token::instruction::initialize_mint(&k(program), &k(mint), &k(authority), freeze.as_ref(), decimals).ok()?;
    Some(Instruction {
        program_id: Pubkey { bytes: ix.program_id.to_bytes() },
        accounts: ix.accounts.iter().map(|m| AccountMeta { pubkey: Pubkey { bytes: m.pubkey.to_bytes() }, is_signer: m.is_signer, is_writable: m.is_writable }).collect(),
        data: ix.data,
    })
}

/// spl-token's `instruction::initialize_account`. Claimed, as its source
/// shows, when it succeeds (it fails exactly when `program` is not spl-token's id):
/// the account written, the mint and the owner read, then the rent sysvar
/// read, and the data 1.
#[verifier::external_body]
fn spl_token_initialize_account(program: &Pubkey, account: &Pubkey, mint: &Pubkey, owner: &Pubkey) -> (r:
    Option<Instruction>)
    ensures
        r is Some <==> program@ == spl_token_id_bytes(),
        r matches Some(ix) ==> ix.program_id == *program && ix.accounts@.len() == 4
            && ix.accounts@[0] == writable(*account) && ix.accounts@[1] == readonly(*mint)
            && ix.accounts@[2] == readonly(*owner) && rent_sysvar_readonly(ix.accounts@[3])
            && ix.data@ == seq![1u8],
{
    let k = |p: &Pubkey| solana_sdk::pubkey::Pubkey::new_from_array(p.bytes);
    let ix = spl_token::instruction::initialize_account(&k(program), &k(account), &k(mint), &k(owner)).ok()?;
    Some(Instruction {
        program_id: Pubkey { bytes: ix.program_id.to_bytes() },
        accounts: ix.accounts.iter().map(|m| AccountMeta { pubkey: Pubkey { bytes: m.pubkey.to_bytes() }, is_signer: m.is_signer, is_writable: m.is_writable }).collect(),
        data: ix.data,
    })
}

/// spl-token's `instruction::set_authority`, without multisig signers.
/// Claimed, as its source shows, when it succeeds (it fails exactly when
/// `program` is not spl-token's id): the owned account written, the current
/// authority signing, and the data 6, the authority's byte and the packed
/// new authority.
#[verifier::external_body]
fn spl_token_set_authority(
    program: &Pubkey,
    owned: &Pubkey,
    new_authority: Option<Pubkey>,
    authority: ToolboxSplTokenAuthority,
    current: &Pubkey,
) -> (r: Option<Instruction>)
    ensures
        r is Some <==> program@ == spl_token_id_bytes(),
        r matches Some(ix) ==> ix.program_id == *program && ix.accounts@ == seq![
            writable(*owned),
            signer_readonly(*current),
        ] && ix.data@ == seq![6u8, authority_tag(authority)] + packed_option(new_authority),
{
    let k = |p: &Pubkey| solana_sdk::pubkey::Pubkey::new_from_array(p.bytes);
    let new = new_authority.map(|n| k(&n));
    let kind = match authority {
        ToolboxSplTokenAuthority::MintTokens => spl_token::instruction::AuthorityType::MintTokens,
        ToolboxSplTokenAuthority::FreezeAccount => spl_token::instruction::AuthorityType::FreezeAccount,
    };
    let ix = spl_token::instruction::set_authority(&k(program), &k(owned), new.as_ref(), kind, &k(current), &[]).ok()?;
    Some(Instruction {
        program_id: Pubkey { bytes: ix.program_id.to_bytes() },
        accounts: ix.accounts.iter().map(|m| AccountMeta { pubkey: Pubkey { bytes: m.pubkey.to_bytes() }, is_signer: m.is_signer, is_writable: m.is_writable }).collect(),
        data: ix.data,
    })
}

/// spl-token's `instruction::mint_to`, without multisig signers. Claimed,
/// as its source shows, when it succeeds (it fails exactly when `program`
/// is not spl-token's id): the mint and the destination written, the authority
/// signing, and the data 7 then the amount.
#[verifier::external_body]
fn spl_token_mint_to(program: &Pubkey, mint: &Pubkey, destination: &Pubkey, authority: &Pubkey, amount: u64) -> (r:
    Option<Instruction>)
    ensures
        r is Some <==> program@ == spl_token_id_bytes(),
        r matches Some(ix) ==> ix.program_id == *program && ix.accounts@ == seq![
            writable(*mint),
            writable(*destination),
            signer_readonly(*authority),
        ] && ix.data@ == amount_data(7, amount),
{
    let k = |p: &Pubkey| solana_sdk::pubkey::Pubkey::new_from_array(p.bytes);
    let ix = spl_token::instruction::mint_to(&k(program), &k(mint), &k(destination), &k(authority), &[], amount).ok()?;
    Some(Instruction {
        program_id: Pubkey { bytes: ix.program_id.to_bytes() },
        accounts: ix.accounts.iter().map(|m| AccountMeta { pubkey: Pubkey { bytes: m.pubkey.to_bytes() }, is_signer: m.is_signer, is_writable: m.is_writable }).collect(),
        data: ix.data,
    })
}

/// spl-token's `instruction::freeze_account`, without multisig signers.
/// Claimed, as its source shows, when it succeeds (it fails exactly when
/// `program` is not spl-token's id): the token account written, the mint read,
/// the freeze authority signing, and the data 10.
#[verifier::external_body]
fn spl_token_freeze_account(program: &Pubkey, account: &Pubkey, mint: &Pubkey, authority: &Pubkey) -> (r:
    Option<Instruction>)
    ensures
        r is Some <==> program@ == spl_token_id_bytes(),
        r matches Some(ix) ==> ix.program_id == *program && ix.accounts@ == seq![
            writable(*account),
            readonly(*mint),
            signer_readonly(*authority),
        ] && ix.data@ == seq![10u8],
{
    let k = |p: &Pubkey| solana_sdk::pubkey::Pubkey::new_from_array(p.bytes);
    let ix = spl_token::instruction::freeze_account(&k(program), &k(account), &k(mint), &k(authority), &[]).ok()?;
    Some(Instruction {
        program_id: Pubkey { bytes: ix.program_id.to_bytes() },
        accounts: ix.accounts.iter().map(|m| AccountMeta { pubkey: Pubkey { bytes: m.pubkey.to_bytes() }, is_signer: m.is_signer, is_writable: m.is_writable }).collect(),
        data: ix.data,
    })
}

/// spl-token's `instruction::thaw_account`, without multisig signers.
/// Claimed, as its source shows, when it succeeds (it fails exactly when
/// `program` is not spl-token's id): the token account written, the mint read,
/// the freeze authority signing, and the data 11.
#[verifier::external_body]
fn spl_token_thaw_account(program: &Pubkey, account: &Pubkey, mint: &Pubkey, authority: &Pubkey) -> (r:
    Option<Instruction>)
    ensures
        r is Some <==> program@ == spl_token_id_bytes(),
        r matches Some(ix) ==> ix.program_id == *program && ix.accounts@ == seq![
            writable(*account),
            readonly(*mint),
            signer_readonly(*authority),
        ] && ix.data@ == seq![11u8],
{
    let k = |p: &Pubkey| solana_sdk::pubkey::Pubkey::new_from_array(p.bytes);
    let ix = spl_token::instruction::thaw_account(&k(program), &k(account), &k(mint), &k(authority), &[]).ok()?;
    Some(Instruction {
        program_id: Pubkey { bytes: ix.program_id.to_bytes() },
        accounts: ix.accounts.iter().map(|m| AccountMeta { pubkey: Pubkey { bytes: m.pubkey.to_bytes() }, is_signer: m.is_signer, is_writable: m.is_writable }).collect(),
        data: ix.data,
    })
}

/// spl-token's `instruction::transfer`, without multisig signers. Claimed,
/// as its source shows, when it succeeds (it fails exactly when `program`
/// is not spl-token's id): the source and the destination written, the owner
/// signing, and the data 3 then the amount.
#[verifier::external_body]
fn spl_token_transfer(program: &Pubkey, source: &Pubkey, destination: &Pubkey, owner: &Pubkey, amount: u64) -> (r:
    Option<Instruction>)
    ensures
        r is Some <==> program@ == spl_token_id_bytes(),
        r matches Some(ix) ==> ix.program_id == *program && ix.accounts@ == seq![
            writable(*source),
            writable(*destination),
            signer_readonly(*owner),
        ] && ix.data@ == amount_data(3, amount),
{
    let k = |p: &Pubkey| solana_sdk::pubkey::Pubkey::new_from_array(p.bytes);
    let ix = spl_token::instruction::transfer(&k(program), &k(source), &k(destination), &k(owner), &[], amount).ok()?;
    Some(Instruction {
        program_id: Pubkey { bytes: ix.program_id.to_bytes() },
        accounts: ix.accounts.iter().map(|m| AccountMeta { pubkey: Pubkey { bytes: m.pubkey.to_bytes() }, is_signer: m.is_signer, is_writable: m.is_writable }).collect(),
        data: ix.data,
    })
}

/// spl-token's `instruction::burn`, without multisig signers. Claimed, as
/// its source shows, when it succeeds (it fails exactly when `program`
/// is not spl-token's id): the token account and the mint written, the owner
/// signing, and the data 8 then the amount.
#[verifier::external_body]
fn spl_token_burn(program: &Pubkey, account: &Pubkey, mint: &Pubkey, owner: &Pubkey, amount: u64) -> (r:
    Option<Instruction>)
    ensures
        r is Some <==> program@ == spl_token_id_bytes(),
        r matches Some(ix) ==> ix.program_id == *program && ix.accounts@ == seq![
            writable(*account),
            writable(*mint),
            signer_readonly(*owner),
        ] && ix.data@ == amount_data(8, amount),
{
    let k = |p: &Pubkey| solana_sdk::pubkey::Pubkey::new_from_array(p.bytes);
    let ix = spl_token::instruction::burn(&k(program), &k(account), &k(mint), &k(owner), &[], amount).ok()?;
    Some(Instruction {
        program_id: Pubkey { bytes: ix.program_id.to_bytes() },
        accounts: ix.accounts.iter().map(|m| AccountMeta { pubkey: Pubkey { bytes: m.pubkey.to_bytes() }, is_signer: m.is_signer, is_writable: m.is_writable }).collect(),
        data: ix.data,
    })
}

/// The state of an spl-token mint.
#[derive(Clone, Copy, Debug)]
pub struct ToolboxSplTokenMint {
    pub mint_authority: Option<Pubkey>,
    pub supply: u64,
    pub decimals: u8,
    pub is_initialized: bool,
    pub freeze_authority: Option<Pubkey>,
}

/// The state of an spl-token token account.
#[derive(Clone, Copy, Debug)]
pub struct ToolboxSplTokenAccount {
    pub mint: Pubkey,
    pub owner: Pubkey,
    pub amount: u64,
    pub delegate: Option<Pubkey>,
    /// 0 uninitialized, 1 initialized, 2 frozen.
    pub state: u8,
    pub is_native: Option<u64>,
    pub delegated_amount: u64,
    pub close_authority: Option<Pubkey>,
}

/// The view of a mint.
pub struct SplTokenMintV {
    pub mint_authority: Option<Seq<u8>>,
    pub supply: nat,
    pub decimals: u8,
    pub is_initialized: bool,
    pub freeze_authority: Option<Seq<u8>>,
}

/// The view of a token account.
pub struct SplTokenAccountV {
    pub mint: Seq<u8>,
    pub owner: Seq<u8>,
    pub amount: nat,
    pub delegate: Option<Seq<u8>>,
    pub state: u8,
    pub is_native: Option<nat>,
    pub delegated_amount: nat,
    pub close_authority: Option<Seq<u8>>,
}

pub open spec fn opt_key_view(k: Option<Pubkey>) -> Option<Seq<u8>> {
    match k {
        Some(k) => Some(k@),
        None => None,
    }
}

pub open spec fn mint_view(m: ToolboxSplTokenMint) -> SplTokenMintV {
    SplTokenMintV {
        mint_authority: opt_key_view(m.mint_authority),
        supply: m.supply as nat,
        decimals: m.decimals,
        is_initialized: m.is_initialized,
        freeze_authority: opt_key_view(m.freeze_authority),
    }
}

pub open spec fn token_account_view(a: ToolboxSplTokenAccount) -> SplTokenAccountV {
    SplTokenAccountV {
        mint: a.mint@,
        owner: a.owner@,
        amount: a.amount as nat,
        delegate: opt_key_view(a.delegate),
        state: a.state,
        is_native: match a.is_native {
            Some(n) => Some(n as nat),
            None => None,
        },
        delegated_amount: a.delegated_amount as nat,
        close_authority: opt_key_view(a.close_authority),
    }
}

/// An optional key as spl-token stores it: a 4-byte tag (0 or 1) then 32
/// bytes; `None` when the tag is neither.
pub open spec fn stored_option_key(b: Seq<u8>) -> Option<Option<Seq<u8>>> {
    if b.subrange(0, 4) == seq![0u8, 0u8, 0u8, 0u8] {
        Some(None)
    } else if b.subrange(0, 4) == seq![1u8, 0u8, 0u8, 0u8] {
        Some(Some(b.subrange(4, 36)))
    } else {
        None
    }
}

/// An optional amount as spl-token stores it: a 4-byte tag (0 or 1) then 8
/// little-endian bytes; `None` when the tag is neither.
pub open spec fn stored_option_amount(b: Seq<u8>) -> Option<Option<nat>> {
    if b.subrange(0, 4) == seq![0u8, 0u8, 0u8, 0u8] {
        Some(None)
    } else if b.subrange(0, 4) == seq![1u8, 0u8, 0u8, 0u8] {
        Some(Some(le_value(b.subrange(4, 12))))
    } else {
        None
    }
}

/// The mint that 82 bytes of data hold: the mint authority, the supply, the
/// decimals, the initialized flag (0 or 1) and the freeze authority; none
/// unless the data is exactly that long, well formed and initialized.
pub open spec fn spec_unpack_mint(data: Seq<u8>) -> Option<SplTokenMintV> {
    if data.len() != 82 {
        None
    } else {
        match (stored_option_key(data.subrange(0, 36)), stored_option_key(data.subrange(46, 82))) {
            (Some(mint_authority), Some(freeze_authority)) => if data[45] == 1 {
                Some(
                    SplTokenMintV {
                        mint_authority,
                        supply: le_value(data.subrange(36, 44)),
                        decimals: data[44],
                        is_initialized: true,
                        freeze_authority,
                    },
                )
            } else {
                None
            },
            _ => None,
        }
    }
}

/// The token account that 165 bytes of data hold: the mint, the owner, the
/// amount, the delegate, the state (1 initialized or 2 frozen), the native
/// amount, the delegated amount and the close authority; none unless the
/// data is exactly that long, well formed and initialized.
pub open spec fn spec_unpack_token_account(data: Seq<u8>) -> Option<SplTokenAccountV> {
    if data.len() != 165 {
        None
    } else {
        match (
            stored_option_key(data.subrange(72, 108)),
            stored_option_amount(data.subrange(109, 121)),
            stored_option_key(data.subrange(129, 165)),
        ) {
            (Some(delegate), Some(is_native), Some(close_authority)) => if data[108] == 1
                || data[108] == 2 {
                Some(
                    SplTokenAccountV {
                        mint: data.subrange(0, 32),
                        owner: data.subrange(32, 64),
                        amount: le_value(data.subrange(64, 72)),
                        delegate,
                        state: data[108],
                        is_native,
                        delegated_amount: le_value(data.subrange(121, 129)),
                        close_authority,
                    },
                )
            } else {
                None
            },
            _ => None,
        }
    }
}

/// spl-token's `Mint::unpack`. Claimed, as its source shows (with
/// `Pack::unpack`'s length and initialization checks): what
/// `spec_unpack_mint` says.
#[verifier::external_body]
fn spl_token_unpack_mint(data: &[u8]) -> (r: Option<ToolboxSplTokenMint>)
    ensures
        match r {
            Some(m) => spec_unpack_mint(data@) == Some(mint_view(m)),
            None => spec_unpack_mint(data@) is None,
        },
{
    let m = <spl_token::state::Mint as solana_sdk::program_pack::Pack>::unpack(data).ok()?;
    let k = |p: solana_sdk::pubkey::Pubkey| Pubkey { bytes: p.to_bytes() };
    Some(ToolboxSplTokenMint {
        mint_authority: Option::<solana_sdk::pubkey::Pubkey>::from(m.mint_authority).map(k),
        supply: m.supply,
        decimals: m.decimals,
        is_initialized: m.is_initialized,
        freeze_authority: Option::<solana_sdk::pubkey::Pubkey>::from(m.freeze_authority).map(k),
    })
}

/// spl-token's `Account::unpack`. Claimed, as its source shows (with
/// `Pack::unpack`'s length and initialization checks): what
/// `spec_unpack_token_account` says.
#[verifier::external_body]
fn spl_token_unpack_account(data: &[u8]) -> (r: Option<ToolboxSplTokenAccount>)
    ensures
        match r {
            Some(a) => spec_unpack_token_account(data@) == Some(token_account_view(a)),
            None => spec_unpack_token_account(data@) is None,
        },
{
    let a = <spl_token::state::Account as solana_sdk::program_pack::Pack>::unpack(data).ok()?;
    let k = |p: solana_sdk::pubkey::Pubkey| Pubkey { bytes: p.to_bytes() };
    Some(ToolboxSplTokenAccount {
        mint: k(a.mint),
        owner: k(a.owner),
        amount: a.amount,
        delegate: Option::<solana_sdk::pubkey::Pubkey>::from(a.delegate).map(k),
        state: a.state as u8,
        is_native: a.is_native.into(),
        delegated_amount: a.delegated_amount,
        close_authority: Option::<solana_sdk::pubkey::Pubkey>::from(a.close_authority).map(k),
    })
}

impl<P, L> ToolboxEndpoint<P, L> {
    /// The instructions that make `mint` a new mint: the system program
    /// creates it with the rent-exempt lamports and the size of a mint, owned
    /// by spl-token, then spl-token initializes it.
    pub fn spl_token_mint_init_instructions(
        payer: &Pubkey,
        mint: &Pubkey,
        mint_authority: &Pubkey,
        mint_freeze_authority: Option<Pubkey>,
        mint_decimals: u8,
        rent_minimum_lamports: u64,
    ) -> (r: Option<Vec<Instruction>>)
        ensures
            r is Some,
            r matches Some(ixs) ==> ixs@.len() == 2 && ixs@[0].program_id@ == Seq::new(32, |i: int| 0u8)
                && ixs@[0].accounts@ == seq![signer_writable(*payer), signer_writable(*mint)]
                && ixs@[0].data@ == seq![0u8, 0u8, 0u8, 0u8] + le_bytes(rent_minimum_lamports as nat, 8)
                + le_bytes(SPL_TOKEN_MINT_LEN as nat, 8) + spl_token_id_bytes()
                && ixs@[1].program_id@ == spl_token_id_bytes() && ixs@[1].accounts@.len() == 2
                && ixs@[1].accounts@[0] == writable(*mint) && rent_sysvar_readonly(ixs@[1].accounts@[1])
                && ixs@[1].data@ == seq![0u8, mint_decimals] + mint_authority@ + packed_option(
                mint_freeze_authority,
            ),
    {
        let program = spl_token_program_id();
        let create = system_create_account(
            payer,
            mint,
            rent_minimum_lamports,
            SPL_TOKEN_MINT_LEN,
            &program,
        );
        let init = match spl_token_initialize_mint(
            &program,
            mint,
            mint_authority,
            mint_freeze_authority,
            mint_decimals,
        ) {
            Some(ix) => ix,
            None => {
                return None;
            },
        };
        let mut ixs: Vec<Instruction> = Vec::new();
        ixs.push(create);
        ixs.push(init);
        Some(ixs)
    }

    /// The instruction that hands a mint's minting authority from
    /// `source_mint_authority` to `destination_mint_authority` (none: no one
    /// can mint any more).
    pub fn spl_token_mint_set_authority_instruction(
        mint: &Pubkey,
        source_mint_authority: &Pubkey,
        destination_mint_authority: Option<Pubkey>,
    ) -> (r: Option<Instruction>)
        ensures
            r is Some,
            r matches Some(ix) ==> ix.program_id@ == spl_token_id_bytes() && ix.accounts@ == seq![
                writable(*mint),
                signer_readonly(*source_mint_authority),
            ] && ix.data@ == seq![6u8, 0u8] + packed_option(destination_mint_authority),
    {
        spl_token_set_authority(
            &spl_token_program_id(),
            mint,
            destination_mint_authority,
            ToolboxSplTokenAuthority::MintTokens,
            source_mint_authority,
        )
    }

    /// The instruction that mints `amount` tokens into a token account.
    pub fn spl_token_mint_to_instruction(
        mint: &Pubkey,
        mint_authority: &Pubkey,
        destination_token_account: &Pubkey,
        amount: u64,
    ) -> (r: Option<Instruction>)
        ensures
            r is Some,
            r matches Some(ix) ==> ix.program_id@ == spl_token_id_bytes() && ix.accounts@ == seq![
                writable(*mint),
                writable(*destination_token_account),
                signer_readonly(*mint_authority),
            ] && ix.data@ == amount_data(7, amount),
    {
        spl_token_mint_to(
            &spl_token_program_id(),
            mint,
            destination_token_account,
            mint_authority,
            amount,
        )
    }

    /// The instruction that hands a mint's freezing authority over.
    pub fn spl_token_mint_set_freeze_authority_instruction(
        mint: &Pubkey,
        source_mint_freeze_authority: &Pubkey,
        destination_mint_freeze_authority: Option<Pubkey>,
    ) -> (r: Option<Instruction>)
        ensures
            r is Some,
            r matches Some(ix) ==> ix.program_id@ == spl_token_id_bytes() && ix.accounts@ == seq![
                writable(*mint),
                signer_readonly(*source_mint_freeze_authority),
            ] && ix.data@ == seq![6u8, 1u8] + packed_option(destination_mint_freeze_authority),
    {
        spl_token_set_authority(
            &spl_token_program_id(),
            mint,
            destination_mint_freeze_authority,
            ToolboxSplTokenAuthority::FreezeAccount,
            source_mint_freeze_authority,
        )
    }

    /// The instruction that freezes a token account.
    pub fn spl_token_freeze_instruction(
        mint: &Pubkey,
        mint_freeze_authority: &Pubkey,
        token_account: &Pubkey,
    ) -> (r: Option<Instruction>)
        ensures
            r is Some,
            r matches Some(ix) ==> ix.program_id@ == spl_token_id_bytes() && ix.accounts@ == seq![
                writable(*token_account),
                readonly(*mint),
                signer_readonly(*mint_freeze_authority),
            ] && ix.data@ == seq![10u8],
    {
        spl_token_freeze_account(&spl_token_program_id(), token_account, mint, mint_freeze_authority)
    }

    /// The instruction that thaws a frozen token account.
    pub fn spl_token_thaw_instruction(
        mint: &Pubkey,
        mint_freeze_authority: &Pubkey,
        token_account: &Pubkey,
    ) -> (r: Option<Instruction>)
        ensures
            r is Some,
            r matches Some(ix) ==> ix.program_id@ == spl_token_id_bytes() && ix.accounts@ == seq![
                writable(*token_account),
                readonly(*mint),
                signer_readonly(*mint_freeze_authority),
            ] && ix.data@ == seq![11u8],
    {
        spl_token_thaw_account(&spl_token_program_id(), token_account, mint, mint_freeze_authority)
    }

    /// The instruction that moves `amount` tokens between token accounts.
    pub fn spl_token_transfer_instruction(
        owner: &Pubkey,
        source_token_account: &Pubkey,
        destination_token_account: &Pubkey,
        amount: u64,
    ) -> (r: Option<Instruction>)
        ensures
            r is Some,
            r matches Some(ix) ==> ix.program_id@ == spl_token_id_bytes() && ix.accounts@ == seq![
                writable(*source_token_account),
                writable(*destination_token_account),
                signer_readonly(*owner),
            ] && ix.data@ == amount_data(3, amount),
    {
        spl_token_transfer(
            &spl_token_program_id(),
            source_token_account,
            destination_token_account,
            owner,
            amount,
        )
    }

    /// The instruction that burns `amount` tokens of a token account.
    pub fn spl_token_burn_instruction(
        owner: &Pubkey,
        source_token_account: &Pubkey,
        mint: &Pubkey,
        amount: u64,
    ) -> (r: Option<Instruction>)
        ensures
            r is Some,
            r matches Some(ix) ==> ix.program_id@ == spl_token_id_bytes() && ix.accounts@ == seq![
                writable(*source_token_account),
                writable(*mint),
                signer_readonly(*owner),
            ] && ix.data@ == amount_data(8, amount),
    {
        spl_token_burn(&spl_token_program_id(), source_token_account, mint, owner, amount)
    }

    /// The instructions that make `account` a new token account of `mint`
    /// owned by `owner`: the system program creates it with the rent-exempt
    /// lamports and the size of a token account, owned by spl-token, then
    /// spl-token initializes it.
    pub fn spl_token_account_init_instructions(
        payer: &Pubkey,
        account: &Pubkey,
        owner: &Pubkey,
        mint: &Pubkey,
        rent_minimum_lamports: u64,
    ) -> (r: Option<Vec<Instruction>>)
        ensures
            r is Some,
            r matches Some(ixs) ==> ixs@.len() == 2 && ixs@[0].program_id@ == Seq::new(32, |i: int| 0u8)
                && ixs@[0].accounts@ == seq![signer_writable(*payer), signer_writable(*account)]
                && ixs@[0].data@ == seq![0u8, 0u8, 0u8, 0u8] + le_bytes(rent_minimum_lamports as nat, 8)
                + le_bytes(SPL_TOKEN_ACCOUNT_LEN as nat, 8) + spl_token_id_bytes()
                && ixs@[1].program_id@ == spl_token_id_bytes() && ixs@[1].accounts@.len() == 4
                && ixs@[1].accounts@[0] == writable(*account) && ixs@[1].accounts@[1] == readonly(*mint)
                && ixs@[1].accounts@[2] == readonly(*owner) && rent_sysvar_readonly(ixs@[1].accounts@[3])
                && ixs@[1].data@ == seq![1u8],
    {
        let program = spl_token_program_id();
        let create = system_create_account(
            payer,
            account,
            rent_minimum_lamports,
            SPL_TOKEN_ACCOUNT_LEN,
            &program,
        );
        let init = match spl_token_initialize_account(&program, account, mint, owner) {
            Some(ix) => ix,
            None => {
                return None;
            },
        };
        let mut ixs: Vec<Instruction> = Vec::new();
        ixs.push(create);
        ixs.push(init);
        Some(ixs)
    }
    /// The mint that an account's data holds.
    pub fn spl_token_mint_from_data(data: &Vec<u8>) -> (r: Result<ToolboxSplTokenMint, ToolboxEndpointError>)
        ensures
            match spec_unpack_mint(data@) {
                Some(m) => r matches Ok(x) && mint_view(x) == m,
                None => r == Err::<ToolboxSplTokenMint, ToolboxEndpointError>(
                    ToolboxEndpointError::InvalidSplTokenData,
                ),
            },
    {
        match spl_token_unpack_mint(data.as_slice()) {
            Some(m) => Ok(m),
            None => Err(ToolboxEndpointError::InvalidSplTokenData),
        }
    }

    /// The token account that an account's data holds.
    pub fn spl_token_account_from_data(data: &Vec<u8>) -> (r: Result<
        ToolboxSplTokenAccount,
        ToolboxEndpointError,
    >)
        ensures
            match spec_unpack_token_account(data@) {
                Some(a) => r matches Ok(x) && token_account_view(x) == a,
                None => r == Err::<ToolboxSplTokenAccount, ToolboxEndpointError>(
                    ToolboxEndpointError::InvalidSplTokenData,
                ),
            },
    {
        match spl_token_unpack_account(data.as_slice()) {
            Some(a) => Ok(a),
            None => Err(ToolboxEndpointError::InvalidSplTokenData),
        }
    }
}

} // verus!
