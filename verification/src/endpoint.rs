//! The endpoint: a connection to a Solana cluster (the proxy) with the
//! loggers that are told of every processed transaction, and the plain
//! values that transactions are made of.
use std::str::FromStr;
use vstd::prelude::*;

verus! {

/// An endpoint over a proxy of type `P`, with loggers of type `L`.
pub struct ToolboxEndpoint<P, L> {
    proxy: P,
    loggers: Vec<L>,
}

impl<P, L> ToolboxEndpoint<P, L> {
    /// The proxy of the endpoint.
    pub closed spec fn spec_proxy(&self) -> P {
        self.proxy
    }

    /// The loggers of the endpoint, in the order they were added.
    pub closed spec fn spec_loggers(&self) -> Seq<L> {
        self.loggers@
    }

    /// An endpoint over `proxy`, with no logger yet.
    pub fn from_proxy(proxy: P) -> (r: ToolboxEndpoint<P, L>)
        ensures
            r.spec_proxy() == proxy,
            r.spec_loggers() == Seq::<L>::empty(),
    {
        ToolboxEndpoint { proxy, loggers: Vec::new() }
    }

    /// Adds a logger, told of processed transactions after those added before.
    pub fn add_logger(&mut self, logger: L)
        ensures
            final(self).spec_loggers() == old(self).spec_loggers().push(logger),
            final(self).spec_proxy() == old(self).spec_proxy(),
    {
        self.loggers.push(logger);
    }

    /// The proxy, to make requests through.
    pub fn proxy_mut(&mut self) -> (r: &mut P)
        ensures
            *r == old(self).spec_proxy(),
            final(self).spec_proxy() == *final(r),
            final(self).spec_loggers() == old(self).spec_loggers(),
    {
        &mut self.proxy
    }

    /// The loggers, in the order they were added.
    pub fn loggers(&self) -> (r: &Vec<L>)
        ensures
            r@ == self.spec_loggers(),
    {
        &self.loggers
    }
}

/// The ways in which the endpoint's own checks and conversions can fail.
#[derive(Clone, Copy, Debug, PartialEq, Eq, Structural)]
pub enum ToolboxEndpointError {
    /// An address table lookup names a table that was not given, or an index
    /// past the end of a table.
    AddressTableLookupIndexOverflow,
    /// A compiled instruction refers to an account index past the end of the
    /// transaction's accounts.
    InvalidAccountIndex,
    /// The transaction has no account at all, hence no payer.
    MissingPayer,
    /// The serialized transaction is longer than a packet can hold.
    TransactionTooLong,
    /// The transaction holds a list too long for its length prefix, so it
    /// cannot be serialized.
    TransactionNotSerializable,
    /// The transaction carries another number of signatures than it requires.
    SignatureCountMismatch,
    /// At least one signature does not verify.
    InvalidSignatures,
    /// Return data is not base64 encoded.
    UnknownReturnDataEncoding,
    /// Return data is not valid base64.
    Base64Decode,
    /// Waiting took longer than allowed.
    Timeout,
    /// Moving the clock would overflow it.
    ClockOverflow,
    /// The clock sysvar's data is too short to hold a clock.
    InvalidClockData,
    /// An account's data is not an initialized spl-token mint or account.
    InvalidSplTokenData,
}

/// A public key: 32 bytes.
#[derive(Clone, Copy, Debug)]
pub struct Pubkey {
    pub bytes: [u8; 32],
}

impl View for Pubkey {
    type V = Seq<u8>;

    open spec fn view(&self) -> Seq<u8> {
        self.bytes@
    }
}

/// The 32 bytes that a base-58 text denotes, if it denotes a public key.
pub uninterp spec fn pubkey_from_base58(text: Seq<char>) -> Option<Seq<u8>>;

/// Reads a public key from its base-58 text with solana-sdk's
/// `Pubkey::from_str`. Claimed: the result is a function of the text alone
/// (named `pubkey_from_base58`), and a text longer than 44 characters is
/// refused (the source refuses more than 44 bytes before decoding).
#[verifier::external_body]
pub(crate) fn pubkey_from_str(text: &str) -> (r: Option<Pubkey>)
    ensures
        match r {
            Some(p) => pubkey_from_base58(text@) == Some(p@),
            None => pubkey_from_base58(text@) is None,
        },
        text@.len() > 44 ==> r is None,
{
    match solana_sdk::pubkey::Pubkey::from_str(text) {
        Ok(p) => Some(Pubkey { bytes: p.to_bytes() }),
        Err(_) => None,
    }
}

/// The base-58 text of 32 bytes.
pub uninterp spec fn pubkey_to_base58(bytes: Seq<u8>) -> Seq<char>;

/// Writes a public key as base-58 text with solana-sdk's `Pubkey`
/// `to_string`. Claimed: the text is a function of the 32 bytes alone
/// (named `pubkey_to_base58`).
#[verifier::external_body]
pub(crate) fn pubkey_to_string(key: &Pubkey) -> (r: String)
    ensures
        r@ == pubkey_to_base58(key@),
{
    solana_sdk::pubkey::Pubkey::new_from_array(key.bytes).to_string()
}

/// Whether two public keys are the same.
pub fn pubkey_eq(a: &Pubkey, b: &Pubkey) -> (r: bool)
    ensures
        r == (a@ == b@),
{
    let mut i: usize = 0;
    while i < 32
        invariant
            i <= 32,
            a@.len() == 32,
            b@.len() == 32,
            forall|k: int| 0 <= k < i ==> a@[k] == b@[k],
        decreases 32 - i,
    {
        if a.bytes[i] != b.bytes[i] {
            return false;
        }
        i = i + 1;
    }
    proof {
        assert(a@ =~= b@);
    }
    true
}

/// An account that an instruction reads or writes.
#[derive(Clone, Copy, Debug)]
pub struct AccountMeta {
    pub pubkey: Pubkey,
    pub is_signer: bool,
    pub is_writable: bool,
}

/// An instruction: the program to run, the accounts it uses, and its data.
#[derive(Debug)]
pub struct Instruction {
    pub program_id: Pubkey,
    pub accounts: Vec<AccountMeta>,
    pub data: Vec<u8>,
}

/// The view of an instruction.
pub struct InstructionV {
    pub program_id: Pubkey,
    pub accounts: Seq<AccountMeta>,
    pub data: Seq<u8>,
}

impl View for Instruction {
    type V = InstructionV;

    open spec fn view(&self) -> InstructionV {
        InstructionV { program_id: self.program_id, accounts: self.accounts@, data: self.data@ }
    }
}

} // verus!
