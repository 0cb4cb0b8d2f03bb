//! The decisions that the RPC and program-test proxies make between their
//! requests: how a search through an address's signatures proceeds, when a
//! wait is over, where a forwarded clock lands, which filters select program
//! accounts, and how return data is decoded.
use vstd::prelude::*;

use crate::endpoint::ToolboxEndpointError;
use crate::idl_bytes::le_value;
use crate::json::str_to_string;
use base64::Engine;
use std::str::FromStr;

verus! {

/// How long a proxy sleeps between two polls, in milliseconds.
pub const WAIT_SLEEP_MILLIS: u64 = 100;

/// How long a proxy waits at most, in milliseconds.
pub const WAIT_TIMEOUT_MILLIS: u64 = 10000;

/// A transaction signature: 64 bytes.
#[derive(Clone, Copy, Debug)]
pub struct Signature {
    pub bytes: [u8; 64],
}

impl View for Signature {
    type V = Seq<u8>;

    open spec fn view(&self) -> Seq<u8> {
        self.bytes@
    }
}

/// Whether two signatures are the same.
pub fn signature_eq(a: &Signature, b: &Signature) -> (r: bool)
    ensures
        r == (a@ == b@),
{
    let mut i: usize = 0;
    while i < 64
        invariant
            i <= 64,
            a@.len() == 64,
            b@.len() == 64,
            forall|k: int| 0 <= k < i ==> a@[k] == b@[k],
        decreases 64 - i,
    {
        if a.bytes[i] != b.bytes[i] {
            return false;
        }
        i = i + 1;
    }
    proof {
        assert(a@ =~= b@);
    }
    true
}

/// The 64 bytes that a base-58 text denotes, if it denotes a signature.
pub uninterp spec fn signature_from_base58(text: Seq<char>) -> Option<Seq<u8>>;

/// Reads a signature from its base-58 text with solana-sdk's
/// `Signature::from_str`. Claimed: the result is a function of the text
/// alone (named `signature_from_base58`).
#[verifier::external_body]
fn signature_from_str(text: &str) -> (r: Option<Signature>)
    ensures
        match r {
            Some(sig) => signature_from_base58(text@) == Some(sig@),
            None => signature_from_base58(text@) is None,
        },
{
    match solana_sdk::signature::Signature::from_str(text) {
        Ok(sig) => Some(Signature { bytes: *sig.as_array() }),
        Err(_) => None,
    }
}

/// The signatures that a batch of texts denotes (`None` where a text is not
/// a signature).
pub open spec fn batch_view(batch: Seq<String>) -> Seq<Option<Seq<u8>>> {
    Seq::new(
        batch.len(),
        |i: int|
            match signature_from_base58(batch[i]@) {
                Some(bytes) => if bytes.len() == 64 {
                    Some(bytes)
                } else {
                    None
                },
                None => None,
            },
    )
}

pub open spec fn opt_sig_view(s: Option<Signature>) -> Option<Seq<u8>> {
    match s {
        Some(s) => Some(s@),
        None => None,
    }
}

pub open spec fn sigs_view(s: Seq<Signature>) -> Seq<Seq<u8>> {
    Seq::new(s.len(), |i: int| s[i]@)
}

/// A walk back through the signatures of an address, newest first, batch by
/// batch: it stops when a batch comes back empty, when `limit` signatures
/// are gathered, or when `rewind_until` is reached.
#[derive(Debug)]
pub struct ToolboxSignatureSearch {
    pub limit: usize,
    pub rewind_until: Option<Signature>,
    pub oldest_known_signature: Option<Signature>,
    pub ordered_signatures: Vec<Signature>,
    pub retries: u64,
}

/// The view of a signature search.
pub struct SignatureSearchV {
    pub limit: nat,
    pub rewind_until: Option<Seq<u8>>,
    pub oldest_known_signature: Option<Seq<u8>>,
    pub ordered_signatures: Seq<Seq<u8>>,
    pub retries: nat,
}

impl View for ToolboxSignatureSearch {
    type V = SignatureSearchV;

    open spec fn view(&self) -> SignatureSearchV {
        SignatureSearchV {
            limit: self.limit as nat,
            rewind_until: opt_sig_view(self.rewind_until),
            oldest_known_signature: opt_sig_view(self.oldest_known_signature),
            ordered_signatures: sigs_view(self.ordered_signatures@),
            retries: self.retries as nat,
        }
    }
}

/// What a search does after a batch.
#[derive(Clone, Copy, Debug, PartialEq, Eq, Structural)]
pub enum ToolboxSignatureSearchStep {
    /// Ask for the next batch.
    Continue,
    /// The gathered signatures are the answer.
    Done,
    /// A signature in the batch could not be read.
    Failed,
}

/// The size of the batch asked for after `retries` earlier batches.
pub open spec fn spec_batch_size(retries: nat) -> nat {
    if retries == 0 {
        10
    } else if retries == 1 {
        100
    } else {
        1000
    }
}

/// The search after taking in the signatures of a batch from position `i` on,
/// and what it does next.
pub open spec fn spec_take_batch(s: SignatureSearchV, batch: Seq<Option<Seq<u8>>>, i: nat) -> (
    SignatureSearchV,
    ToolboxSignatureSearchStep,
)
    decreases batch.len() - i,
{
    if i >= batch.len() {
        (s, ToolboxSignatureSearchStep::Continue)
    } else {
        match batch[i as int] {
            None => (s, ToolboxSignatureSearchStep::Failed),
            Some(sig) => {
                let pushed = SignatureSearchV {
                    ordered_signatures: s.ordered_signatures.push(sig),
                    ..s
                };
                if pushed.ordered_signatures.len() >= s.limit {
                    (pushed, ToolboxSignatureSearchStep::Done)
                } else if s.rewind_until == Some(sig) {
                    (pushed, ToolboxSignatureSearchStep::Done)
                } else {
                    spec_take_batch(
                        SignatureSearchV { oldest_known_signature: Some(sig), ..pushed },
                        batch,
                        i + 1,
                    )
                }
            },
        }
    }
}

/// The search after a whole batch, and what it does next: an empty batch
/// ends it.
pub open spec fn spec_on_batch(s: SignatureSearchV, batch: Seq<Option<Seq<u8>>>) -> (
    SignatureSearchV,
    ToolboxSignatureSearchStep,
) {
    if batch.len() == 0 {
        (s, ToolboxSignatureSearchStep::Done)
    } else {
        spec_take_batch(s, batch, 0)
    }
}

/// Taking in signatures keeps what was gathered first, in front, and the
/// search's limit and stopping point; it gathers past the limit only if it
/// was already there, and goes on only below the limit.
pub proof fn lemma_take_batch_keeps(s: SignatureSearchV, batch: Seq<Option<Seq<u8>>>, i: nat)
    ensures
        ({
            let (next, step) = spec_take_batch(s, batch, i);
            &&& next.limit == s.limit
            &&& next.rewind_until == s.rewind_until
            &&& next.retries == s.retries
            &&& next.ordered_signatures.len() >= s.ordered_signatures.len()
            &&& next.ordered_signatures.take(s.ordered_signatures.len() as int)
                == s.ordered_signatures
            &&& s.ordered_signatures.len() < s.limit ==> next.ordered_signatures.len() <= s.limit
            &&& step == ToolboxSignatureSearchStep::Continue ==> (s.ordered_signatures.len()
                < s.limit ==> next.ordered_signatures.len() < s.limit)
        }),
    decreases batch.len() - i,
{
    if i < batch.len() {
        if let Some(sig) = batch[i as int] {
            let pushed = SignatureSearchV { ordered_signatures: s.ordered_signatures.push(sig), ..s };
            assert(pushed.ordered_signatures.take(s.ordered_signatures.len() as int)
                =~= s.ordered_signatures);
            if !(pushed.ordered_signatures.len() >= s.limit) && !(s.rewind_until == Some(sig)) {
                let moved = SignatureSearchV { oldest_known_signature: Some(sig), ..pushed };
                lemma_take_batch_keeps(moved, batch, i + 1);
                let next = spec_take_batch(moved, batch, i + 1).0;
                assert(next.ordered_signatures.take(s.ordered_signatures.len() as int)
                    =~= next.ordered_signatures.take(moved.ordered_signatures.len() as int).take(
                    s.ordered_signatures.len() as int,
                ));
            }
        }
    } else {
        assert(s.ordered_signatures.take(s.ordered_signatures.len() as int) =~= s.ordered_signatures);
    }
}

/// Law: a batch keeps, in front and in order, the signatures gathered
/// before it, and keeps the search's limit and stopping point; a search
/// that had not reached its limit never gathers more than the limit, and it
/// asks for another batch only while below the limit.
pub proof fn law_signature_search_batch(s: SignatureSearchV, batch: Seq<Option<Seq<u8>>>)
    ensures
        ({
            let (next, step) = spec_on_batch(s, batch);
            &&& next.limit == s.limit
            &&& next.rewind_until == s.rewind_until
            &&& next.ordered_signatures.take(s.ordered_signatures.len() as int)
                == s.ordered_signatures
            &&& next.ordered_signatures.len() >= s.ordered_signatures.len()
            &&& s.ordered_signatures.len() < s.limit ==> next.ordered_signatures.len() <= s.limit
            &&& step == ToolboxSignatureSearchStep::Continue ==> next.ordered_signatures.len()
                < s.limit || s.ordered_signatures.len() >= s.limit
        }),
{
    if batch.len() == 0 {
        assert(s.ordered_signatures.take(s.ordered_signatures.len() as int) =~= s.ordered_signatures);
    } else {
        lemma_take_batch_keeps(s, batch, 0);
    }
}

impl ToolboxSignatureSearch {
    /// A search that starts before `start_before` (from the newest when none).
    pub fn new(start_before: Option<Signature>, rewind_until: Option<Signature>, limit: usize) -> (r:
        ToolboxSignatureSearch)
        ensures
            r@ == (SignatureSearchV {
                limit: limit as nat,
                rewind_until: opt_sig_view(rewind_until),
                oldest_known_signature: opt_sig_view(start_before),
                ordered_signatures: Seq::empty(),
                retries: 0,
            }),
    {
        let r = ToolboxSignatureSearch {
            limit,
            rewind_until,
            oldest_known_signature: start_before,
            ordered_signatures: Vec::new(),
            retries: 0,
        };
        proof {
            assert(r@.ordered_signatures =~= Seq::<Seq<u8>>::empty());
        }
        r
    }

    /// The next batch to ask for: the signatures before the oldest known one,
    /// at most as many as the batch size for this retry.
    pub fn next_request(&mut self) -> (r: (Option<Signature>, usize))
        requires
            old(self).retries < u64::MAX,
        ensures
            opt_sig_view(r.0) == old(self)@.oldest_known_signature,
            r.1 == spec_batch_size(old(self)@.retries),
            final(self)@ == (SignatureSearchV { retries: old(self)@.retries + 1, ..old(self)@ }),
    {
        let batch_size: usize = if self.retries == 0 {
            10
        } else if self.retries == 1 {
            100
        } else {
            1000
        };
        self.retries = self.retries + 1;
        (self.oldest_known_signature, batch_size)
    }

    /// Takes in a batch of signature texts (newest first) and says what the
    /// search does next; a text that is not a signature fails the search.
    pub fn on_batch(&mut self, batch: &Vec<String>) -> (r: ToolboxSignatureSearchStep)
        ensures
            (final(self)@, r) == spec_on_batch(old(self)@, batch_view(batch@)),
    {
        let ghost bv = batch_view(batch@);
        if batch.len() == 0 {
            return ToolboxSignatureSearchStep::Done;
        }
        let ghost start = self@;
        let mut i: usize = 0;
        while i < batch.len()
            invariant
                i <= batch.len(),
                bv == batch_view(batch@),
                bv.len() > 0,
                start == old(self)@,
                spec_take_batch(start, bv, 0) == spec_take_batch(self@, bv, i as nat),
            decreases batch.len() - i,
        {
            let found = match signature_from_str(batch[i].as_str()) {
                None => {
                    return ToolboxSignatureSearchStep::Failed;
                },
                Some(sig) => sig,
            };
            proof {
                assert(bv[i as int] == Some(found@));
            }
            let ghost before = self@;
            self.ordered_signatures.push(found);
            proof {
                assert(sigs_view(self.ordered_signatures@) =~= before.ordered_signatures.push(found@));
            }
            if self.ordered_signatures.len() >= self.limit {
                return ToolboxSignatureSearchStep::Done;
            }
            if let Some(until) = &self.rewind_until {
                if signature_eq(until, &found) {
                    return ToolboxSignatureSearchStep::Done;
                }
            }
            self.oldest_known_signature = Some(found);
            i = i + 1;
        }
        ToolboxSignatureSearchStep::Continue
    }

    /// The signatures gathered, newest first.
    pub fn into_signatures(self) -> (r: Vec<Signature>)
        ensures
            sigs_view(r@) == self@.ordered_signatures,
    {
        self.ordered_signatures
    }
}

/// What a proxy does while it waits for a condition.
#[derive(Clone, Copy, Debug, PartialEq, Eq, Structural)]
pub enum ToolboxWaitStep {
    /// The condition holds: the wait is over.
    Done,
    /// The time allowed is spent.
    TimedOut,
    /// Sleep, then poll again.
    Sleep,
}

/// Decides a wait: done once the condition holds, timed out once more than
/// the allowed time has passed, sleeping otherwise.
pub fn wait_step(reached: bool, elapsed_millis: u64) -> (r: ToolboxWaitStep)
    ensures
        reached ==> r == ToolboxWaitStep::Done,
        !reached && elapsed_millis > WAIT_TIMEOUT_MILLIS ==> r == ToolboxWaitStep::TimedOut,
        !reached && elapsed_millis <= WAIT_TIMEOUT_MILLIS ==> r == ToolboxWaitStep::Sleep,
{
    if reached {
        ToolboxWaitStep::Done
    } else if elapsed_millis > WAIT_TIMEOUT_MILLIS {
        ToolboxWaitStep::TimedOut
    } else {
        ToolboxWaitStep::Sleep
    }
}

/// The error that a timed-out wait ends in.
pub fn wait_result(step: ToolboxWaitStep) -> (r: Option<Result<(), ToolboxEndpointError>>)
    ensures
        step == ToolboxWaitStep::Done ==> r == Some(Ok::<(), ToolboxEndpointError>(())),
        step == ToolboxWaitStep::TimedOut ==> r == Some(
            Err::<(), ToolboxEndpointError>(ToolboxEndpointError::Timeout),
        ),
        step == ToolboxWaitStep::Sleep ==> r is None,
{
    match step {
        ToolboxWaitStep::Done => Some(Ok(())),
        ToolboxWaitStep::TimedOut => Some(Err(ToolboxEndpointError::Timeout)),
        ToolboxWaitStep::Sleep => None,
    }
}

/// The unix timestamp that forwarding the clock by `delta` seconds aims at.
pub fn forward_unix_timestamp_target(current: i64, delta: u64) -> (r: i64)
    requires
        i64::MIN <= current + (delta as i64) <= i64::MAX,
    ensures
        r == current + (delta as i64),
{
    current + (delta as i64)
}

/// The slot (or epoch) that forwarding by `delta` aims at.
pub fn forward_counter_target(current: u64, delta: u64) -> (r: u64)
    requires
        current + delta <= u64::MAX,
    ensures
        r == current + delta,
{
    current + delta
}

/// The clock of a cluster.
#[derive(Clone, Copy, Debug)]
pub struct ToolboxClock {
    pub slot: u64,
    pub epoch_start_timestamp: i64,
    pub epoch: u64,
    pub leader_schedule_epoch: u64,
    pub unix_timestamp: i64,
}

/// The number that 8 little-endian bytes denote in two's complement.
pub open spec fn le_i64(b: Seq<u8>) -> int {
    if le_value(b) >= 0x8000_0000_0000_0000 {
        le_value(b) - 0x1_0000_0000_0000_0000
    } else {
        le_value(b) as int
    }
}

/// The clock that the data of the clock sysvar holds: five numbers of 8
/// little-endian bytes, in the order of the clock's fields.
pub open spec fn spec_clock_from_data(data: Seq<u8>) -> Option<ToolboxClock> {
    if data.len() >= 40 {
        Some(
            ToolboxClock {
                slot: le_value(data.subrange(0, 8)) as u64,
                epoch_start_timestamp: le_i64(data.subrange(8, 16)) as i64,
                epoch: le_value(data.subrange(16, 24)) as u64,
                leader_schedule_epoch: le_value(data.subrange(24, 32)) as u64,
                unix_timestamp: le_i64(data.subrange(32, 40)) as i64,
            },
        )
    } else {
        None
    }
}

/// Reads solana-sdk's `Clock` with `bincode::deserialize`. Claimed, as the
/// clock's field order and bincode's fixed-width little-endian format (with
/// trailing bytes allowed) give: what `spec_clock_from_data` says.
#[verifier::external_body]
fn bincode_deserialize_clock(data: &[u8]) -> (r: Option<ToolboxClock>)
    ensures
        r == spec_clock_from_data(data@),
{
    let clock = bincode::deserialize::<solana_sdk::sysvar::clock::Clock>(data).ok()?;
    Some(ToolboxClock {
        slot: clock.slot,
        epoch_start_timestamp: clock.epoch_start_timestamp,
        epoch: clock.epoch,
        leader_schedule_epoch: clock.leader_schedule_epoch,
        unix_timestamp: clock.unix_timestamp,
    })
}

/// Reads the clock from the data of the clock sysvar.
pub fn sysvar_clock_from_data(data: &Vec<u8>) -> (r: Result<ToolboxClock, ToolboxEndpointError>)
    ensures
        match spec_clock_from_data(data@) {
            Some(c) => r == Ok::<ToolboxClock, ToolboxEndpointError>(c),
            None => r == Err::<ToolboxClock, ToolboxEndpointError>(
                ToolboxEndpointError::InvalidClockData,
            ),
        },
{
    match bincode_deserialize_clock(data.as_slice()) {
        Some(clock) => Ok(clock),
        None => Err(ToolboxEndpointError::InvalidClockData),
    }
}

/// The clock that a test cluster is set to when moved forward: one epoch
/// later, `slot_delta` slots later and `unix_timestamp_delta` seconds later.
pub fn forwarded_clock(current: ToolboxClock, unix_timestamp_delta: u64, slot_delta: u64) -> (r:
    ToolboxClock)
    requires
        current.epoch < u64::MAX,
        current.slot + slot_delta <= u64::MAX,
        unix_timestamp_delta <= i64::MAX,
        current.unix_timestamp + unix_timestamp_delta <= i64::MAX,
    ensures
        r.epoch == current.epoch + 1,
        r.slot == current.slot + slot_delta,
        r.unix_timestamp == current.unix_timestamp + unix_timestamp_delta,
        r.epoch_start_timestamp == current.epoch_start_timestamp,
        r.leader_schedule_epoch == current.leader_schedule_epoch,
{
    let mut forwarded = current;
    forwarded.epoch = forwarded.epoch + 1;
    forwarded.slot = forwarded.slot + slot_delta;
    forwarded.unix_timestamp = forwarded.unix_timestamp + (unix_timestamp_delta as i64);
    forwarded
}

#[verifier::external_type_specification]
#[verifier::external_body]
pub struct ExBase64DecodeError(base64::DecodeError);

/// The bytes that standard base64 (with padding) text decodes to, if it is
/// valid.
pub uninterp spec fn base64_standard_decode(text: Seq<char>) -> Option<Seq<u8>>;

/// The standard base64 (with padding) text of some bytes.
pub uninterp spec fn base64_standard_encode(bytes: Seq<u8>) -> Seq<char>;

/// Decodes standard base64 text with `base64::engine::general_purpose::STANDARD`:
/// the bytes when the text is valid, the crate's error otherwise. What the
/// bytes are is left to the name `base64_standard_decode`.
#[verifier::external_body]
fn base64_decode(text: &str) -> (r: Result<Vec<u8>, base64::DecodeError>)
    ensures
        match r {
            Ok(bytes) => base64_standard_decode(text@) == Some(bytes@),
            Err(_) => base64_standard_decode(text@) is None,
        },
{
    base64::engine::general_purpose::STANDARD.decode(text)
}

/// Encodes bytes as standard base64 text with
/// `base64::engine::general_purpose::STANDARD`. What the text is is left to
/// the name `base64_standard_encode`; the crate panics only when the length
/// of the text would overflow, which `requires` rules out.
#[verifier::external_body]
fn base64_encode(bytes: &Vec<u8>) -> (r: String)
    requires
        bytes@.len() <= usize::MAX / 2,
    ensures
        r@ == base64_standard_encode(bytes@),
{
    base64::engine::general_purpose::STANDARD.encode(bytes)
}

/// The encodings that return data can come in.
#[derive(Clone, Copy, Debug, PartialEq, Eq, Structural)]
pub enum ToolboxReturnDataEncoding {
    Base64,
}

/// The bytes of an execution's return data, if it has any.
pub open spec fn spec_return_data(return_data: Option<(Seq<char>, ToolboxReturnDataEncoding)>) -> Result<
    Option<Seq<u8>>,
    ToolboxEndpointError,
> {
    match return_data {
        None => Ok(None),
        Some((payload, ToolboxReturnDataEncoding::Base64)) => match base64_standard_decode(payload) {
            Some(bytes) => Ok(Some(bytes)),
            None => Err(ToolboxEndpointError::Base64Decode),
        },
    }
}

/// Decodes an execution's return data.
pub fn prepare_return_data(return_data: Option<(String, ToolboxReturnDataEncoding)>) -> (r: Result<
    Option<Vec<u8>>,
    ToolboxEndpointError,
>)
    ensures
        match r {
            Ok(Some(bytes)) => spec_return_data(
                match return_data {
                    Some((p, e)) => Some((p@, e)),
                    None => None,
                },
            ) == Ok::<Option<Seq<u8>>, ToolboxEndpointError>(Some(bytes@)),
            Ok(None) => return_data is None,
            Err(e) => spec_return_data(
                match return_data {
                    Some((p, e)) => Some((p@, e)),
                    None => None,
                },
            ) == Err::<Option<Seq<u8>>, ToolboxEndpointError>(e),
        },
{
    match return_data {
        None => Ok(None),
        Some((payload, encoding)) => match encoding {
            ToolboxReturnDataEncoding::Base64 => match base64_decode(payload.as_str()) {
                Ok(bytes) => Ok(Some(bytes)),
                Err(_) => Err(ToolboxEndpointError::Base64Decode),
            },
        },
    }
}

/// A filter on the accounts of a program.
#[derive(Debug)]
pub enum ToolboxProgramAccountsFilter {
    /// Accounts whose data is this many bytes long.
    DataSize(u64),
    /// Accounts whose data holds the bytes (given in base64) at the offset.
    MemoryCompare { offset: usize, bytes_base64: String },
}

/// The view of a filter.
pub enum ProgramAccountsFilterV {
    DataSize(u64),
    MemoryCompare(usize, Seq<char>),
}

pub open spec fn filter_view(f: ToolboxProgramAccountsFilter) -> ProgramAccountsFilterV {
    match f {
        ToolboxProgramAccountsFilter::DataSize(n) => ProgramAccountsFilterV::DataSize(n),
        ToolboxProgramAccountsFilter::MemoryCompare { offset, bytes_base64 } => ProgramAccountsFilterV::MemoryCompare(
            offset,
            bytes_base64@,
        ),
    }
}

/// The filters that select the accounts of a search: the data size first,
/// when given, then one comparison per chunk, in order.
pub open spec fn spec_search_filters(data_len: Option<usize>, data_chunks: Seq<(usize, Vec<u8>)>) -> Seq<
    ProgramAccountsFilterV,
> {
    let chunks = Seq::new(
        data_chunks.len(),
        |i: int|
            ProgramAccountsFilterV::MemoryCompare(
                data_chunks[i].0,
                base64_standard_encode(data_chunks[i].1@),
            ),
    );
    match data_len {
        Some(n) => seq![ProgramAccountsFilterV::DataSize(n as u64)] + chunks,
        None => chunks,
    }
}

/// The filters that select the accounts of a program whose data has the
/// given length (when given) and holds the given chunks at their offsets.
pub fn search_addresses_filters(data_len: Option<usize>, data_chunks: &Vec<(usize, Vec<u8>)>) -> (r:
    Vec<ToolboxProgramAccountsFilter>)
    requires
        forall|i: int| 0 <= i < data_chunks@.len() ==> #[trigger] data_chunks@[i].1@.len() <= usize::MAX / 2,
    ensures
        Seq::new(r@.len(), |i: int| filter_view(r@[i])) == spec_search_filters(data_len, data_chunks@),
{
    let mut filters: Vec<ToolboxProgramAccountsFilter> = Vec::new();
    if let Some(n) = data_len {
        filters.push(ToolboxProgramAccountsFilter::DataSize(n as u64));
    }
    let ghost head = Seq::new(filters@.len(), |i: int| filter_view(filters@[i]));
    let mut i: usize = 0;
    while i < data_chunks.len()
        invariant
            i <= data_chunks.len(),
            forall|k: int| 0 <= k < data_chunks@.len() ==> #[trigger] data_chunks@[k].1@.len() <= usize::MAX / 2,
            head == match data_len {
                Some(n) => seq![ProgramAccountsFilterV::DataSize(n as u64)],
                None => Seq::<ProgramAccountsFilterV>::empty(),
            },
            Seq::new(filters@.len(), |k: int| filter_view(filters@[k])) =~= head + Seq::new(
                i as nat,
                |k: int|
                    ProgramAccountsFilterV::MemoryCompare(
                        data_chunks@[k].0,
                        base64_standard_encode(data_chunks@[k].1@),
                    ),
            ),
        decreases data_chunks.len() - i,
    {
        let encoded = base64_encode(&data_chunks[i].1);
        let ghost prev = filters@;
        filters.push(ToolboxProgramAccountsFilter::MemoryCompare { offset: data_chunks[i].0, bytes_base64: encoded });
        proof {
            let mk = |k: int|
                ProgramAccountsFilterV::MemoryCompare(
                    data_chunks@[k].0,
                    base64_standard_encode(data_chunks@[k].1@),
                );
            assert(Seq::new((i + 1) as nat, mk) =~= Seq::new(i as nat, mk).push(mk(i as int)));
            assert(Seq::new(filters@.len(), |k: int| filter_view(filters@[k])) =~= Seq::new(
                prev.len(),
                |k: int| filter_view(prev[k]),
            ).push(filter_view(filters@[i + head.len()])));
        }
        i = i + 1;
    }
    filters
}

} // verus!
