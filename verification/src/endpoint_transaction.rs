//! The rules for building and taking apart versioned transactions: which
//! keypairs sign, how address lookup tables are resolved, which accounts of a
//! compiled message are signers and writable, and the size and signature
//! checks.
use vstd::prelude::*;

use crate::endpoint::{pubkey_eq, AccountMeta, Instruction, InstructionV, Pubkey, ToolboxEndpoint, ToolboxEndpointError};

verus! {

/// The most bytes that a serialized transaction may take.
pub const TRANSACTION_LENGTH_LIMIT: usize = 1232;

/// Whether some instruction asks for `key` as a signer.
pub open spec fn spec_needed_signer(instructions: Seq<InstructionV>, key: Seq<u8>) -> bool {
    exists|i: int, j: int|
        0 <= i < instructions.len() && 0 <= j < instructions[i].accounts.len()
            && #[trigger] instructions[i].accounts[j].is_signer
            && instructions[i].accounts[j].pubkey@ == key
}

pub open spec fn instructions_view(instructions: Seq<Instruction>) -> Seq<InstructionV> {
    Seq::new(instructions.len(), |i: int| instructions[i]@)
}

pub open spec fn pubkeys_view(keys: Seq<Pubkey>) -> Seq<Seq<u8>> {
    Seq::new(keys.len(), |i: int| keys[i]@)
}

/// The positions, among the first `n` candidate signers, of those that sign
/// besides the payer: each one that some instruction needs, that is not the
/// payer, and that was not already chosen.
pub open spec fn spec_chosen_signers(
    payer: Seq<u8>,
    instructions: Seq<InstructionV>,
    signers: Seq<Seq<u8>>,
    n: nat,
) -> Seq<int>
    decreases n,
{
    if n == 0 || n > signers.len() {
        Seq::empty()
    } else {
        let prev = spec_chosen_signers(payer, instructions, signers, (n - 1) as nat);
        let key = signers[n - 1];
        if spec_needed_signer(instructions, key) && key != payer && !(exists|k: int|
            0 <= k < prev.len() && #[trigger] signers[prev[k]] == key) {
            prev.push(n - 1)
        } else {
            prev
        }
    }
}

/// What the first `n` candidates contribute: positions in increasing order,
/// each of a needed signer other than the payer, no key twice, and every
/// needed key other than the payer among them.
pub open spec fn chosen_signers_sound(
    payer: Seq<u8>,
    instructions: Seq<InstructionV>,
    signers: Seq<Seq<u8>>,
    n: nat,
) -> bool {
    let c = spec_chosen_signers(payer, instructions, signers, n);
    &&& forall|k: int|
        0 <= k < c.len() ==> 0 <= #[trigger] c[k] < n && spec_needed_signer(instructions, signers[c[k]])
            && signers[c[k]] != payer
    &&& forall|j: int, k: int| 0 <= j < k < c.len() ==> #[trigger] c[j] < #[trigger] c[k]
    &&& forall|j: int, k: int|
        0 <= j < k < c.len() ==> signers[#[trigger] c[j]] != signers[#[trigger] c[k]]
    &&& forall|i: int|
        0 <= i < n && spec_needed_signer(instructions, #[trigger] signers[i]) && signers[i] != payer
            ==> exists|k: int| 0 <= k < c.len() && signers[#[trigger] c[k]] == signers[i]
}

proof fn lemma_chosen_signers_sound(
    payer: Seq<u8>,
    instructions: Seq<InstructionV>,
    signers: Seq<Seq<u8>>,
    n: nat,
)
    requires
        n <= signers.len(),
    ensures
        chosen_signers_sound(payer, instructions, signers, n),
    decreases n,
{
    if n > 0 {
        lemma_chosen_signers_sound(payer, instructions, signers, (n - 1) as nat);
        let prev = spec_chosen_signers(payer, instructions, signers, (n - 1) as nat);
        let c = spec_chosen_signers(payer, instructions, signers, n);
        assert forall|i: int|
            0 <= i < n && spec_needed_signer(instructions, #[trigger] signers[i]) && signers[i] != payer
                implies exists|k: int| 0 <= k < c.len() && signers[#[trigger] c[k]] == signers[i] by {
            if i < n - 1 {
                let k = choose|k: int| 0 <= k < prev.len() && signers[#[trigger] prev[k]] == signers[i];
                assert(c[k] == prev[k]);
            } else if c.len() > prev.len() {
                assert(c[prev.len() as int] == n - 1);
            } else {
                let k = choose|k: int| 0 <= k < prev.len() && #[trigger] signers[prev[k]] == signers[n - 1];
                assert(c[k] == prev[k]);
            }
        }
    }
}

/// The signers that a transaction takes besides the payer are, in the order
/// given, each keypair that some instruction needs as a signer and that is
/// not the payer, each key once; none is left out.
pub proof fn law_chosen_signers(payer: Seq<u8>, instructions: Seq<InstructionV>, signers: Seq<Seq<u8>>)
    ensures
        chosen_signers_sound(payer, instructions, signers, signers.len()),
{
    lemma_chosen_signers_sound(payer, instructions, signers, signers.len());
}

/// Whether some instruction asks for `key` as a signer.
pub fn is_needed_signer(instructions: &Vec<Instruction>, key: &Pubkey) -> (r: bool)
    ensures
        r == spec_needed_signer(instructions_view(instructions@), key@),
{
    let ghost iv = instructions_view(instructions@);
    let mut i: usize = 0;
    while i < instructions.len()
        invariant
            i <= instructions.len(),
            iv == instructions_view(instructions@),
            forall|a: int, b: int|
                0 <= a < i && 0 <= b < iv[a].accounts.len() ==> !(#[trigger] iv[a].accounts[b].is_signer
                    && iv[a].accounts[b].pubkey@ == key@),
        decreases instructions.len() - i,
    {
        let accounts = &instructions[i].accounts;
        let mut j: usize = 0;
        while j < accounts.len()
            invariant
                i < instructions.len(),
                j <= accounts.len(),
                iv == instructions_view(instructions@),
                *accounts == instructions@[i as int].accounts,
                forall|a: int, b: int|
                    0 <= a < i && 0 <= b < iv[a].accounts.len() ==> !(#[trigger] iv[a].accounts[b].is_signer
                        && iv[a].accounts[b].pubkey@ == key@),
                forall|b: int|
                    0 <= b < j ==> !(#[trigger] iv[i as int].accounts[b].is_signer
                        && iv[i as int].accounts[b].pubkey@ == key@),
            decreases accounts.len() - j,
        {
            if accounts[j].is_signer && pubkey_eq(&accounts[j].pubkey, key) {
                proof {
                    assert(iv[i as int].accounts[j as int].is_signer);
                }
                return true;
            }
            j = j + 1;
        }
        i = i + 1;
    }
    false
}

/// The resolved address lookup table under `key`: the last one given.
pub open spec fn spec_find_table(tables: Seq<(Pubkey, Vec<Pubkey>)>, key: Seq<u8>, n: nat) -> Option<int>
    decreases n,
{
    if n == 0 || n > tables.len() {
        None
    } else if tables[n - 1].0@ == key {
        Some(n - 1)
    } else {
        spec_find_table(tables, key, (n - 1) as nat)
    }
}

/// The addresses that the first `n` indexes pick from a table.
pub open spec fn spec_pick(table: Seq<Pubkey>, indexes: Seq<u8>, n: nat) -> Option<Seq<Pubkey>>
    decreases n,
{
    if n == 0 || n > indexes.len() {
        Some(Seq::empty())
    } else {
        match spec_pick(table, indexes, (n - 1) as nat) {
            None => None,
            Some(prev) => if (indexes[n - 1] as int) < table.len() {
                Some(prev.push(table[indexes[n - 1] as int]))
            } else {
                None
            },
        }
    }
}

/// A lookup of addresses in an address lookup table.
#[derive(Debug)]
pub struct MessageAddressTableLookup {
    pub account_key: Pubkey,
    pub writable_indexes: Vec<u8>,
    pub readonly_indexes: Vec<u8>,
}

/// The writable and readonly addresses that the first `n` lookups load, in
/// order.
pub open spec fn spec_resolve_lookups(
    lookups: Seq<MessageAddressTableLookup>,
    tables: Seq<(Pubkey, Vec<Pubkey>)>,
    n: nat,
) -> Result<(Seq<Pubkey>, Seq<Pubkey>), ToolboxEndpointError>
    decreases n,
{
    if n == 0 || n > lookups.len() {
        Ok((Seq::empty(), Seq::empty()))
    } else {
        match spec_resolve_lookups(lookups, tables, (n - 1) as nat) {
            Err(e) => Err(e),
            Ok((writable, readonly)) => {
                let lookup = lookups[n - 1];
                match spec_find_table(tables, lookup.account_key@, tables.len()) {
                    None => Err(ToolboxEndpointError::AddressTableLookupIndexOverflow),
                    Some(t) => {
                        let table = tables[t].1@;
                        match spec_pick(table, lookup.writable_indexes@, lookup.writable_indexes@.len()) {
                            None => Err(ToolboxEndpointError::AddressTableLookupIndexOverflow),
                            Some(w) => match spec_pick(
                                table,
                                lookup.readonly_indexes@,
                                lookup.readonly_indexes@.len(),
                            ) {
                                None => Err(ToolboxEndpointError::AddressTableLookupIndexOverflow),
                                Some(r) => Ok((writable + w, readonly + r)),
                            },
                        }
                    },
                }
            },
        }
    }
}

/// The header of a compiled message.
#[derive(Clone, Copy, Debug)]
pub struct MessageHeader {
    pub num_required_signatures: u8,
    pub num_readonly_signed_accounts: u8,
    pub num_readonly_unsigned_accounts: u8,
}

/// An instruction of a compiled message: indexes into the message's accounts.
#[derive(Debug)]
pub struct CompiledInstruction {
    pub program_id_index: u8,
    pub accounts: Vec<u8>,
    pub data: Vec<u8>,
}

pub open spec fn sat_sub(a: int, b: int) -> int {
    if a > b {
        a - b
    } else {
        0
    }
}

/// Whether the account at `index` of a message signs it.
pub open spec fn spec_is_signer(header: MessageHeader, index: int) -> bool {
    index < header.num_required_signatures
}

/// Whether the account at `index` of a message is writable: a signer unless
/// among the last readonly signers, a static non-signer unless among the last
/// readonly non-signers, a loaded address if loaded as writable.
pub open spec fn spec_is_writable(
    header: MessageHeader,
    num_static: int,
    num_loaded_writable: int,
    index: int,
) -> bool {
    let num_signed = header.num_required_signatures as int;
    if index < num_static {
        if index < num_signed {
            index < sat_sub(num_signed, header.num_readonly_signed_accounts as int)
        } else {
            index - num_signed < sat_sub(
                sat_sub(num_static, num_signed),
                header.num_readonly_unsigned_accounts as int,
            )
        }
    } else {
        index - num_static < num_loaded_writable
    }
}

/// The account metas that the first `n` indexes of a compiled instruction
/// denote, or `None` when one is past the end of `keys`.
pub open spec fn spec_decompile_metas(
    header: MessageHeader,
    keys: Seq<Pubkey>,
    num_static: int,
    num_loaded_writable: int,
    indexes: Seq<u8>,
    n: nat,
) -> Option<Seq<AccountMeta>>
    decreases n,
{
    if n == 0 || n > indexes.len() {
        Some(Seq::empty())
    } else {
        match spec_decompile_metas(header, keys, num_static, num_loaded_writable, indexes, (n - 1) as nat) {
            None => None,
            Some(prev) => {
                let k = indexes[n - 1] as int;
                if k < keys.len() {
                    Some(
                        prev.push(
                            AccountMeta {
                                pubkey: keys[k],
                                is_signer: spec_is_signer(header, k),
                                is_writable: spec_is_writable(header, num_static, num_loaded_writable, k),
                            },
                        ),
                    )
                } else {
                    None
                }
            },
        }
    }
}

/// The instructions that the first `n` compiled instructions denote.
pub open spec fn spec_decompile_instructions(
    header: MessageHeader,
    keys: Seq<Pubkey>,
    num_static: int,
    num_loaded_writable: int,
    compiled: Seq<CompiledInstruction>,
    n: nat,
) -> Result<Seq<InstructionV>, ToolboxEndpointError>
    decreases n,
{
    if n == 0 || n > compiled.len() {
        Ok(Seq::empty())
    } else {
        match spec_decompile_instructions(header, keys, num_static, num_loaded_writable, compiled, (n - 1) as nat) {
            Err(e) => Err(e),
            Ok(prev) => {
                let c = compiled[n - 1];
                let p = c.program_id_index as int;
                if p < keys.len() {
                    match spec_decompile_metas(header, keys, num_static, num_loaded_writable, c.accounts@, c.accounts@.len()) {
                        Some(accounts) => Ok(prev.push(InstructionV { program_id: keys[p], accounts, data: c.data@ })),
                        None => Err(ToolboxEndpointError::InvalidAccountIndex),
                    }
                } else {
                    Err(ToolboxEndpointError::InvalidAccountIndex)
                }
            },
        }
    }
}

/// The payer and instructions of a compiled message, given the addresses its
/// lookups loaded.
pub open spec fn spec_decompile_message(
    header: MessageHeader,
    static_addresses: Seq<Pubkey>,
    loaded_writable: Seq<Pubkey>,
    loaded_readonly: Seq<Pubkey>,
    compiled: Seq<CompiledInstruction>,
) -> Result<(Pubkey, Seq<InstructionV>), ToolboxEndpointError> {
    if static_addresses.len() == 0 {
        Err(ToolboxEndpointError::MissingPayer)
    } else {
        let keys = static_addresses + loaded_writable + loaded_readonly;
        match spec_decompile_instructions(
            header,
            keys,
            static_addresses.len() as int,
            loaded_writable.len() as int,
            compiled,
            compiled.len(),
        ) {
            Err(e) => Err(e),
            Ok(instructions) => Ok((static_addresses[0], instructions)),
        }
    }
}

/// The payer and instructions of a compiled message whose lookups are
/// resolved with the given tables (refused, as a lookup overflow, when the
/// addresses would not fit the machine's word).
pub open spec fn spec_decompile_versioned(
    header: MessageHeader,
    static_addresses: Seq<Pubkey>,
    lookups: Seq<MessageAddressTableLookup>,
    compiled: Seq<CompiledInstruction>,
    tables: Seq<(Pubkey, Vec<Pubkey>)>,
) -> Result<(Pubkey, Seq<InstructionV>), ToolboxEndpointError> {
    match spec_resolve_lookups(lookups, tables, lookups.len()) {
        Err(e) => Err(e),
        Ok((writable, readonly)) => if static_addresses.len() + writable.len() + readonly.len()
            > usize::MAX {
            Err(ToolboxEndpointError::AddressTableLookupIndexOverflow)
        } else {
            spec_decompile_message(header, static_addresses, writable, readonly, compiled)
        },
    }
}

/// Once resolving lookups fails, resolving more of them fails the same way.
proof fn lemma_resolve_err_stable(
    lookups: Seq<MessageAddressTableLookup>,
    tables: Seq<(Pubkey, Vec<Pubkey>)>,
    i: nat,
    n: nat,
)
    requires
        i <= n <= lookups.len(),
        spec_resolve_lookups(lookups, tables, i) is Err,
    ensures
        spec_resolve_lookups(lookups, tables, n) == spec_resolve_lookups(lookups, tables, i),
    decreases n - i,
{
    if i < n {
        lemma_resolve_err_stable(lookups, tables, i, (n - 1) as nat);
    }
}

proof fn lemma_pick_none_stable(table: Seq<Pubkey>, indexes: Seq<u8>, i: nat, n: nat)
    requires
        i <= n <= indexes.len(),
        spec_pick(table, indexes, i) is None,
    ensures
        spec_pick(table, indexes, n) is None,
    decreases n - i,
{
    if i < n {
        lemma_pick_none_stable(table, indexes, i, (n - 1) as nat);
    }
}

proof fn lemma_metas_none_stable(
    header: MessageHeader,
    keys: Seq<Pubkey>,
    num_static: int,
    num_loaded_writable: int,
    indexes: Seq<u8>,
    i: nat,
    n: nat,
)
    requires
        i <= n <= indexes.len(),
        spec_decompile_metas(header, keys, num_static, num_loaded_writable, indexes, i) is None,
    ensures
        spec_decompile_metas(header, keys, num_static, num_loaded_writable, indexes, n) is None,
    decreases n - i,
{
    if i < n {
        lemma_metas_none_stable(header, keys, num_static, num_loaded_writable, indexes, i, (n - 1) as nat);
    }
}

proof fn lemma_instructions_err_stable(
    header: MessageHeader,
    keys: Seq<Pubkey>,
    num_static: int,
    num_loaded_writable: int,
    compiled: Seq<CompiledInstruction>,
    i: nat,
    n: nat,
)
    requires
        i <= n <= compiled.len(),
        spec_decompile_instructions(header, keys, num_static, num_loaded_writable, compiled, i) is Err,
    ensures
        spec_decompile_instructions(header, keys, num_static, num_loaded_writable, compiled, n)
            == spec_decompile_instructions(header, keys, num_static, num_loaded_writable, compiled, i),
    decreases n - i,
{
    if i < n {
        lemma_instructions_err_stable(header, keys, num_static, num_loaded_writable, compiled, i, (n - 1) as nat);
    }
}

/// Copies the addresses that `indexes` pick from `table` to the end of `out`.
fn pick_addresses(table: &Vec<Pubkey>, indexes: &Vec<u8>, out: &mut Vec<Pubkey>) -> (r: bool)
    ensures
        match spec_pick(table@, indexes@, indexes@.len()) {
            Some(picked) => r && final(out)@ == old(out)@ + picked,
            None => !r,
        },
{
    let ghost start = out@;
    let mut i: usize = 0;
    while i < indexes.len()
        invariant
            i <= indexes.len(),
            spec_pick(table@, indexes@, i as nat) matches Some(picked) && out@ == start + picked,
        decreases indexes.len() - i,
    {
        let index = indexes[i] as usize;
        if index >= table.len() {
            proof {
                lemma_pick_none_stable(table@, indexes@, (i + 1) as nat, indexes@.len());
            }
            return false;
        }
        let ghost prev = out@;
        out.push(table[index]);
        proof {
            let picked = spec_pick(table@, indexes@, i as nat)->0;
            assert(out@ =~= start + picked.push(table@[index as int]));
        }
        i = i + 1;
    }
    true
}

impl<P, L> ToolboxEndpoint<P, L> {
    /// The candidate signers that sign besides the payer, by position: those
    /// that some instruction needs, other than the payer, each once, in the
    /// order given.
    pub fn compile_versioned_transaction_signers(
        payer: &Pubkey,
        instructions: &Vec<Instruction>,
        signers: &Vec<Pubkey>,
    ) -> (r: Vec<usize>)
        ensures
            r@.len() == spec_chosen_signers(
                payer@,
                instructions_view(instructions@),
                pubkeys_view(signers@),
                signers@.len(),
            ).len(),
            forall|k: int|
                0 <= k < r@.len() ==> r@[k] as int == #[trigger] spec_chosen_signers(
                    payer@,
                    instructions_view(instructions@),
                    pubkeys_view(signers@),
                    signers@.len(),
                )[k],
    {
        let ghost iv = instructions_view(instructions@);
        let ghost sv = pubkeys_view(signers@);
        let mut chosen: Vec<usize> = Vec::new();
        let mut i: usize = 0;
        while i < signers.len()
            invariant
                i <= signers.len(),
                iv == instructions_view(instructions@),
                sv == pubkeys_view(signers@),
                chosen@.len() == spec_chosen_signers(payer@, iv, sv, i as nat).len(),
                forall|k: int|
                    0 <= k < chosen@.len() ==> chosen@[k] as int == #[trigger] spec_chosen_signers(
                        payer@,
                        iv,
                        sv,
                        i as nat,
                    )[k],
                forall|k: int| 0 <= k < chosen@.len() ==> #[trigger] chosen@[k] < i,
            decreases signers.len() - i,
        {
            let candidate = &signers[i];
            let ghost prev = spec_chosen_signers(payer@, iv, sv, i as nat);
            let needed = is_needed_signer(instructions, candidate);
            let is_payer = pubkey_eq(candidate, payer);
            let mut seen = false;
            let mut k: usize = 0;
            while k < chosen.len()
                invariant
                    k <= chosen.len(),
                    i < signers.len(),
                    sv == pubkeys_view(signers@),
                    chosen@.len() == prev.len(),
                    *candidate == signers@[i as int],
                    forall|m: int| 0 <= m < chosen@.len() ==> chosen@[m] as int == #[trigger] prev[m],
                    forall|m: int| 0 <= m < chosen@.len() ==> #[trigger] chosen@[m] < i,
                    seen == exists|m: int| 0 <= m < k && #[trigger] sv[prev[m]] == sv[i as int],
                decreases chosen.len() - k,
            {
                proof {
                    assert(sv[prev[k as int]] == signers@[chosen@[k as int] as int]@);
                    assert(sv[i as int] == signers@[i as int]@);
                }
                if pubkey_eq(&signers[chosen[k]], candidate) {
                    seen = true;
                }
                k = k + 1;
            }
            if needed && !is_payer && !seen {
                chosen.push(i);
            }
            proof {
                assert(sv[i as int] == signers@[i as int]@);
            }
            i = i + 1;
        }
        chosen
    }

    /// The writable and readonly addresses that address table lookups load,
    /// from the given resolved tables (the last one given under a key counts).
    pub fn resolve_address_table_lookups(
        lookups: &Vec<MessageAddressTableLookup>,
        resolved_address_lookup_tables: &Vec<(Pubkey, Vec<Pubkey>)>,
    ) -> (r: Result<(Vec<Pubkey>, Vec<Pubkey>), ToolboxEndpointError>)
        ensures
            match r {
                Ok((w, ro)) => spec_resolve_lookups(lookups@, resolved_address_lookup_tables@, lookups@.len())
                    == Ok::<(Seq<Pubkey>, Seq<Pubkey>), ToolboxEndpointError>((w@, ro@)),
                Err(e) => spec_resolve_lookups(lookups@, resolved_address_lookup_tables@, lookups@.len())
                    == Err::<(Seq<Pubkey>, Seq<Pubkey>), ToolboxEndpointError>(e),
            },
    {
        let ghost tables = resolved_address_lookup_tables@;
        let mut loaded_writable: Vec<Pubkey> = Vec::new();
        let mut loaded_readonly: Vec<Pubkey> = Vec::new();
        let mut i: usize = 0;
        while i < lookups.len()
            invariant
                i <= lookups.len(),
                tables == resolved_address_lookup_tables@,
                spec_resolve_lookups(lookups@, tables, i as nat) == Ok::<
                    (Seq<Pubkey>, Seq<Pubkey>),
                    ToolboxEndpointError,
                >((loaded_writable@, loaded_readonly@)),
            decreases lookups.len() - i,
        {
            let lookup = &lookups[i];
            let mut t = resolved_address_lookup_tables.len();
            let mut found: Option<usize> = None;
            while t > 0
                invariant
                    t <= tables.len(),
                    tables == resolved_address_lookup_tables@,
                    found is None ==> spec_find_table(tables, lookup.account_key@, tables.len())
                        == spec_find_table(tables, lookup.account_key@, t as nat),
                    found matches Some(f) ==> spec_find_table(tables, lookup.account_key@, tables.len())
                        == Some(f as int) && f < tables.len(),
                decreases t,
            {
                if found.is_none() && pubkey_eq(&resolved_address_lookup_tables[t - 1].0, &lookup.account_key) {
                    found = Some(t - 1);
                }
                t = t - 1;
            }
            let table_index = match found {
                Some(f) => f,
                None => {
                    proof {
                        lemma_resolve_err_stable(lookups@, tables, (i + 1) as nat, lookups@.len());
                    }
                    return Err(ToolboxEndpointError::AddressTableLookupIndexOverflow);
                },
            };
            let table = &resolved_address_lookup_tables[table_index].1;
            let ghost w0 = loaded_writable@;
            if !pick_addresses(table, &lookup.writable_indexes, &mut loaded_writable) {
                proof {
                    lemma_resolve_err_stable(lookups@, tables, (i + 1) as nat, lookups@.len());
                }
                return Err(ToolboxEndpointError::AddressTableLookupIndexOverflow);
            }
            if !pick_addresses(table, &lookup.readonly_indexes, &mut loaded_readonly) {
                proof {
                    lemma_resolve_err_stable(lookups@, tables, (i + 1) as nat, lookups@.len());
                }
                return Err(ToolboxEndpointError::AddressTableLookupIndexOverflow);
            }
            i = i + 1;
        }
        Ok((loaded_writable, loaded_readonly))
    }

    /// The payer and instructions of a compiled message, given the addresses
    /// that its lookups loaded.
    pub fn decompile_parts_with_loaded_addresses(
        header: MessageHeader,
        static_addresses: &Vec<Pubkey>,
        loaded_writable_addresses: &Vec<Pubkey>,
        loaded_readonly_addresses: &Vec<Pubkey>,
        compiled_instructions: &Vec<CompiledInstruction>,
    ) -> (r: Result<(Pubkey, Vec<Instruction>), ToolboxEndpointError>)
        requires
            static_addresses@.len() + loaded_writable_addresses@.len()
                + loaded_readonly_addresses@.len() <= usize::MAX,
        ensures
            match r {
                Ok((payer, instructions)) => spec_decompile_message(
                    header,
                    static_addresses@,
                    loaded_writable_addresses@,
                    loaded_readonly_addresses@,
                    compiled_instructions@,
                ) == Ok::<(Pubkey, Seq<InstructionV>), ToolboxEndpointError>(
                    (payer, instructions_view(instructions@)),
                ),
                Err(e) => spec_decompile_message(
                    header,
                    static_addresses@,
                    loaded_writable_addresses@,
                    loaded_readonly_addresses@,
                    compiled_instructions@,
                ) == Err::<(Pubkey, Seq<InstructionV>), ToolboxEndpointError>(e),
            },
    {
        if static_addresses.len() == 0 {
            return Err(ToolboxEndpointError::MissingPayer);
        }
        let payer = static_addresses[0];
        let mut keys: Vec<Pubkey> = Vec::new();
        let mut k: usize = 0;
        while k < static_addresses.len()
            invariant
                k <= static_addresses.len(),
                keys@ =~= static_addresses@.take(k as int),
            decreases static_addresses.len() - k,
        {
            keys.push(static_addresses[k]);
            k = k + 1;
        }
        k = 0;
        while k < loaded_writable_addresses.len()
            invariant
                k <= loaded_writable_addresses.len(),
                keys@ =~= static_addresses@ + loaded_writable_addresses@.take(k as int),
            decreases loaded_writable_addresses.len() - k,
        {
            keys.push(loaded_writable_addresses[k]);
            k = k + 1;
        }
        k = 0;
        while k < loaded_readonly_addresses.len()
            invariant
                k <= loaded_readonly_addresses.len(),
                keys@ =~= static_addresses@ + loaded_writable_addresses@
                    + loaded_readonly_addresses@.take(k as int),
            decreases loaded_readonly_addresses.len() - k,
        {
            keys.push(loaded_readonly_addresses[k]);
            k = k + 1;
        }
        proof {
            assert(loaded_readonly_addresses@.take(loaded_readonly_addresses@.len() as int)
                =~= loaded_readonly_addresses@);
            assert(loaded_writable_addresses@.take(loaded_writable_addresses@.len() as int)
                =~= loaded_writable_addresses@);
            assert(static_addresses@.take(static_addresses@.len() as int) =~= static_addresses@);
        }
        let num_static = static_addresses.len();
        let num_loaded_writable = loaded_writable_addresses.len();
        let num_signed = header.num_required_signatures as usize;
        let ghost ks = keys@;
        let ghost compiled = compiled_instructions@;
        let mut instructions: Vec<Instruction> = Vec::new();
        proof {
            assert(instructions_view(instructions@) =~= Seq::<InstructionV>::empty());
        }
        let mut i: usize = 0;
        while i < compiled_instructions.len()
            invariant
                i <= compiled_instructions.len(),
                instructions@.len() == i,
                ks == keys@,
                ks == static_addresses@ + loaded_writable_addresses@ + loaded_readonly_addresses@,
                compiled == compiled_instructions@,
                num_static == static_addresses@.len(),
                num_static > 0,
                num_loaded_writable == loaded_writable_addresses@.len(),
                num_signed == header.num_required_signatures,
                keys@.len() == num_static + num_loaded_writable + loaded_readonly_addresses@.len(),
                spec_decompile_instructions(
                    header,
                    ks,
                    num_static as int,
                    num_loaded_writable as int,
                    compiled,
                    i as nat,
                ) == Ok::<Seq<InstructionV>, ToolboxEndpointError>(instructions_view(instructions@)),
            decreases compiled_instructions.len() - i,
        {
            let c = &compiled_instructions[i];
            let program_index = c.program_id_index as usize;
            if program_index >= keys.len() {
                proof {
                    lemma_instructions_err_stable(header, ks, num_static as int, num_loaded_writable as int, compiled, (i + 1) as nat, compiled.len());
                }
                return Err(ToolboxEndpointError::InvalidAccountIndex);
            }
            let mut accounts: Vec<AccountMeta> = Vec::new();
            let mut j: usize = 0;
            while j < c.accounts.len()
                invariant
                    j <= c.accounts.len(),
                    i < compiled.len(),
                    (c.program_id_index as int) < ks.len(),
                    spec_decompile_instructions(header, ks, num_static as int, num_loaded_writable as int, compiled, i as nat) is Ok,
                    compiled == compiled_instructions@,
                    ks == keys@,
                    *c == compiled[i as int],
                    num_static == static_addresses@.len(),
                    num_static > 0,
                    ks == static_addresses@ + loaded_writable_addresses@ + loaded_readonly_addresses@,
                    num_loaded_writable == loaded_writable_addresses@.len(),
                    num_signed == header.num_required_signatures,
                    keys@.len() == num_static + num_loaded_writable + loaded_readonly_addresses@.len(),
                    spec_decompile_metas(header, ks, num_static as int, num_loaded_writable as int, c.accounts@, j as nat)
                        == Some(accounts@),
                decreases c.accounts.len() - j,
            {
                let index = c.accounts[j] as usize;
                if index >= keys.len() {
                    proof {
                        lemma_metas_none_stable(header, ks, num_static as int, num_loaded_writable as int, c.accounts@, (j + 1) as nat, c.accounts@.len());
                        lemma_instructions_err_stable(header, ks, num_static as int, num_loaded_writable as int, compiled, (i + 1) as nat, compiled.len());
                    }
                    return Err(ToolboxEndpointError::InvalidAccountIndex);
                }
                let is_signer = index < num_signed;
                let is_writable = if index < num_static {
                    if index < num_signed {
                        let readonly_signed = header.num_readonly_signed_accounts as usize;
                        index + readonly_signed < num_signed
                    } else {
                        let readonly_unsigned = header.num_readonly_unsigned_accounts as usize;
                        (index - num_signed) + readonly_unsigned < num_static - num_signed
                    }
                } else {
                    index - num_static < num_loaded_writable
                };
                accounts.push(AccountMeta { pubkey: keys[index], is_signer, is_writable });
                j = j + 1;
            }
            let ghost prev = instructions@;
            instructions.push(
                Instruction { program_id: keys[program_index], accounts, data: slice_to_vec_u8(&c.data) },
            );
            proof {
                assert(instructions_view(instructions@) =~= instructions_view(prev).push(instructions@[i as int]@));
            }
            i = i + 1;
        }
        Ok((payer, instructions))
    }

    /// The payer and instructions of a compiled message: its address table
    /// lookups are resolved with the given tables, then its instructions are
    /// read against the static and loaded addresses.
    pub fn decompile_message_parts(
        header: MessageHeader,
        static_addresses: &Vec<Pubkey>,
        address_table_lookups: &Vec<MessageAddressTableLookup>,
        compiled_instructions: &Vec<CompiledInstruction>,
        resolved_address_lookup_tables: &Vec<(Pubkey, Vec<Pubkey>)>,
    ) -> (r: Result<(Pubkey, Vec<Instruction>), ToolboxEndpointError>)
        ensures
            match r {
                Ok((payer, instructions)) => spec_decompile_versioned(
                    header,
                    static_addresses@,
                    address_table_lookups@,
                    compiled_instructions@,
                    resolved_address_lookup_tables@,
                ) == Ok::<(Pubkey, Seq<InstructionV>), ToolboxEndpointError>(
                    (payer, instructions_view(instructions@)),
                ),
                Err(e) => spec_decompile_versioned(
                    header,
                    static_addresses@,
                    address_table_lookups@,
                    compiled_instructions@,
                    resolved_address_lookup_tables@,
                ) == Err::<(Pubkey, Seq<InstructionV>), ToolboxEndpointError>(e),
            },
    {
        let (loaded_writable, loaded_readonly) = match Self::resolve_address_table_lookups(
            address_table_lookups,
            resolved_address_lookup_tables,
        ) {
            Ok(loaded) => loaded,
            Err(e) => {
                return Err(e);
            },
        };
        if loaded_writable.len() > usize::MAX - loaded_readonly.len() || static_addresses.len()
            > usize::MAX - loaded_writable.len() - loaded_readonly.len() {
            return Err(ToolboxEndpointError::AddressTableLookupIndexOverflow);
        }
        Self::decompile_parts_with_loaded_addresses(
            header,
            static_addresses,
            &loaded_writable,
            &loaded_readonly,
            compiled_instructions,
        )
    }

    /// Checks that a serialized transaction's length fits in a packet.
    pub fn check_transaction_length(transaction_length: usize) -> (r: Result<
        (),
        ToolboxEndpointError,
    >)
        ensures
            r is Ok <==> transaction_length <= TRANSACTION_LENGTH_LIMIT,
            r matches Err(e) ==> e == ToolboxEndpointError::TransactionTooLong,
    {
        if transaction_length > TRANSACTION_LENGTH_LIMIT {
            return Err(ToolboxEndpointError::TransactionTooLong);
        }
        Ok(())
    }

    /// Checks a transaction's signature verification results: there must be
    /// as many as it requires, and all must hold.
    pub fn check_signature_results(
        verified_signatures: &Vec<bool>,
        num_required_signatures: u8,
    ) -> (r: Result<(), ToolboxEndpointError>)
        ensures
            verified_signatures@.len() != num_required_signatures ==> r == Err::<
                (),
                ToolboxEndpointError,
            >(ToolboxEndpointError::SignatureCountMismatch),
            verified_signatures@.len() == num_required_signatures ==> (r is Ok <==> forall|i: int|
                0 <= i < verified_signatures@.len() ==> #[trigger] verified_signatures@[i]),
            verified_signatures@.len() == num_required_signatures && r is Err ==> r == Err::<
                (),
                ToolboxEndpointError,
            >(ToolboxEndpointError::InvalidSignatures),
    {
        let found_signatures = verified_signatures.len();
        let expected_signatures = num_required_signatures as usize;
        if found_signatures != expected_signatures {
            return Err(ToolboxEndpointError::SignatureCountMismatch);
        }
        let mut i: usize = 0;
        while i < verified_signatures.len()
            invariant
                i <= verified_signatures.len(),
                verified_signatures@.len() == num_required_signatures,
                forall|k: int| 0 <= k < i ==> #[trigger] verified_signatures@[k],
            decreases verified_signatures.len() - i,
        {
            if !verified_signatures[i] {
                return Err(ToolboxEndpointError::InvalidSignatures);
            }
            i = i + 1;
        }
        Ok(())
    }
}

/// A copy of a byte vector.
pub fn slice_to_vec_u8(bytes: &Vec<u8>) -> (r: Vec<u8>)
    ensures
        r@ == bytes@,
{
    let mut out: Vec<u8> = Vec::new();
    let mut i: usize = 0;
    while i < bytes.len()
        invariant
            i <= bytes.len(),
            out@ =~= bytes@.take(i as int),
        decreases bytes.len() - i,
    {
        out.push(bytes[i]);
        i = i + 1;
    }
    proof {
        assert(bytes@.take(bytes@.len() as int) =~= bytes@);
    }
    out
}

} // verus!
