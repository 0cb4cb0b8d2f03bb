# solana_toolbox

Tools for talking to Solana programs, with their logic proved in Verus:

- the IDL side (`src/idl_*`): parsing Anchor IDL JSON into flat types,
  instructions, accounts and PDA seeds; hydrating flat types into full types;
  encoding JSON values to bytes and decoding them back (with the proof that
  decoding what was encoded gives the same document back, whatever the
  order of its object keys, the fields coming back in the type's order);
  JSON paths;
- the endpoint side (`src/endpoint*`): choosing a transaction's signers,
  compiling instructions into a v0 message, resolving address lookup tables
  and taking compiled messages apart, the length and signature checks, the
  signature search and wait state machines, clock forwarding, return data,
  and the spl-token instructions and account layouts;
- the command line's account report (`src/cli.rs`).

`src/` is the verified library. Calls into solana-sdk, spl-token, base64
and bincode stand behind small trusted wrappers whose contracts say what the
called code does. `app/` holds what cannot be verified: the RPC and
program-test proxies, async plumbing, clap and serde_json glue, and the
floating-point token amount conversions. `tests/` runs the library with the
real outside crates.
