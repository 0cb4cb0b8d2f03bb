//! The command-line `account` command: its argument, and the JSON report it
//! prints about an account.
use vstd::prelude::*;

use crate::json::{str_to_string, JsonNumber, JsonV, JsonValue};

verus! {

/// The arguments of the `account` command: any account's address.
#[derive(Debug)]
pub struct ToolboxCliCommandAccountArgs {
    pub address: String,
}

/// What the `account` command reports about an account.
pub open spec fn spec_account_report(
    address: Seq<char>,
    lamports: u64,
    owner: Seq<char>,
    name: Seq<char>,
    state: JsonV,
    space: u64,
    explorer_url: Seq<char>,
) -> JsonV {
    JsonV::Object(
        seq![
            ("address"@, JsonV::Str(address)),
            ("lamports"@, JsonV::Number(JsonNumber::PosInt(lamports))),
            ("owner"@, JsonV::Str(owner)),
            ("name"@, JsonV::Str(name)),
            ("state"@, state),
            ("space"@, JsonV::Number(JsonNumber::PosInt(space))),
            ("explorer_url"@, JsonV::Str(explorer_url)),
        ],
    )
}

impl ToolboxCliCommandAccountArgs {
    /// The JSON report of an account: its address, lamports, owner, the name
    /// of its type, its decoded state, its size and its explorer link.
    pub fn report(
        address: String,
        lamports: u64,
        owner: String,
        name: String,
        state: JsonValue,
        space: u64,
        explorer_url: String,
    ) -> (r: JsonValue)
        ensures
            r@ == spec_account_report(
                address@,
                lamports,
                owner@,
                name@,
                state@,
                space,
                explorer_url@,
            ),
    {
        let ghost state_view = state@;
        let ghost (a, o, n, e) = (address@, owner@, name@, explorer_url@);
        let mut entries: Vec<(String, JsonValue)> = Vec::new();
        entries.push((str_to_string("address"), JsonValue::Str(address)));
        entries.push((str_to_string("lamports"), JsonValue::Number(JsonNumber::PosInt(lamports))));
        entries.push((str_to_string("owner"), JsonValue::Str(owner)));
        entries.push((str_to_string("name"), JsonValue::Str(name)));
        entries.push((str_to_string("state"), state));
        entries.push((str_to_string("space"), JsonValue::Number(JsonNumber::PosInt(space))));
        entries.push((str_to_string("explorer_url"), JsonValue::Str(explorer_url)));
        proof {
            crate::json::lemma_object_view(entries);
            assert(crate::json::json_entries_view(entries@) =~= spec_account_report(
                a,
                lamports,
                o,
                n,
                state_view,
                space,
                e,
            )->Object_0);
        }
        JsonValue::Object(entries)
    }
}

} // verus!
