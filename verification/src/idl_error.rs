//! The errors that a program declares in its IDL, and how they are written
//! back out.
use vstd::prelude::*;

use crate::json::{json_entries_view, lemma_object_view, str_to_string, JsonNumber, JsonV, JsonValue};
use vstd::string::StringExecFns;

verus! {

/// An error that a program can fail with.
#[derive(Debug)]
pub struct ToolboxIdlError {
    pub name: String,
    pub code: u64,
    pub msg: String,
}

/// Choices about how IDL items are written out.
#[derive(Clone, Copy, Debug)]
pub struct ToolboxIdlFormat {
    /// An error without a message may be written as its bare code.
    pub can_shortcut_error_to_number_if_no_msg: bool,
    /// Named items are written as an object keyed by name, so the item does
    /// not repeat its name.
    pub use_object_for_unordered_named_array: bool,
}

/// The JSON that an error is written as.
pub open spec fn spec_error_export(name: Seq<char>, code: u64, msg: Seq<char>, format: ToolboxIdlFormat) -> JsonV {
    if format.can_shortcut_error_to_number_if_no_msg && msg.len() == 0 {
        JsonV::Number(JsonNumber::PosInt(code))
    } else {
        let tail = seq![
            ("code"@, JsonV::Number(JsonNumber::PosInt(code))),
            ("msg"@, JsonV::Str(msg)),
        ];
        if format.use_object_for_unordered_named_array {
            JsonV::Object(tail)
        } else {
            JsonV::Object(seq![("name"@, JsonV::Str(name))] + tail)
        }
    }
}

impl ToolboxIdlError {
    /// Writes the error out as JSON.
    pub fn export(&self, format: &ToolboxIdlFormat) -> (r: JsonValue)
        ensures
            r@ == spec_error_export(self.name@, self.code, self.msg@, *format),
    {
        if format.can_shortcut_error_to_number_if_no_msg && self.msg.as_str().is_empty() {
            return JsonValue::Number(JsonNumber::PosInt(self.code));
        }
        let mut json_object: Vec<(String, JsonValue)> = Vec::new();
        if !format.use_object_for_unordered_named_array {
            json_object.push((str_to_string("name"), JsonValue::Str(str_to_string(self.name.as_str()))));
        }
        json_object.push((str_to_string("code"), JsonValue::Number(JsonNumber::PosInt(self.code))));
        json_object.push((str_to_string("msg"), JsonValue::Str(str_to_string(self.msg.as_str()))));
        proof {
            lemma_object_view(json_object);
            let tail = seq![
                ("code"@, JsonV::Number(JsonNumber::PosInt(self.code))),
                ("msg"@, JsonV::Str(self.msg@)),
            ];
            if format.use_object_for_unordered_named_array {
                assert(json_entries_view(json_object@) =~= tail);
            } else {
                assert(json_entries_view(json_object@) =~= seq![("name"@, JsonV::Str(self.name@))] + tail);
            }
        }
        JsonValue::Object(json_object)
    }
}

} // verus!
