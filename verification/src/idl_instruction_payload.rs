//! An instruction's data: its discriminator followed by its arguments.
use vstd::prelude::*;

use crate::idl_instruction::ToolboxIdlInstruction;
use crate::idl_transform_error::ToolboxIdlTransformError;
use crate::idl_type_full::{full_fields_view, FullFieldsV};
use crate::idl_type_full_deserialize::spec_deserialize_fields;
use crate::idl_type_full_reorder::{
    json_same,
    lemma_fields_roundtrip_any_order,
    spec_canonical_unordered_fields,
};
use crate::idl_type_full_roundtrip::{lemma_fields_roundtrip, spec_canonical_fields};
use crate::idl_type_full_serialize::{appended, spec_serialize_fields};
use crate::json::{JsonV, JsonValue};

verus! {

/// The data of an instruction whose arguments have the value `v`.
pub open spec fn spec_encode_payload(discriminator: Seq<u8>, args: FullFieldsV, v: JsonV) -> Result<
    Seq<u8>,
    ToolboxIdlTransformError,
> {
    match spec_serialize_fields(args, v) {
        Ok(b) => Ok(discriminator + b),
        Err(e) => Err(e),
    }
}

/// The arguments that instruction data holds: refused unless it starts with
/// the discriminator; the bytes after the arguments are not looked at.
pub open spec fn spec_decode_payload(discriminator: Seq<u8>, args: FullFieldsV, data: Seq<u8>) -> Result<
    JsonV,
    ToolboxIdlTransformError,
> {
    if discriminator.len() <= data.len() && data.take(discriminator.len() as int) == discriminator {
        match spec_deserialize_fields(args, data, discriminator.len()) {
            Ok((_, v)) => Ok(v),
            Err(e) => Err(e),
        }
    } else {
        Err(ToolboxIdlTransformError::InvalidDiscriminator)
    }
}

/// Law: decoding the data that arguments in canonical form encode to gives
/// the arguments back.
pub proof fn law_decode_encode_payload(discriminator: Seq<u8>, args: FullFieldsV, v: JsonV)
    requires
        spec_canonical_fields(args, v),
        spec_encode_payload(discriminator, args, v) is Ok,
    ensures
        spec_decode_payload(discriminator, args, spec_encode_payload(discriminator, args, v)->Ok_0)
            == Ok::<JsonV, ToolboxIdlTransformError>(v),
{
    let b = spec_serialize_fields(args, v)->Ok_0;
    let data = discriminator + b;
    lemma_fields_roundtrip(args, v, discriminator, Seq::empty());
    assert(discriminator + b + Seq::<u8>::empty() =~= data);
    assert(data.take(discriminator.len() as int) =~= discriminator);
}

/// Law: decoding the data that arguments encode to gives the same arguments
/// back, whatever the order of the keys of their objects: each argument
/// (and each field of a nested struct) named once, in any order, with no
/// other key.
pub proof fn law_decode_encode_payload_any_order(discriminator: Seq<u8>, args: FullFieldsV, v: JsonV)
    requires
        spec_canonical_unordered_fields(args, v),
        spec_encode_payload(discriminator, args, v) is Ok,
    ensures
        spec_decode_payload(discriminator, args, spec_encode_payload(discriminator, args, v)->Ok_0) matches Ok(
            w,
        ) && json_same(w, v),
{
    let b = spec_serialize_fields(args, v)->Ok_0;
    let data = discriminator + b;
    lemma_fields_roundtrip_any_order(args, v, discriminator, Seq::empty());
    assert(discriminator + b + Seq::<u8>::empty() =~= data);
    assert(data.take(discriminator.len() as int) =~= discriminator);
}

impl ToolboxIdlInstruction {
    /// Encodes an instruction's arguments, after its discriminator.
    pub fn encode_payload(&self, instruction_payload: &JsonValue) -> (r: Result<
        Vec<u8>,
        ToolboxIdlTransformError,
    >)
        ensures
            match r {
                Ok(data) => spec_encode_payload(
                    self.discriminator@,
                    full_fields_view(self.args_type_full_fields),
                    instruction_payload@,
                ) == Ok::<Seq<u8>, ToolboxIdlTransformError>(data@),
                Err(e) => spec_encode_payload(
                    self.discriminator@,
                    full_fields_view(self.args_type_full_fields),
                    instruction_payload@,
                ) == Err::<Seq<u8>, ToolboxIdlTransformError>(e),
            },
    {
        let mut data: Vec<u8> = Vec::new();
        let mut i: usize = 0;
        while i < self.discriminator.len()
            invariant
                i <= self.discriminator@.len(),
                data@ == self.discriminator@.take(i as int),
            decreases self.discriminator@.len() - i,
        {
            data.push(self.discriminator[i]);
            proof {
                assert(self.discriminator@.take(i + 1) =~= self.discriminator@.take(i as int).push(
                    self.discriminator@[i as int],
                ));
            }
            i = i + 1;
        }
        proof {
            assert(self.discriminator@.take(self.discriminator@.len() as int) =~= self.discriminator@);
        }
        let r = self.args_type_full_fields.try_serialize(instruction_payload, &mut data);
        proof {
            assert(appended(
                r,
                spec_serialize_fields(full_fields_view(self.args_type_full_fields), instruction_payload@),
                self.discriminator@,
                data@,
            ));
        }
        match r {
            Ok(_) => Ok(data),
            Err(e) => Err(e),
        }
    }

    /// Decodes an instruction's arguments from its data, which must start
    /// with the discriminator.
    pub fn decode_payload(&self, instruction_data: &[u8]) -> (r: Result<
        JsonValue,
        ToolboxIdlTransformError,
    >)
        ensures
            match r {
                Ok(v) => spec_decode_payload(
                    self.discriminator@,
                    full_fields_view(self.args_type_full_fields),
                    instruction_data@,
                ) == Ok::<JsonV, ToolboxIdlTransformError>(v@),
                Err(e) => spec_decode_payload(
                    self.discriminator@,
                    full_fields_view(self.args_type_full_fields),
                    instruction_data@,
                ) == Err::<JsonV, ToolboxIdlTransformError>(e),
            },
    {
        let n = self.discriminator.len();
        if n > instruction_data.len() {
            return Err(ToolboxIdlTransformError::InvalidDiscriminator);
        }
        let mut i: usize = 0;
        while i < n
            invariant
                i <= n,
                n == self.discriminator@.len(),
                n <= instruction_data@.len(),
                forall|k: int| 0 <= k < i ==> instruction_data@[k] == self.discriminator@[k],
            decreases n - i,
        {
            if instruction_data[i] != self.discriminator[i] {
                proof {
                    assert(instruction_data@.take(n as int)[i as int] != self.discriminator@[i as int]);
                }
                return Err(ToolboxIdlTransformError::InvalidDiscriminator);
            }
            i = i + 1;
        }
        proof {
            assert(instruction_data@.take(n as int) =~= self.discriminator@);
        }
        match self.args_type_full_fields.try_deserialize(instruction_data, n) {
            Ok((_, v)) => Ok(v),
            Err(e) => Err(e),
        }
    }
}

} // verus!
