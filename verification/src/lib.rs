pub mod json;
pub mod idl_type_primitive;
pub mod idl_utils;
pub mod idl_parse_error;
pub mod idl_type_flat;
pub mod idl_type_flat_parse;
pub mod idl_type_flat_laws;
pub mod idl_type_full;
pub mod idl_path;
pub mod endpoint;
pub mod endpoint_transaction;
pub mod endpoint_message;
pub mod endpoint_versioned;
pub mod endpoint_rpc;
pub mod idl_error;
pub mod idl_program_type;
pub mod idl_type_full_hydrate;
pub mod idl_instruction_account;
pub mod idl_instruction;
pub mod idl_account;
pub mod idl_bytes;
pub mod idl_transform_error;
pub mod idl_type_full_serialize;
pub mod idl_type_full_deserialize;
pub mod idl_type_full_roundtrip;
pub mod idl_type_full_reorder;
pub mod idl_instruction_payload;
pub mod cli;
pub mod endpoint_spl_token;
pub mod idl_parse_laws;
