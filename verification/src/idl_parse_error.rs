//! The ways in which reading an IDL description can fail.
use vstd::prelude::*;

verus! {

#[derive(Clone, Copy, Debug, PartialEq, Eq, Structural)]
pub enum ToolboxIdlParseError {
    /// A type was written as something other than an object, array, string or
    /// unsigned number.
    UnexpectedValueKind,
    /// A type object holds none of the keys that name a kind of type.
    MissingTypeKey,
    /// A type array is neither `[type]` nor `[type, length]`.
    InvalidArrayFormat,
    /// A name was neither a string nor an object with a string `"name"`.
    MissingName,
    /// An integer literal is not an unsigned 64-bit decimal number.
    InvalidIntegerLiteral,
    /// A padded type lacks an unsigned `"size"`.
    MissingPaddedSize,
    /// An object was expected.
    ExpectedObject,
    /// An array was expected.
    ExpectedArray,
    /// A required string entry is missing.
    MissingString,
    /// An address is not a valid public key.
    InvalidAddress,
    /// A PDA blob is neither an object, an array nor a string.
    InvalidBlob,
    /// A path is malformed.
    InvalidPath,
    /// A type refers to a definition that does not exist.
    UnknownTypedef,
    /// A type refers to a generic parameter that is not bound.
    UnknownGeneric,
    /// A definition is applied to the wrong number of generic arguments.
    GenericArity,
    /// An array length is not a constant.
    ArrayLengthNotConst,
    /// Definitions refer to each other without end.
    RecursiveTypedef,
    /// A byte list holds a value that is not a byte.
    InvalidByte,
    /// An integer does not fit the machine's word.
    InvalidInteger,
}

} // verus!
