//! The ways in which encoding a JSON value into bytes, or decoding bytes
//! into a JSON value, can fail.
use vstd::prelude::*;

verus! {

#[derive(Clone, Copy, Debug, PartialEq, Eq, Structural)]
pub enum ToolboxIdlTransformError {
    /// A length or variant prefix wider than 8 bytes.
    InvalidPrefixSize,
    /// A length or variant index does not fit its prefix.
    PrefixOverflow,
    /// A value was expected to be an array.
    ExpectedArray,
    /// A value was expected to be an object.
    ExpectedObject,
    /// A value was expected to be a string.
    ExpectedString,
    /// A value was expected to be a boolean.
    ExpectedBool,
    /// A value was expected to be a number.
    ExpectedNumber,
    /// A value was expected to be a variant name or a one-entry object.
    ExpectedEnum,
    /// An array does not have the length that its type fixes.
    ArrayLengthMismatch,
    /// An object lacks one of the named fields.
    MissingField,
    /// No variant has the given name.
    UnknownVariant,
    /// A variant index is past the last variant.
    InvalidVariantIndex,
    /// A number does not fit its type.
    NumberOutOfRange,
    /// Floating-point values other than an `f64` held as a float are not
    /// handled.
    FloatUnsupported,
    /// A constant type has no encoding.
    ConstNotSerializable,
    /// A padded content is larger than its padding.
    PaddingOverflow,
    /// A string is not a public key.
    InvalidAddress,
    /// The bytes end before the value does.
    NotEnoughBytes,
    /// A boolean byte other than 0 or 1.
    InvalidBool,
    /// String bytes that are not UTF-8.
    InvalidUtf8,
    /// Instruction data that does not start with the discriminator.
    InvalidDiscriminator,
}

} // verus!
