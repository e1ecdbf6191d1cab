//! What can go wrong while a value is serialized.

use crate::element::ElementType;
use crate::text;
use vstd::prelude::*;

verus! {

/// A failed serialization.
#[derive(Debug, PartialEq, Eq)]
pub enum Error {
    /// A key or a variant name has a NUL character, which a C string cannot hold.
    InvalidCString(String),
    /// An unsigned integer is too large for the signed 64-bit integers of BSON.
    UnsignedIntegerExceededRange(u64),
    /// Any other failure.
    SerializationError { message: String },
}

/// What an [`Error`] says.
pub enum Failure {
    InvalidCString(Seq<char>),
    UnsignedIntegerExceededRange(u64),
    SerializationError(Seq<char>),
}

impl View for Error {
    type V = Failure;

    open spec fn view(&self) -> Failure {
        match self {
            Error::InvalidCString(s) => Failure::InvalidCString(s@),
            Error::UnsignedIntegerExceededRange(v) => Failure::UnsignedIntegerExceededRange(*v),
            Error::SerializationError { message } => Failure::SerializationError(message@),
        }
    }
}

/// Something other than a document was about to be written with no key in front of it.
pub open spec fn non_document(t: ElementType) -> Failure {
    Failure::SerializationError(
        "attempted to encode a non-document type at the top level: "@ + t.spec_name()@,
    )
}

/// A binary value of `n` bytes is over the size limit.
pub open spec fn binary_too_long(n: nat) -> Failure {
    Failure::SerializationError(
        "binary length "@ + text::decimal(n) + " exceeded maximum size"@,
    )
}

impl Error {
    /// The error for a type that cannot stand at the top level.
    pub fn non_document(t: ElementType) -> (r: Error)
        ensures
            r@ == non_document(t),
    {
        let mut message = "attempted to encode a non-document type at the top level: ".to_owned();
        message.append(t.name());
        Error::SerializationError { message }
    }

    /// The error for a binary value of `n` bytes.
    pub fn binary_too_long(n: usize) -> (r: Error)
        ensures
            r@ == binary_too_long(n as nat),
    {
        let mut message = "binary length ".to_owned();
        let numeral = text::decimal_string(n);
        message.append(numeral.as_str());
        message.append(" exceeded maximum size");
        Error::SerializationError { message }
    }
}

} // verus!
