//! The data model: what a program's values look like to the serializer.

use crate::text;
use vstd::prelude::*;

verus! {

/// The newtype name that marks bytes as a UUID.
pub const UUID_NEWTYPE_NAME: &'static str = "BsonUuid";

/// The newtype name that marks bytes as a document already in raw form.
pub const RAW_DOCUMENT_NEWTYPE: &'static str = "$__private__bson_RawDocument";

/// The newtype name that marks bytes as an array already in raw form.
pub const RAW_ARRAY_NEWTYPE: &'static str = "$__private__bson_RawArray";

/// The newtype name that asks for the human-readable form of a value.
pub const HUMAN_READABLE_NEWTYPE: &'static str = "$__bson_private_human_readable";

/// What the name of a newtype struct asks of the serializer.
#[derive(Clone, Copy, Debug, PartialEq, Eq, Structural)]
pub enum Newtype {
    Uuid,
    RawDocument,
    RawArray,
    HumanReadable,
    Plain,
}

/// What the newtype name `name` asks for.
pub open spec fn newtype(name: Seq<char>) -> Newtype {
    if name == UUID_NEWTYPE_NAME@ {
        Newtype::Uuid
    } else if name == RAW_DOCUMENT_NEWTYPE@ {
        Newtype::RawDocument
    } else if name == RAW_ARRAY_NEWTYPE@ {
        Newtype::RawArray
    } else if name == HUMAN_READABLE_NEWTYPE@ {
        Newtype::HumanReadable
    } else {
        Newtype::Plain
    }
}

/// Whether the inside of a newtype struct with the name `name` is serialized in human-readable
/// form, given whether what is around it is.
pub open spec fn readable_inside(name: Seq<char>, outer: bool) -> bool {
    outer || newtype(name) is HumanReadable
}

impl Newtype {
    /// What the newtype name `name` asks for.
    pub fn from_name(name: &str) -> (r: Newtype)
        ensures
            r == newtype(name@),
    {
        if text::same_text(name, UUID_NEWTYPE_NAME) {
            Newtype::Uuid
        } else if text::same_text(name, RAW_DOCUMENT_NEWTYPE) {
            Newtype::RawDocument
        } else if text::same_text(name, RAW_ARRAY_NEWTYPE) {
            Newtype::RawArray
        } else if text::same_text(name, HUMAN_READABLE_NEWTYPE) {
            Newtype::HumanReadable
        } else {
            Newtype::Plain
        }
    }

    /// Whether what is inside such a newtype struct is serialized in human-readable form, given
    /// whether what is around it is.
    pub fn inside_human_readable(self, outer: bool) -> (r: bool)
        ensures
            r == (outer || self is HumanReadable),
    {
        match self {
            Newtype::HumanReadable => true,
            _ => outer,
        }
    }
}

/// A value of the data model.
#[derive(Debug, PartialEq, Eq)]
pub enum Value {
    Bool(bool),
    I8(i8),
    I16(i16),
    I32(i32),
    I64(i64),
    U8(u8),
    U16(u16),
    U32(u32),
    U64(u64),
    /// A double, given by its IEEE 754 bit pattern.
    F64(u64),
    Char(char),
    Str(String),
    Bytes(Vec<u8>),
    /// An optional value that is not there.
    Absent,
    /// An optional value that is there.
    Present(Box<Value>),
    Unit,
    UnitStruct { name: &'static str },
    UnitVariant { name: &'static str, variant_index: u32, variant: &'static str },
    NewtypeStruct { name: &'static str, value: Box<Value> },
    NewtypeVariant {
        name: &'static str,
        variant_index: u32,
        variant: &'static str,
        value: Box<Value>,
    },
    Sequence(Vec<Value>),
    Tuple(Vec<Value>),
    TupleStruct { name: &'static str, elements: Vec<Value> },
    TupleVariant {
        name: &'static str,
        variant_index: u32,
        variant: &'static str,
        elements: Vec<Value>,
    },
    Mapping(Vec<(String, Value)>),
    Struct { name: &'static str, fields: Vec<Field> },
    StructVariant {
        name: &'static str,
        variant_index: u32,
        variant: &'static str,
        fields: Vec<Field>,
    },
    /// A value that shows itself in one form to a serializer set to the human-readable form, and
    /// in another to one that is not.
    TwoForms { human_readable: Box<Value>, compact: Box<Value> },
}

/// A named field of a struct or of a struct variant.
#[derive(Debug, PartialEq, Eq)]
pub struct Field {
    pub key: &'static str,
    pub value: Value,
    /// The bytes that the field contributes to a BSON value whose type has a struct name
    /// reserved for it, or why there are none. Consulted only in a struct with such a name. The
    /// bytes are complete: where they hold a document, its length is among them, and no recorded
    /// length is taken for it.
    pub extended: Result<Vec<u8>, String>,
}

/// A newtype name asks for something exactly when it is the one name that asks for it.
pub proof fn law_newtype_names(name: Seq<char>)
    ensures
        newtype(name) is Uuid <==> name == "BsonUuid"@,
        newtype(name) is RawDocument <==> name == "$__private__bson_RawDocument"@,
        newtype(name) is RawArray <==> name == "$__private__bson_RawArray"@,
        newtype(name) is HumanReadable <==> name == "$__bson_private_human_readable"@,
{
    reveal_strlit("BsonUuid");
    assert("BsonUuid"@.len() == 8);
    reveal_strlit("$__private__bson_RawDocument");
    assert("$__private__bson_RawDocument"@.len() == 28);
    reveal_strlit("$__private__bson_RawArray");
    assert("$__private__bson_RawArray"@.len() == 25);
    reveal_strlit("$__bson_private_human_readable");
    assert("$__bson_private_human_readable"@.len() == 30);
}

} // verus!
