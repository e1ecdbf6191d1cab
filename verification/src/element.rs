//! The type codes of the BSON format.

use crate::text;
use vstd::prelude::*;

verus! {

/// The largest size, in bytes, of a binary value.
pub const MAX_BSON_SIZE: i32 = 16_777_216;

/// The type of an element of a document.
#[derive(Clone, Copy, Debug, PartialEq, Eq, Structural)]
pub enum ElementType {
    Double,
    String,
    EmbeddedDocument,
    Array,
    Binary,
    Undefined,
    ObjectId,
    Boolean,
    DateTime,
    Null,
    RegularExpression,
    DbPointer,
    JavaScriptCode,
    Symbol,
    JavaScriptCodeWithScope,
    Int32,
    Timestamp,
    Int64,
    Decimal128,
    MaxKey,
    MinKey,
}

impl ElementType {
    /// The byte that stands for the type in front of an element.
    pub open spec fn spec_code(self) -> u8 {
        match self {
            ElementType::Double => 0x01,
            ElementType::String => 0x02,
            ElementType::EmbeddedDocument => 0x03,
            ElementType::Array => 0x04,
            ElementType::Binary => 0x05,
            ElementType::Undefined => 0x06,
            ElementType::ObjectId => 0x07,
            ElementType::Boolean => 0x08,
            ElementType::DateTime => 0x09,
            ElementType::Null => 0x0A,
            ElementType::RegularExpression => 0x0B,
            ElementType::DbPointer => 0x0C,
            ElementType::JavaScriptCode => 0x0D,
            ElementType::Symbol => 0x0E,
            ElementType::JavaScriptCodeWithScope => 0x0F,
            ElementType::Int32 => 0x10,
            ElementType::Timestamp => 0x11,
            ElementType::Int64 => 0x12,
            ElementType::Decimal128 => 0x13,
            ElementType::MaxKey => 0x7F,
            ElementType::MinKey => 0xFF,
        }
    }

    /// The byte that stands for the type in front of an element.
    #[verifier::when_used_as_spec(spec_code)]
    pub fn code(self) -> (r: u8)
        ensures
            r == self.spec_code(),
    {
        match self {
            ElementType::Double => 0x01,
            ElementType::String => 0x02,
            ElementType::EmbeddedDocument => 0x03,
            ElementType::Array => 0x04,
            ElementType::Binary => 0x05,
            ElementType::Undefined => 0x06,
            ElementType::ObjectId => 0x07,
            ElementType::Boolean => 0x08,
            ElementType::DateTime => 0x09,
            ElementType::Null => 0x0A,
            ElementType::RegularExpression => 0x0B,
            ElementType::DbPointer => 0x0C,
            ElementType::JavaScriptCode => 0x0D,
            ElementType::Symbol => 0x0E,
            ElementType::JavaScriptCodeWithScope => 0x0F,
            ElementType::Int32 => 0x10,
            ElementType::Timestamp => 0x11,
            ElementType::Int64 => 0x12,
            ElementType::Decimal128 => 0x13,
            ElementType::MaxKey => 0x7F,
            ElementType::MinKey => 0xFF,
        }
    }

    /// The name of the type, as messages show it.
    pub open spec fn spec_name(self) -> &'static str {
        match self {
            ElementType::Double => "Double",
            ElementType::String => "String",
            ElementType::EmbeddedDocument => "EmbeddedDocument",
            ElementType::Array => "Array",
            ElementType::Binary => "Binary",
            ElementType::Undefined => "Undefined",
            ElementType::ObjectId => "ObjectId",
            ElementType::Boolean => "Boolean",
            ElementType::DateTime => "DateTime",
            ElementType::Null => "Null",
            ElementType::RegularExpression => "RegularExpression",
            ElementType::DbPointer => "DbPointer",
            ElementType::JavaScriptCode => "JavaScriptCode",
            ElementType::Symbol => "Symbol",
            ElementType::JavaScriptCodeWithScope => "JavaScriptCodeWithScope",
            ElementType::Int32 => "Int32",
            ElementType::Timestamp => "Timestamp",
            ElementType::Int64 => "Int64",
            ElementType::Decimal128 => "Decimal128",
            ElementType::MaxKey => "MaxKey",
            ElementType::MinKey => "MinKey",
        }
    }

    /// The name of the type, as messages show it.
    pub fn name(self) -> (r: &'static str)
        ensures
            r@ == self.spec_name()@,
    {
        match self {
            ElementType::Double => "Double",
            ElementType::String => "String",
            ElementType::EmbeddedDocument => "EmbeddedDocument",
            ElementType::Array => "Array",
            ElementType::Binary => "Binary",
            ElementType::Undefined => "Undefined",
            ElementType::ObjectId => "ObjectId",
            ElementType::Boolean => "Boolean",
            ElementType::DateTime => "DateTime",
            ElementType::Null => "Null",
            ElementType::RegularExpression => "RegularExpression",
            ElementType::DbPointer => "DbPointer",
            ElementType::JavaScriptCode => "JavaScriptCode",
            ElementType::Symbol => "Symbol",
            ElementType::JavaScriptCodeWithScope => "JavaScriptCodeWithScope",
            ElementType::Int32 => "Int32",
            ElementType::Timestamp => "Timestamp",
            ElementType::Int64 => "Int64",
            ElementType::Decimal128 => "Decimal128",
            ElementType::MaxKey => "MaxKey",
            ElementType::MinKey => "MinKey",
        }
    }
}

/// What the bytes of a binary value are.
#[derive(Clone, Copy, Debug, PartialEq, Eq, Structural)]
pub enum BinarySubtype {
    Generic,
    Function,
    /// The deprecated generic subtype, whose bytes repeat their own length.
    BinaryOld,
    UuidOld,
    Uuid,
    Md5,
    Encrypted,
    Column,
    Sensitive,
    Vector,
    UserDefined(u8),
    Reserved(u8),
}

impl BinarySubtype {
    /// The byte that stands for the subtype.
    pub open spec fn spec_code(self) -> u8 {
        match self {
            BinarySubtype::Generic => 0x00,
            BinarySubtype::Function => 0x01,
            BinarySubtype::BinaryOld => 0x02,
            BinarySubtype::UuidOld => 0x03,
            BinarySubtype::Uuid => 0x04,
            BinarySubtype::Md5 => 0x05,
            BinarySubtype::Encrypted => 0x06,
            BinarySubtype::Column => 0x07,
            BinarySubtype::Sensitive => 0x08,
            BinarySubtype::Vector => 0x09,
            BinarySubtype::UserDefined(x) => x,
            BinarySubtype::Reserved(x) => x,
        }
    }

    /// The byte that stands for the subtype.
    #[verifier::when_used_as_spec(spec_code)]
    pub fn code(self) -> (r: u8)
        ensures
            r == self.spec_code(),
    {
        match self {
            BinarySubtype::Generic => 0x00,
            BinarySubtype::Function => 0x01,
            BinarySubtype::BinaryOld => 0x02,
            BinarySubtype::UuidOld => 0x03,
            BinarySubtype::Uuid => 0x04,
            BinarySubtype::Md5 => 0x05,
            BinarySubtype::Encrypted => 0x06,
            BinarySubtype::Column => 0x07,
            BinarySubtype::Sensitive => 0x08,
            BinarySubtype::Vector => 0x09,
            BinarySubtype::UserDefined(x) => x,
            BinarySubtype::Reserved(x) => x,
        }
    }
}

/// A BSON type that the data model shows as a struct with a reserved name.
#[derive(Clone, Copy, Debug, PartialEq, Eq, Structural)]
pub enum ValueType {
    DateTime,
    Binary,
    ObjectId,
    Symbol,
    RegularExpression,
    Timestamp,
    DbPointer,
    JavaScriptCode,
    JavaScriptCodeWithScope,
    MinKey,
    MaxKey,
    Decimal128,
    Undefined,
}

/// The BSON type that a struct name is reserved for, if it is reserved.
pub open spec fn reserved_type(name: Seq<char>) -> Option<ValueType> {
    if name == "$oid"@ {
        Some(ValueType::ObjectId)
    } else if name == "$date"@ {
        Some(ValueType::DateTime)
    } else if name == "$binary"@ {
        Some(ValueType::Binary)
    } else if name == "$timestamp"@ {
        Some(ValueType::Timestamp)
    } else if name == "$minKey"@ {
        Some(ValueType::MinKey)
    } else if name == "$maxKey"@ {
        Some(ValueType::MaxKey)
    } else if name == "$code"@ {
        Some(ValueType::JavaScriptCode)
    } else if name == "$codeWithScope"@ {
        Some(ValueType::JavaScriptCodeWithScope)
    } else if name == "$symbol"@ {
        Some(ValueType::Symbol)
    } else if name == "$undefined"@ {
        Some(ValueType::Undefined)
    } else if name == "$regularExpression"@ {
        Some(ValueType::RegularExpression)
    } else if name == "$dbPointer"@ {
        Some(ValueType::DbPointer)
    } else if name == "$numberDecimal"@ {
        Some(ValueType::Decimal128)
    } else {
        None
    }
}

impl ValueType {
    /// The BSON type that a struct name is reserved for, if it is reserved.
    pub fn from_name(name: &str) -> (r: Option<ValueType>)
        ensures
            r == reserved_type(name@),
    {
        if text::same_text(name, "$oid") {
            Some(ValueType::ObjectId)
        } else if text::same_text(name, "$date") {
            Some(ValueType::DateTime)
        } else if text::same_text(name, "$binary") {
            Some(ValueType::Binary)
        } else if text::same_text(name, "$timestamp") {
            Some(ValueType::Timestamp)
        } else if text::same_text(name, "$minKey") {
            Some(ValueType::MinKey)
        } else if text::same_text(name, "$maxKey") {
            Some(ValueType::MaxKey)
        } else if text::same_text(name, "$code") {
            Some(ValueType::JavaScriptCode)
        } else if text::same_text(name, "$codeWithScope") {
            Some(ValueType::JavaScriptCodeWithScope)
        } else if text::same_text(name, "$symbol") {
            Some(ValueType::Symbol)
        } else if text::same_text(name, "$undefined") {
            Some(ValueType::Undefined)
        } else if text::same_text(name, "$regularExpression") {
            Some(ValueType::RegularExpression)
        } else if text::same_text(name, "$dbPointer") {
            Some(ValueType::DbPointer)
        } else if text::same_text(name, "$numberDecimal") {
            Some(ValueType::Decimal128)
        } else {
            None
        }
    }

    /// The type of the element that holds such a value.
    pub open spec fn spec_element_type(self) -> ElementType {
        match self {
            ValueType::DateTime => ElementType::DateTime,
            ValueType::Binary => ElementType::Binary,
            ValueType::ObjectId => ElementType::ObjectId,
            ValueType::Symbol => ElementType::Symbol,
            ValueType::RegularExpression => ElementType::RegularExpression,
            ValueType::Timestamp => ElementType::Timestamp,
            ValueType::DbPointer => ElementType::DbPointer,
            ValueType::JavaScriptCode => ElementType::JavaScriptCode,
            ValueType::JavaScriptCodeWithScope => ElementType::JavaScriptCodeWithScope,
            ValueType::MinKey => ElementType::MinKey,
            ValueType::MaxKey => ElementType::MaxKey,
            ValueType::Decimal128 => ElementType::Decimal128,
            ValueType::Undefined => ElementType::Undefined,
        }
    }

    /// The type of the element that holds such a value.
    #[verifier::when_used_as_spec(spec_element_type)]
    pub fn element_type(self) -> (r: ElementType)
        ensures
            r == self.spec_element_type(),
    {
        match self {
            ValueType::DateTime => ElementType::DateTime,
            ValueType::Binary => ElementType::Binary,
            ValueType::ObjectId => ElementType::ObjectId,
            ValueType::Symbol => ElementType::Symbol,
            ValueType::RegularExpression => ElementType::RegularExpression,
            ValueType::Timestamp => ElementType::Timestamp,
            ValueType::DbPointer => ElementType::DbPointer,
            ValueType::JavaScriptCode => ElementType::JavaScriptCode,
            ValueType::JavaScriptCodeWithScope => ElementType::JavaScriptCodeWithScope,
            ValueType::MinKey => ElementType::MinKey,
            ValueType::MaxKey => ElementType::MaxKey,
            ValueType::Decimal128 => ElementType::Decimal128,
            ValueType::Undefined => ElementType::Undefined,
        }
    }
}

/// No two element types share a code.
pub proof fn law_codes_distinct(a: ElementType, b: ElementType)
    requires
        a.spec_code() == b.spec_code(),
    ensures
        a == b,
{
}

/// The codes of the format, type by type: a byte stands for a type exactly when it is the one that
/// the format gives it.
pub proof fn law_codes(t: ElementType)
    ensures
        t.spec_code() == 0x01 <==> t is Double,
        t.spec_code() == 0x02 <==> t is String,
        t.spec_code() == 0x03 <==> t is EmbeddedDocument,
        t.spec_code() == 0x04 <==> t is Array,
        t.spec_code() == 0x05 <==> t is Binary,
        t.spec_code() == 0x06 <==> t is Undefined,
        t.spec_code() == 0x07 <==> t is ObjectId,
        t.spec_code() == 0x08 <==> t is Boolean,
        t.spec_code() == 0x09 <==> t is DateTime,
        t.spec_code() == 0x0A <==> t is Null,
        t.spec_code() == 0x0B <==> t is RegularExpression,
        t.spec_code() == 0x0C <==> t is DbPointer,
        t.spec_code() == 0x0D <==> t is JavaScriptCode,
        t.spec_code() == 0x0E <==> t is Symbol,
        t.spec_code() == 0x0F <==> t is JavaScriptCodeWithScope,
        t.spec_code() == 0x10 <==> t is Int32,
        t.spec_code() == 0x11 <==> t is Timestamp,
        t.spec_code() == 0x12 <==> t is Int64,
        t.spec_code() == 0x13 <==> t is Decimal128,
        t.spec_code() == 0x7F <==> t is MaxKey,
        t.spec_code() == 0xFF <==> t is MinKey,
{
}

/// The codes of binary subtypes: each subtype with a name of its own has the code that the format
/// gives it, and the others carry their code.
pub proof fn law_subtype_codes(t: BinarySubtype)
    ensures
        t is Generic ==> t.spec_code() == 0x00,
        t is Function ==> t.spec_code() == 0x01,
        t is BinaryOld ==> t.spec_code() == 0x02,
        t is UuidOld ==> t.spec_code() == 0x03,
        t is Uuid ==> t.spec_code() == 0x04,
        t is Md5 ==> t.spec_code() == 0x05,
        t is Encrypted ==> t.spec_code() == 0x06,
        t is Column ==> t.spec_code() == 0x07,
        t is Sensitive ==> t.spec_code() == 0x08,
        t is Vector ==> t.spec_code() == 0x09,
        t matches BinarySubtype::UserDefined(x) ==> t.spec_code() == x,
        t matches BinarySubtype::Reserved(x) ==> t.spec_code() == x,
{
}

/// A struct name is reserved for a type exactly when it is the one name of that type, and the
/// value is written as an element of the type of the same name.
pub proof fn law_reserved_names(name: Seq<char>)
    ensures
        reserved_type(name) == Some(ValueType::ObjectId) <==> name == "$oid"@,
        reserved_type(name) == Some(ValueType::DateTime) <==> name == "$date"@,
        reserved_type(name) == Some(ValueType::Binary) <==> name == "$binary"@,
        reserved_type(name) == Some(ValueType::Timestamp) <==> name == "$timestamp"@,
        reserved_type(name) == Some(ValueType::MinKey) <==> name == "$minKey"@,
        reserved_type(name) == Some(ValueType::MaxKey) <==> name == "$maxKey"@,
        reserved_type(name) == Some(ValueType::JavaScriptCode) <==> name == "$code"@,
        reserved_type(name) == Some(ValueType::JavaScriptCodeWithScope) <==> name
            == "$codeWithScope"@,
        reserved_type(name) == Some(ValueType::Symbol) <==> name == "$symbol"@,
        reserved_type(name) == Some(ValueType::Undefined) <==> name == "$undefined"@,
        reserved_type(name) == Some(ValueType::RegularExpression) <==> name
            == "$regularExpression"@,
        reserved_type(name) == Some(ValueType::DbPointer) <==> name == "$dbPointer"@,
        reserved_type(name) == Some(ValueType::Decimal128) <==> name == "$numberDecimal"@,
        ValueType::ObjectId.spec_element_type() == ElementType::ObjectId,
        ValueType::DateTime.spec_element_type() == ElementType::DateTime,
        ValueType::Binary.spec_element_type() == ElementType::Binary,
        ValueType::Timestamp.spec_element_type() == ElementType::Timestamp,
        ValueType::MinKey.spec_element_type() == ElementType::MinKey,
        ValueType::MaxKey.spec_element_type() == ElementType::MaxKey,
        ValueType::JavaScriptCode.spec_element_type() == ElementType::JavaScriptCode,
        ValueType::JavaScriptCodeWithScope.spec_element_type()
            == ElementType::JavaScriptCodeWithScope,
        ValueType::Symbol.spec_element_type() == ElementType::Symbol,
        ValueType::Undefined.spec_element_type() == ElementType::Undefined,
        ValueType::RegularExpression.spec_element_type() == ElementType::RegularExpression,
        ValueType::DbPointer.spec_element_type() == ElementType::DbPointer,
        ValueType::Decimal128.spec_element_type() == ElementType::Decimal128,
{
    reveal_strlit("$oid");
    assert("$oid"@.len() == 4);
    assert("$oid"@[1] == 'o');
    assert("$oid"@[2] == 'i');
    reveal_strlit("$date");
    assert("$date"@.len() == 5);
    assert("$date"@[1] == 'd');
    assert("$date"@[2] == 'a');
    reveal_strlit("$binary");
    assert("$binary"@.len() == 7);
    assert("$binary"@[1] == 'b');
    assert("$binary"@[2] == 'i');
    reveal_strlit("$timestamp");
    assert("$timestamp"@.len() == 10);
    assert("$timestamp"@[1] == 't');
    assert("$timestamp"@[2] == 'i');
    reveal_strlit("$minKey");
    assert("$minKey"@.len() == 7);
    assert("$minKey"@[1] == 'm');
    assert("$minKey"@[2] == 'i');
    reveal_strlit("$maxKey");
    assert("$maxKey"@.len() == 7);
    assert("$maxKey"@[1] == 'm');
    assert("$maxKey"@[2] == 'a');
    reveal_strlit("$code");
    assert("$code"@.len() == 5);
    assert("$code"@[1] == 'c');
    assert("$code"@[2] == 'o');
    reveal_strlit("$codeWithScope");
    assert("$codeWithScope"@.len() == 14);
    assert("$codeWithScope"@[1] == 'c');
    assert("$codeWithScope"@[2] == 'o');
    reveal_strlit("$symbol");
    assert("$symbol"@.len() == 7);
    assert("$symbol"@[1] == 's');
    assert("$symbol"@[2] == 'y');
    reveal_strlit("$undefined");
    assert("$undefined"@.len() == 10);
    assert("$undefined"@[1] == 'u');
    assert("$undefined"@[2] == 'n');
    reveal_strlit("$regularExpression");
    assert("$regularExpression"@.len() == 18);
    assert("$regularExpression"@[1] == 'r');
    assert("$regularExpression"@[2] == 'e');
    reveal_strlit("$dbPointer");
    assert("$dbPointer"@.len() == 10);
    assert("$dbPointer"@[1] == 'd');
    assert("$dbPointer"@[2] == 'b');
    reveal_strlit("$numberDecimal");
    assert("$numberDecimal"@.len() == 14);
    assert("$numberDecimal"@[1] == 'n');
    assert("$numberDecimal"@[2] == 'u');
}

/// Messages show each type under its own name.
pub proof fn law_names(t: ElementType)
    ensures
        t is Double ==> t.spec_name()@ == "Double"@,
        t is String ==> t.spec_name()@ == "String"@,
        t is EmbeddedDocument ==> t.spec_name()@ == "EmbeddedDocument"@,
        t is Array ==> t.spec_name()@ == "Array"@,
        t is Binary ==> t.spec_name()@ == "Binary"@,
        t is Undefined ==> t.spec_name()@ == "Undefined"@,
        t is ObjectId ==> t.spec_name()@ == "ObjectId"@,
        t is Boolean ==> t.spec_name()@ == "Boolean"@,
        t is DateTime ==> t.spec_name()@ == "DateTime"@,
        t is Null ==> t.spec_name()@ == "Null"@,
        t is RegularExpression ==> t.spec_name()@ == "RegularExpression"@,
        t is DbPointer ==> t.spec_name()@ == "DbPointer"@,
        t is JavaScriptCode ==> t.spec_name()@ == "JavaScriptCode"@,
        t is Symbol ==> t.spec_name()@ == "Symbol"@,
        t is JavaScriptCodeWithScope ==> t.spec_name()@ == "JavaScriptCodeWithScope"@,
        t is Int32 ==> t.spec_name()@ == "Int32"@,
        t is Timestamp ==> t.spec_name()@ == "Timestamp"@,
        t is Int64 ==> t.spec_name()@ == "Int64"@,
        t is Decimal128 ==> t.spec_name()@ == "Decimal128"@,
        t is MaxKey ==> t.spec_name()@ == "MaxKey"@,
        t is MinKey ==> t.spec_name()@ == "MinKey"@,
{
}

} // verus!
