//! What each step of serialization writes, byte by byte, and how steps make up one another.

use crate::element;
use crate::element::BinarySubtype;
use crate::element::ElementType;
use crate::element::MAX_BSON_SIZE;
use crate::error;
use crate::error::Error;
use crate::error::Failure;
use crate::little_endian;
use crate::model;
use crate::model::Outcome;
use crate::model::State;
use crate::serializer::Key;
use crate::serializer::SerializerHint;
use crate::text;
use crate::value;
use crate::value::Field;
use crate::value::Value;
use vstd::prelude::*;
use vstd::utf8::*;

verus! {

/// The bytes that a step which began in `s` and ended in success has added to the output.
pub open spec fn added(s: State, o: Outcome) -> Seq<u8> {
    o->Done_0.out.skip(s.out.len() as int)
}

/// Whether a step which began in `s` ended in success and did nothing but add to the output.
pub open spec fn only_adds(s: State, o: Outcome) -> bool {
    o == Outcome::Done(State { out: s.out + added(s, o), ..s })
}

/// Whether `o` is the outcome of writing, in state `s`, the key of an element of the given type,
/// and after it bytes with the property `is_body`, if the key can be written.
pub open spec fn writes(
    s: State,
    kind: ElementType,
    is_body: spec_fn(Seq<u8>) -> bool,
    o: Outcome,
) -> bool {
    match model::key(s, kind) {
        Outcome::Done(u) => only_adds(u, o) && is_body(added(u, o)),
        failed => o == failed,
    }
}

proof fn lemma_added(s: State, bytes: Seq<u8>)
    ensures
        added(s, Outcome::Done(s.emit(bytes))) == bytes,
        only_adds(s, Outcome::Done(s.emit(bytes))),
{
    assert((s.out + bytes).skip(s.out.len() as int) =~= bytes);
}

proof fn lemma_element_writes(s: State, kind: ElementType, body: Seq<u8>)
    ensures
        match model::key(s, kind) {
            Outcome::Done(u) => only_adds(u, model::element(s, kind, body)) && added(
                u,
                model::element(s, kind, body),
            ) == body,
            failed => model::element(s, kind, body) == failed,
        },
{
    if let Outcome::Done(u) = model::key(s, kind) {
        lemma_added(u, body);
    }
}

/// A step that returned `Ok` is done, one that returned an error has failed, and what the error
/// says is what it holds: the text, the number or the message.
pub proof fn law_results(s: State, e: Error)
    ensures
        model::outcome(Ok(()), s) == Outcome::Done(s),
        model::outcome(Err(e), s) == Outcome::Failed(s, e@),
        e matches Error::InvalidCString(t) ==> e@ == Failure::InvalidCString(t@),
        e matches Error::UnsignedIntegerExceededRange(x) ==> e@
            == Failure::UnsignedIntegerExceededRange(x),
        e matches Error::SerializationError { message } ==> e@ == Failure::SerializationError(
            message@,
        ),
{
}

/// Writing bytes adds them to the output and changes nothing else; setting a key replaces the key
/// and changes nothing else; nothing is written after a failure.
pub proof fn law_changes(s: State, bytes: Seq<u8>, key: Seq<char>, e: Failure)
    ensures
        s.emit(bytes) == (State { out: s.out + bytes, ..s }),
        s.with_key(key) == (State { next_key: Some(key), ..s }),
        Outcome::Done(s).emit(bytes) == Outcome::Done((State { out: s.out + bytes, ..s })),
        Outcome::Failed(s, e).emit(bytes) == Outcome::Failed(s, e),
        Outcome::Undefined.emit(bytes) == Outcome::Undefined,
{
}

/// A key has the text that it was made with, and an index has digits that give it back when they
/// are read in base ten.
pub proof fn law_key_texts(key: Key)
    ensures
        key matches Key::Static(k) ==> key.text() == k@,
        key matches Key::Owned(k) ==> key.text() == k@,
        key matches Key::Index(i) ==> key.text().fold_left(
            0int,
            |value: int, digit: char| 10 * value + (digit as int - '0' as int),
        ) == i && (forall|j: int|
            0 <= j < key.text().len() ==> '0' <= #[trigger] key.text()[j] <= '9') && (i > 0
            ==> key.text()[0] != '0') && key.text().len() > 0 && (i == 0 ==> key.text().len() == 1),
{
    if let Key::Index(i) = key {
        text::law_numeral_reads_back(i as nat);
    }
}

/// A C string is written as the UTF-8 form of the text and a zero byte, unless the text has a NUL
/// character: then it is refused, and nothing is written.
pub proof fn law_cstring_written(s: State, text: Seq<char>)
    ensures
        ({
            let o = model::cstring(s, text);
            if exists|i: int| 0 <= i < text.len() && #[trigger] text[i] as int == 0 {
                o == Outcome::Failed(s, Failure::InvalidCString(text))
            } else {
                only_adds(s, o) && added(s, o) == encode_utf8(text) + seq![0u8]
            }
        }),
{
    text::law_nul_has_a_place(text);
    lemma_added(s, model::cstring_bytes(text));
    assert(model::cstring_bytes(text) =~= encode_utf8(text) + seq![0u8]);
}

/// Whether `body` is a string with the given text: four bytes that are read as the size of the
/// rest, the UTF-8 form of the text, and a zero byte.
pub open spec fn is_string(text: Seq<char>, body: Seq<u8>) -> bool {
    let n = encode_utf8(text).len() as int;
    &&& body.len() == n + 5
    &&& n < i32::MAX ==> little_endian::read_i32(body.take(4)) == n + 1
    &&& n > i32::MAX ==> little_endian::read_i32(body.take(4)) == (n as i32) + 1
    &&& body.subrange(4, 4 + n) == encode_utf8(text)
    &&& body[4 + n] == 0
}

/// A string is written with its size in front. It can be written unless its size is out of range:
/// any text of fewer than `2^31 - 1` bytes can, one of exactly so many cannot, and of the others
/// those whose size is cut down to that.
pub proof fn law_string_written(s: State, text: Seq<char>)
    ensures
        ({
            let o = model::string(s, text);
            let n = encode_utf8(text).len();
            if model::sizable(n) {
                only_adds(s, o) && is_string(text, added(s, o))
            } else {
                o is Undefined
            }
        }),
        encode_utf8(text).len() < i32::MAX ==> model::sizable(encode_utf8(text).len()),
        model::sizable(encode_utf8(text).len()) <==> encode_utf8(text).len() as i32 != i32::MAX,
{
    lemma_added(s, model::string_bytes(text));
    if encode_utf8(text).len() as i32 != i32::MAX {
        lemma_is_string(text);
    }
}

pub(crate) proof fn lemma_is_string(text: Seq<char>)
    requires
        model::sizable(encode_utf8(text).len()),
    ensures
        is_string(text, model::string_bytes(text)),
{
    let bytes = model::string_bytes(text);
    let utf8 = encode_utf8(text);
    let n = utf8.len();
    let size = (n as i32 + 1) as i32;
    little_endian::law_i32_reads_back(size);
    assert(bytes.take(4) =~= little_endian::i32_bytes(size));
    assert(bytes.subrange(4, 4 + n as int) =~= utf8);
}

/// Whether `body` is a binary value of the given subtype with the given bytes: four bytes that are
/// read as the size, the code of the subtype, in the old subtype four more bytes that are read as
/// the number of bytes, and the bytes.
pub open spec fn is_binary(subtype: BinarySubtype, bytes: Seq<u8>, body: Seq<u8>) -> bool {
    let front: int = if subtype is BinaryOld {
        9
    } else {
        5
    };
    &&& body.len() == front + bytes.len()
    &&& little_endian::read_i32(body.take(4)) == front - 5 + bytes.len()
    &&& body[4] == subtype.spec_code()
    &&& subtype is BinaryOld ==> little_endian::read_i32(body.subrange(5, 9)) == bytes.len()
    &&& body.skip(front) == bytes
}

/// Binary values are written with their size, their subtype and their bytes, as long as the size,
/// with the four bytes more that the old subtype takes, is at most `2^24`. Longer ones are refused
/// with a message that tells the number of bytes, and nothing is written.
pub proof fn law_binary_written(s: State, bytes: Seq<u8>, subtype: BinarySubtype)
    ensures
        ({
            let o = model::binary(s, bytes, subtype);
            let size = bytes.len() + (if subtype is BinaryOld {
                4int
            } else {
                0
            });
            if size <= 0x100_0000 {
                only_adds(s, o) && is_binary(subtype, bytes, added(s, o))
            } else {
                o == Outcome::Failed(
                    s,
                    Failure::SerializationError(
                        "binary length "@ + text::decimal(bytes.len()) + " exceeded maximum size"@,
                    ),
                )
            }
        }),
{
    lemma_added(s, model::binary_bytes(bytes, subtype));
    if model::binary_size(bytes, subtype) <= MAX_BSON_SIZE {
        lemma_is_binary(bytes, subtype);
    }
}

pub(crate) proof fn lemma_is_binary(bytes: Seq<u8>, subtype: BinarySubtype)
    requires
        model::binary_size(bytes, subtype) <= MAX_BSON_SIZE,
    ensures
        is_binary(subtype, bytes, model::binary_bytes(bytes, subtype)),
{
    let body = model::binary_bytes(bytes, subtype);
    let n = model::binary_size(bytes, subtype) as i32;
    little_endian::law_i32_reads_back(n);
    little_endian::law_i32_reads_back(bytes.len() as i32);
    assert(body.take(4) =~= little_endian::i32_bytes(n));
    if subtype is BinaryOld {
        assert(body.subrange(5, 9) =~= little_endian::i32_bytes(bytes.len() as i32));
        assert(body.skip(9) =~= bytes);
    } else {
        assert(body.skip(5) =~= bytes);
    }
}

/// Opening a document takes the first recorded length, whatever it is, and writes it as four bytes
/// that are read as that length; without a recorded length it cannot be done.
pub proof fn law_length_written(s: State)
    ensures
        ({
            let o = model::next_len(s);
            if s.lens.len() == 0 {
                o is Undefined
            } else {
                &&& o == Outcome::Done(
                    (State {
                        out: s.out + added(s, o),
                        lens: s.lens.subrange(1, s.lens.len() as int),
                        started: true,
                        ..s
                    }),
                )
                &&& added(s, o).len() == 4
                &&& little_endian::read_i32(added(s, o)) == s.lens[0]
            }
        }),
{
    if s.lens.len() > 0 {
        let bytes = little_endian::i32_bytes(s.lens[0]);
        little_endian::law_i32_reads_back(s.lens[0]);
        assert((s.out + bytes).skip(s.out.len() as int) =~= bytes);
    }
}

/// A key is written as the code of the type and the text as a C string, and is then used up. A key
/// with a NUL character is refused after the code. Without a key nothing is written, and only a
/// document can follow, if none was opened before.
pub proof fn law_key_written(s: State, t: ElementType)
    ensures
        ({
            let o = model::key(s, t);
            match s.next_key {
                Some(text) => {
                    let begun = State { out: s.out.push(t.spec_code()), next_key: None, ..s };
                    if exists|i: int| 0 <= i < text.len() && #[trigger] text[i] as int == 0 {
                        o == Outcome::Failed(begun, Failure::InvalidCString(text))
                    } else {
                        only_adds(begun, o) && added(begun, o) == encode_utf8(text) + seq![0u8]
                    }
                },
                None => if !s.started && t is EmbeddedDocument {
                    o == Outcome::Done(s)
                } else {
                    o == Outcome::Failed(
                        s,
                        Failure::SerializationError(
                            "attempted to encode a non-document type at the top level: "@
                                + t.spec_name()@,
                        ),
                    )
                },
            }
        }),
{
    if let Some(text) = s.next_key {
        let begun = State { out: s.out.push(t.spec_code()), next_key: None, ..s };
        assert(s.out + seq![t.spec_code()] =~= s.out.push(t.spec_code()));
        law_cstring_written(begun, text);
    }
}

/// To open a document is to write its key and then its length. To open a variant is to open the
/// outer document, to write the code of the inner one and the name of the variant as a C string,
/// and then the length of the inner one. A struct with a reserved name has only its key written.
pub proof fn law_openings(s: State, t: ElementType, name: Seq<char>)
    ensures
        model::open_document(s, t) == (match model::key(s, t) {
            Outcome::Done(u) => model::next_len(u),
            failed => failed,
        }),
        model::start_variant(s, name, t) == (match model::next_len(s) {
            Outcome::Done(u) => match model::cstring(
                (State { out: u.out.push(t.spec_code()), ..u }),
                name,
            ) {
                Outcome::Done(w) => model::next_len(w),
                failed => failed,
            },
            failed => failed,
        }),
        model::open_variant(s, name, t) == (match model::key(s, ElementType::EmbeddedDocument) {
            Outcome::Done(u) => model::start_variant(u, name, t),
            failed => failed,
        }),
        model::open_struct(s, name) == (match element::reserved_type(name) {
            Some(value_type) => model::key(s, value_type.spec_element_type()),
            None => match model::key(s, ElementType::EmbeddedDocument) {
                Outcome::Done(u) => model::next_len(u),
                failed => failed,
            },
        }),
{
    if let Outcome::Done(u) = model::next_len(s) {
        assert(u.out + seq![t.spec_code()] =~= u.out.push(t.spec_code()));
    }
}

/// Whether `o` is the outcome of writing the truth value `x` in state `s`.
pub open spec fn writes_bool(s: State, x: bool, o: Outcome) -> bool {
    writes(
        s,
        ElementType::Boolean,
        |body: Seq<u8>| body.len() == 1 && (body[0] == 1 <==> x) && (body[0] == 0 <==> !x),
        o,
    )
}

/// Whether `o` is the outcome of writing the number `n` in state `s` as a 32-bit integer.
pub open spec fn writes_int32(s: State, n: int, o: Outcome) -> bool {
    writes(
        s,
        ElementType::Int32,
        |body: Seq<u8>| body.len() == 4 && little_endian::read_i32(body) == n,
        o,
    )
}

/// Whether `o` is the outcome of writing the number `n` in state `s` as a 64-bit integer.
pub open spec fn writes_int64(s: State, n: int, o: Outcome) -> bool {
    writes(
        s,
        ElementType::Int64,
        |body: Seq<u8>| body.len() == 8 && little_endian::read_i64(body) == n,
        o,
    )
}

/// Whether `o` is the outcome of writing in state `s` the double with the bit pattern `bits`.
pub open spec fn writes_double(s: State, bits: int, o: Outcome) -> bool {
    writes(
        s,
        ElementType::Double,
        |body: Seq<u8>| body.len() == 8 && little_endian::number(body) == bits,
        o,
    )
}

/// Whether `o` is the outcome of writing a text in state `s`. Where the size of the text is out of
/// range, and its key can be written, there is none.
pub open spec fn writes_text(s: State, text: Seq<char>, o: Outcome) -> bool {
    let n = encode_utf8(text).len();
    if model::key(s, ElementType::String) is Done && n >= i32::MAX && n as i32 == i32::MAX {
        o is Undefined
    } else {
        writes(s, ElementType::String, |body: Seq<u8>| is_string(text, body), o)
    }
}

/// Whether `o` is the outcome of writing in state `s` a key with no value after it.
pub open spec fn writes_null(s: State, o: Outcome) -> bool {
    writes(s, ElementType::Null, |body: Seq<u8>| body.len() == 0, o)
}

/// The steps for single values write what they are given: the truth value, the number, the bit
/// pattern, the text, or nothing. An unsigned number over the signed range is refused, and nothing
/// is written.
pub proof fn law_plain_steps_written(
    s: State,
    x: bool,
    small: i32,
    large: i64,
    bits: u64,
    text: Seq<char>,
)
    ensures
        writes_bool(s, x, model::put_bool(s, x)),
        writes_int32(s, small as int, model::put_i32(s, small)),
        writes_int64(s, large as int, model::put_i64(s, large)),
        writes_double(s, bits as int, model::put_f64(s, bits)),
        writes_text(s, text, model::put_text(s, text)),
        writes_null(s, model::put_null(s)),
        bits <= i64::MAX ==> writes_int64(s, bits as int, model::put_u64(s, bits)),
        bits > i64::MAX ==> model::put_u64(s, bits) == Outcome::Failed(
            s,
            Failure::UnsignedIntegerExceededRange(bits),
        ),
{
    let byte = if x {
        1u8
    } else {
        0u8
    };
    lemma_element_writes(s, ElementType::Boolean, seq![byte]);
    little_endian::law_i32_reads_back(small);
    lemma_element_writes(s, ElementType::Int32, little_endian::i32_bytes(small));
    little_endian::law_i64_reads_back(large);
    lemma_element_writes(s, ElementType::Int64, little_endian::i64_bytes(large));
    little_endian::law_u64_reads_back(bits);
    lemma_element_writes(s, ElementType::Double, little_endian::u64_bytes(bits));
    if bits <= i64::MAX {
        little_endian::law_i64_reads_back(bits as i64);
        lemma_element_writes(s, ElementType::Int64, little_endian::i64_bytes(bits as i64));
    }
    if let Outcome::Done(u) = model::key(s, ElementType::String) {
        law_string_written(u, text);
    }
    lemma_element_writes(s, ElementType::Null, seq![]);
}

/// A value without values inside is written as what it is: an integer as that integer, with 32
/// bits if its type has at most 16 or is signed with 32, else with 64; a double as its bit
/// pattern; a character as the text of that character; a text as that text; a variant without
/// fields as the name of the variant; and anything that holds nothing as nothing.
pub proof fn law_plain_values_written(s: State, v: Value)
    ensures
        v matches Value::Bool(x) ==> writes(
            s,
            ElementType::Boolean,
            |body: Seq<u8>| body.len() == 1 && body[0] <= 1 && (body[0] == 1 <==> x),
            model::run(s, v),
        ),
        v matches Value::I8(x) ==> writes(
            s,
            ElementType::Int32,
            |body: Seq<u8>| body.len() == 4 && little_endian::read_i32(body) == x,
            model::run(s, v),
        ),
        v matches Value::I16(x) ==> writes(
            s,
            ElementType::Int32,
            |body: Seq<u8>| body.len() == 4 && little_endian::read_i32(body) == x,
            model::run(s, v),
        ),
        v matches Value::I32(x) ==> writes(
            s,
            ElementType::Int32,
            |body: Seq<u8>| body.len() == 4 && little_endian::read_i32(body) == x,
            model::run(s, v),
        ),
        v matches Value::U8(x) ==> writes(
            s,
            ElementType::Int32,
            |body: Seq<u8>| body.len() == 4 && little_endian::read_i32(body) == x,
            model::run(s, v),
        ),
        v matches Value::U16(x) ==> writes(
            s,
            ElementType::Int32,
            |body: Seq<u8>| body.len() == 4 && little_endian::read_i32(body) == x,
            model::run(s, v),
        ),
        v matches Value::I64(x) ==> writes(
            s,
            ElementType::Int64,
            |body: Seq<u8>| body.len() == 8 && little_endian::read_i64(body) == x,
            model::run(s, v),
        ),
        v matches Value::U32(x) ==> writes(
            s,
            ElementType::Int64,
            |body: Seq<u8>| body.len() == 8 && little_endian::read_i64(body) == x,
            model::run(s, v),
        ),
        v matches Value::U64(x) ==> (x <= 0x7FFF_FFFF_FFFF_FFFF ==> writes(
            s,
            ElementType::Int64,
            |body: Seq<u8>| body.len() == 8 && little_endian::read_i64(body) == x,
            model::run(s, v),
        )),
        v matches Value::U64(x) ==> (x > 0x7FFF_FFFF_FFFF_FFFF ==> model::run(s, v)
            == Outcome::Failed(s, Failure::UnsignedIntegerExceededRange(x))),
        v matches Value::F64(bits) ==> writes(
            s,
            ElementType::Double,
            |body: Seq<u8>| body.len() == 8 && little_endian::number(body) == bits,
            model::run(s, v),
        ),
        v matches Value::Char(c) ==> writes_text(s, seq![c], model::run(s, v)),
        v matches Value::Str(text) ==> writes_text(s, text@, model::run(s, v)),
        v matches Value::UnitVariant { variant, .. } ==> writes_text(
            s,
            variant@,
            model::run(s, v),
        ),
        v is Absent || v is Unit || v is UnitStruct ==> writes(
            s,
            ElementType::Null,
            |body: Seq<u8>| body.len() == 0,
            model::run(s, v),
        ),
{
    match v {
        Value::Bool(x) => law_plain_steps_written(s, x, 0, 0, 0, seq![]),
        Value::I8(x) => law_plain_steps_written(s, true, x as i32, 0, 0, seq![]),
        Value::I16(x) => law_plain_steps_written(s, true, x as i32, 0, 0, seq![]),
        Value::I32(x) => law_plain_steps_written(s, true, x, 0, 0, seq![]),
        Value::U8(x) => law_plain_steps_written(s, true, x as i32, 0, 0, seq![]),
        Value::U16(x) => law_plain_steps_written(s, true, x as i32, 0, 0, seq![]),
        Value::I64(x) => law_plain_steps_written(s, true, 0, x, 0, seq![]),
        Value::U32(x) => law_plain_steps_written(s, true, 0, x as i64, 0, seq![]),
        Value::U64(x) => law_plain_steps_written(s, true, 0, 0, x, seq![]),
        Value::F64(x) => law_plain_steps_written(s, true, 0, 0, x, seq![]),
        Value::Char(c) => law_plain_steps_written(s, true, 0, 0, 0, seq![c]),
        Value::Str(text) => law_plain_steps_written(s, true, 0, 0, 0, text@),
        Value::UnitVariant { variant, .. } => {
            law_plain_steps_written(s, true, 0, 0, 0, variant@);
        },
        _ => law_plain_steps_written(s, true, 0, 0, 0, seq![]),
    }
}

/// Bytes are written as the hint says, which is then used up: as they are, under the type of a
/// document or an array, or as a binary value, with the subtype for UUIDs or the generic one.
pub proof fn law_bytes_written(s: State, bytes: Seq<u8>, v: Value)
    ensures
        ({
            let o = model::put_bytes(s, bytes);
            let t = State { hint: SerializerHint::Absent, ..s };
            let subtype = if s.hint is Uuid {
                BinarySubtype::Uuid
            } else {
                BinarySubtype::Generic
            };
            if s.hint is RawDocument {
                writes(t, ElementType::EmbeddedDocument, |body: Seq<u8>| body == bytes, o)
            } else if s.hint is RawArray {
                writes(t, ElementType::Array, |body: Seq<u8>| body == bytes, o)
            } else if bytes.len() <= 0x100_0000 {
                writes(t, ElementType::Binary, |body: Seq<u8>| is_binary(subtype, bytes, body), o)
            } else {
                match model::key(t, ElementType::Binary) {
                    Outcome::Done(u) => o == Outcome::Failed(
                        u,
                        Failure::SerializationError(
                            "binary length "@ + text::decimal(bytes.len())
                                + " exceeded maximum size"@,
                        ),
                    ),
                    failed => o == failed,
                }
            }
        }),
        v matches Value::Bytes(x) ==> (x@ == bytes ==> model::run(s, v) == model::put_bytes(
            s,
            bytes,
        )),
{
    let t = State { hint: SerializerHint::Absent, ..s };
    lemma_element_writes(t, ElementType::EmbeddedDocument, bytes);
    lemma_element_writes(t, ElementType::Array, bytes);
    if let Outcome::Done(u) = model::key(t, ElementType::Binary) {
        law_binary_written(u, bytes, BinarySubtype::Uuid);
        law_binary_written(u, bytes, BinarySubtype::Generic);
    }
}

/// An optional value that is there is written as what is inside. A value with two forms is written
/// as the one that the setting asks for.
pub proof fn law_wrapped_values_written(s: State, v: Value)
    ensures
        v matches Value::Present(inside) ==> model::run(s, v) == model::run(s, *inside),
        v matches Value::TwoForms { human_readable, compact } ==> (if s.human_readable {
            model::run(s, v) == model::run(s, *human_readable)
        } else {
            model::run(s, v) == model::run(s, *compact)
        }),
{
}

/// The inside of a newtype struct is written with the hint that the name of the struct gives, or
/// with the human-readable setting where the name asks for that; afterwards that setting is what
/// it was before. With any other name nothing is changed.
pub proof fn law_newtypes_written(s: State, v: Value, name: Seq<char>, o: Outcome)
    ensures
        ({
            let t = model::enter_newtype(s, name);
            &&& name == "BsonUuid"@ ==> t == (State { hint: SerializerHint::Uuid, ..s })
            &&& name == "$__private__bson_RawDocument"@ ==> t == (State {
                hint: SerializerHint::RawDocument,
                ..s
            })
            &&& name == "$__private__bson_RawArray"@ ==> t == (State {
                hint: SerializerHint::RawArray,
                ..s
            })
            &&& name == "$__bson_private_human_readable"@ ==> t == (State {
                human_readable: true,
                ..s
            })
            &&& name != "BsonUuid"@ && name != "$__private__bson_RawDocument"@ && name
                != "$__private__bson_RawArray"@ && name != "$__bson_private_human_readable"@ ==> t
                == s
        }),
        name != "$__bson_private_human_readable"@ ==> model::leave_newtype(s, name, o) == o,
        name == "$__bson_private_human_readable"@ ==> model::leave_newtype(s, name, o) == (match o {
            Outcome::Done(t) => Outcome::Done(State { human_readable: s.human_readable, ..t }),
            Outcome::Failed(t, e) => Outcome::Failed(
                State { human_readable: s.human_readable, ..t },
                e,
            ),
            Outcome::Undefined => Outcome::Undefined,
        }),
        v matches Value::NewtypeStruct { name: n, value } ==> (n@ == name ==> model::run(s, v)
            == model::leave_newtype(
            s,
            name,
            model::run(model::enter_newtype(s, name), *value),
        )),
{
    value::law_newtype_names(name);
}

/// What the fields of a struct with a reserved name contribute, up to the first that contributes
/// nothing.
spec fn contributed(fields: Seq<Field>, n: int) -> Seq<u8> {
    Seq::new(n as nat, |i: int| fields[i].extended->Ok_0@).flatten()
}

/// A field of a struct with a reserved name adds the bytes that it contributes, or fails with the
/// reason why there are none.
pub proof fn law_contribution_written(s: State, extended: Result<Vec<u8>, String>)
    ensures
        extended matches Ok(bytes) ==> model::put_extended(s, extended) == Outcome::Done(
            (State { out: s.out + bytes@, ..s }),
        ),
        extended matches Err(reason) ==> model::put_extended(s, extended) == Outcome::Failed(
            s,
            Failure::SerializationError(reason@),
        ),
{
}

proof fn lemma_contributed(s: State, fields: Seq<Field>, i: nat)
    requires
        i <= fields.len(),
    ensures
        ({
            let o = model::put_extended_fields(s, fields, i);
            let rest = fields.skip(i as int);
            &&& (forall|j: int| 0 <= j < rest.len() ==> (#[trigger] rest[j]).extended is Ok)
                ==> o == Outcome::Done(
                (State { out: s.out + contributed(rest, rest.len() as int), ..s }),
            )
            &&& forall|k: int|
                #![trigger rest[k]]
                0 <= k < rest.len() && rest[k].extended is Err && (forall|j: int|
                    0 <= j < k ==> (#[trigger] rest[j]).extended is Ok) ==> o == Outcome::Failed(
                    (State { out: s.out + contributed(rest, k), ..s }),
                    Failure::SerializationError(rest[k].extended->Err_0@),
                )
        }),
    decreases fields.len() - i,
{
    let rest = fields.skip(i as int);
    let o = model::put_extended_fields(s, fields, i);
    if i == fields.len() {
        assert(Seq::new(0, |i: int| rest[i].extended->Ok_0@) =~= seq![]);
        assert(s.out + contributed(rest, 0) =~= s.out);
    } else {
        assert(rest[0] == fields[i as int]);
        let tail = fields.skip(i + 1int);
        assert forall|j: int| 0 <= j < tail.len() implies #[trigger] tail[j] == rest[j + 1] by {}
        if let Ok(bytes) = rest[0].extended {
            let t = s.emit(bytes@);
            lemma_contributed(t, fields, i + 1);
            assert forall|k: int| 0 <= k <= tail.len() implies #[trigger] contributed(rest, k + 1)
                == bytes@ + contributed(tail, k) by {
                let all = Seq::new((k + 1) as nat, |i: int| rest[i].extended->Ok_0@);
                let later = Seq::new(k as nat, |i: int| tail[i].extended->Ok_0@);
                assert(all.drop_first() =~= later);
                assert(all.first() == bytes@);
            }
            assert forall|k: int| 0 <= k <= tail.len() implies s.out + #[trigger] contributed(
                rest,
                k + 1,
            ) == t.out + contributed(tail, k) by {
                assert(s.out + (bytes@ + contributed(tail, k)) =~= t.out + contributed(tail, k));
            }
            if forall|j: int| 0 <= j < rest.len() ==> (#[trigger] rest[j]).extended is Ok {
                assert forall|j: int| 0 <= j < tail.len() implies (
                #[trigger] tail[j]).extended is Ok by {
                    assert(tail[j] == rest[j + 1]);
                }
                let n = tail.len() as int;
                assert(contributed(rest, n + 1) == contributed(rest, rest.len() as int));
            }
            assert forall|k: int|
                #![trigger rest[k]]
                0 <= k < rest.len() && rest[k].extended is Err && (forall|j: int|
                    0 <= j < k ==> (#[trigger] rest[j]).extended is Ok) implies o
                == Outcome::Failed(
                (State { out: s.out + contributed(rest, k), ..s }),
                Failure::SerializationError(rest[k].extended->Err_0@),
            ) by {
                let m = k - 1;
                assert(tail[m] == rest[k]);
                assert forall|j: int| 0 <= j < m implies (#[trigger] tail[j]).extended is Ok by {
                    assert(tail[j] == rest[j + 1]);
                }
                assert(s.out + contributed(rest, m + 1) == t.out + contributed(tail, m));
            }
        } else {
            assert(Seq::new(0, |i: int| rest[i].extended->Ok_0@) =~= seq![]);
            assert(s.out + contributed(rest, 0) =~= s.out);
        }
    }
}

/// A struct with a reserved name is written as an element of the type that the name is reserved
/// for, whose value is what its fields contribute, one after the other. It fails at the first
/// field that contributes nothing, with the reason for that, after what the fields before it
/// contributed.
pub proof fn law_reserved_struct_written(s: State, v: Value)
    ensures
        v matches Value::Struct { name, fields } ==> (element::reserved_type(name@) matches Some(
            value_type,
        ) ==> (match model::key(s, value_type.spec_element_type()) {
            Outcome::Done(u) => {
                &&& (forall|j: int|
                    0 <= j < fields@.len() ==> (#[trigger] fields@[j]).extended is Ok)
                    ==> model::run(s, v) == Outcome::Done(
                    (State {
                        out: u.out + Seq::new(
                            fields@.len(),
                            |i: int| fields@[i].extended->Ok_0@,
                        ).flatten(),
                        ..u
                    }),
                )
                &&& forall|k: int|
                    #![trigger fields@[k]]
                    0 <= k < fields@.len() && fields@[k].extended is Err && (forall|j: int|
                        0 <= j < k ==> (#[trigger] fields@[j]).extended is Ok) ==> model::run(s, v)
                        == Outcome::Failed(
                        (State {
                            out: u.out + Seq::new(
                                k as nat,
                                |i: int| fields@[i].extended->Ok_0@,
                            ).flatten(),
                            ..u
                        }),
                        Failure::SerializationError(fields@[k].extended->Err_0@),
                    )
            },
            failed => model::run(s, v) == failed,
        })),
{
    if let Value::Struct { name, fields } = v {
        if let Some(value_type) = element::reserved_type(name@) {
            if let Outcome::Done(u) = model::key(s, value_type.spec_element_type()) {
                lemma_contributed(u, fields@, 0);
                assert(fields@.skip(0) =~= fields@);
            }
        }
    }
}

/// Whether the `i`th value, under its key and in the `i`th state, is serialized in success and
/// leaves the state after that.
pub open spec fn goes_on(
    trace: Seq<State>,
    keys: Seq<Seq<char>>,
    values: Seq<Value>,
    i: int,
) -> bool {
    model::run((State { next_key: Some(keys[i]), ..trace[i] }), values[i]) == Outcome::Done(
        trace[i + 1],
    )
}

/// Whether `o` is the outcome of serializing `values` one after the other, each under its key and
/// in the state that the one before it left, and of writing `end` after the last. `trace` holds
/// these states, from `s` on; where a value does not end in success, it is the last to be
/// serialized, and its outcome is `o`.
pub open spec fn in_turn(
    s: State,
    trace: Seq<State>,
    keys: Seq<Seq<char>>,
    values: Seq<Value>,
    end: Seq<u8>,
    o: Outcome,
) -> bool {
    &&& 1 <= trace.len() <= values.len() + 1
    &&& trace[0] == s
    &&& forall|i: int| 0 <= i < trace.len() - 1 ==> #[trigger] goes_on(trace, keys, values, i)
    &&& if trace.len() == values.len() + 1 {
        o == Outcome::Done((State { out: trace.last().out + end, ..trace.last() }))
    } else {
        let k = trace.len() - 1;
        o !is Done && o == model::run(
            (State { next_key: Some(keys[k]), ..trace[k] }),
            values[k],
        )
    }
}

/// Whether `o` is the outcome of writing in state `s` one document or array with the given values
/// under the given keys: its key, its length, the values in turn, and a zero byte.
pub open spec fn writes_document(
    s: State,
    kind: ElementType,
    keys: Seq<Seq<char>>,
    values: Seq<Value>,
    o: Outcome,
) -> bool {
    match model::key(s, kind) {
        Outcome::Done(u) => match model::next_len(u) {
            Outcome::Done(w) => {
                let end = seq![0u8];
                exists|trace: Seq<State>| #[trigger] in_turn(w, trace, keys, values, end, o)
            },
            failed => o == failed,
        },
        failed => o == failed,
    }
}

/// Whether `o` is the outcome of writing in state `s` a document that holds, under the name of a
/// variant, a document or an array with the given values under the given keys.
pub open spec fn writes_variant(
    s: State,
    variant: Seq<char>,
    inner: ElementType,
    keys: Seq<Seq<char>>,
    values: Seq<Value>,
    o: Outcome,
) -> bool {
    match model::key(s, ElementType::EmbeddedDocument) {
        Outcome::Done(u) => match model::next_len(u) {
            Outcome::Done(w) => match model::key(
                (State { next_key: Some(variant), ..w }),
                inner,
            ) {
                Outcome::Done(x) => match model::next_len(x) {
                    Outcome::Done(y) => {
                        let end = seq![0u8, 0u8];
                        exists|trace: Seq<State>| #[trigger]
                            in_turn(y, trace, keys, values, end, o)
                    },
                    failed => o == failed,
                },
                failed => o == failed,
            },
            failed => o == failed,
        },
        failed => o == failed,
    }
}

spec fn child_keys(v: Value, i: nat) -> Seq<Seq<char>> {
    Seq::new((model::count(v) - i) as nat, |j: int| model::child_key(v, i + j))
}

spec fn children(v: Value, i: nat) -> Seq<Value> {
    Seq::new((model::count(v) - i) as nat, |j: int| model::child(v, i + j))
}

proof fn lemma_children_step(s: State, v: Value, i: nat)
    requires
        i < model::count(v),
    ensures
        model::run_children(s, v, i) == (match model::run(
            s.with_key(model::child_key(v, i as int)),
            model::child(v, i as int),
        ) {
            Outcome::Done(t) => model::run_children(t, v, i + 1),
            o => o,
        }),
{
}

/// A value that ended in success comes in front of those that are serialized after it.
proof fn lemma_one_more(
    s: State,
    t: State,
    later: Seq<State>,
    keys: Seq<Seq<char>>,
    values: Seq<Value>,
    end: Seq<u8>,
    o: Outcome,
)
    requires
        keys.len() == values.len(),
        values.len() > 0,
        model::run((State { next_key: Some(keys[0]), ..s }), values[0]) == Outcome::Done(t),
        in_turn(t, later, keys.drop_first(), values.drop_first(), end, o),
    ensures
        in_turn(s, seq![s] + later, keys, values, end, o),
{
    let trace = seq![s] + later;
    assert(trace.last() == later.last());
    assert forall|j: int| 0 <= j < trace.len() - 1 implies #[trigger] goes_on(
        trace,
        keys,
        values,
        j,
    ) by {
        if j > 0 {
            assert(goes_on(later, keys.drop_first(), values.drop_first(), j - 1));
            assert(trace[j] == later[j - 1]);
            assert(trace[j + 1] == later[j]);
            assert(values[j] == values.drop_first()[j - 1]);
            assert(keys[j] == keys.drop_first()[j - 1]);
        } else {
            assert(trace[1] == later[0]);
        }
    }
    if trace.len() <= values.len() {
        let k = trace.len() - 1;
        assert(trace[k] == later[k - 1]);
        assert(values[k] == values.drop_first()[k - 1]);
        assert(keys[k] == keys.drop_first()[k - 1]);
    }
}

proof fn lemma_trace(s: State, v: Value, i: nat, end: Seq<u8>, o: Outcome) -> (trace: Seq<State>)
    requires
        i <= model::count(v),
        o == model::run_children(s, v, i).emit(end),
    ensures
        in_turn(s, trace, child_keys(v, i), children(v, i), end, o),
    decreases model::count(v) - i,
{
    let keys = child_keys(v, i);
    let values = children(v, i);
    if i == model::count(v) {
        assert(model::run_children(s, v, i) == Outcome::Done(s));
        seq![s]
    } else {
        lemma_children_step(s, v, i);
        assert(keys[0] == model::child_key(v, i as int));
        assert(values[0] == model::child(v, i as int));
        match model::run((State { next_key: Some(keys[0]), ..s }), values[0]) {
            Outcome::Done(t) => {
                let later = lemma_trace(t, v, i + 1, end, o);
                assert(keys.drop_first() =~= child_keys(v, i + 1));
                assert(values.drop_first() =~= children(v, i + 1));
                lemma_one_more(s, t, later, keys, values, end, o);
                seq![s] + later
            },
            _ => seq![s],
        }
    }
}

proof fn lemma_container_run(s: State, v: Value)
    requires
        model::is_container(v),
    ensures
        model::run(s, v) == (match model::opening(s, v) {
            Outcome::Done(t) => model::run_children(t, v, 0).emit(model::closing(v)),
            o => o,
        }),
{
}

proof fn lemma_document(s: State, v: Value, kind: ElementType)
    requires
        model::is_container(v),
        model::opening(s, v) == model::open_document(s, kind),
        model::closing(v) == seq![0u8],
    ensures
        writes_document(s, kind, child_keys(v, 0), children(v, 0), model::run(s, v)),
{
    lemma_container_run(s, v);
    if let Outcome::Done(w) = model::open_document(s, kind) {
        let trace = lemma_trace(w, v, 0, seq![0u8], model::run(s, v));
    }
}

proof fn lemma_variant(s: State, v: Value, variant: Seq<char>, inner: ElementType)
    requires
        model::is_container(v),
        model::opening(s, v) == model::open_variant(s, variant, inner),
        model::closing(v) == seq![0u8, 0u8],
    ensures
        writes_variant(s, variant, inner, child_keys(v, 0), children(v, 0), model::run(s, v)),
{
    lemma_container_run(s, v);
    lemma_variant_opening(s, variant, inner);
    if let Outcome::Done(y) = model::open_variant(s, variant, inner) {
        let trace = lemma_trace(y, v, 0, seq![0u8, 0u8], model::run(s, v));
    }
}

/// Sequences, tuples and tuple structs are written as arrays whose elements go under their
/// indices; mappings and structs as documents whose values go under their own keys; a variant with
/// one unnamed field as a document that holds it under the name of the variant; and the other
/// variants with fields as a document that holds, under the name of the variant, the array or the
/// document of all their fields.
pub proof fn law_containers_written(s: State, v: Value)
    ensures
        v matches Value::Sequence(elements) ==> writes_document(
            s,
            ElementType::Array,
            Seq::new(elements@.len(), |i: int| text::decimal(i as nat)),
            elements@,
            model::run(s, v),
        ),
        v matches Value::Tuple(elements) ==> writes_document(
            s,
            ElementType::Array,
            Seq::new(elements@.len(), |i: int| text::decimal(i as nat)),
            elements@,
            model::run(s, v),
        ),
        v matches Value::TupleStruct { elements, .. } ==> writes_document(
            s,
            ElementType::Array,
            Seq::new(elements@.len(), |i: int| text::decimal(i as nat)),
            elements@,
            model::run(s, v),
        ),
        v matches Value::Mapping(entries) ==> writes_document(
            s,
            ElementType::EmbeddedDocument,
            Seq::new(entries@.len(), |i: int| entries@[i].0@),
            Seq::new(entries@.len(), |i: int| entries@[i].1),
            model::run(s, v),
        ),
        v matches Value::Struct { name, fields } ==> (element::reserved_type(name@) is None
            ==> writes_document(
            s,
            ElementType::EmbeddedDocument,
            Seq::new(fields@.len(), |i: int| fields@[i].key@),
            Seq::new(fields@.len(), |i: int| fields@[i].value),
            model::run(s, v),
        )),
        v matches Value::NewtypeVariant { variant, value, .. } ==> writes_document(
            s,
            ElementType::EmbeddedDocument,
            seq![variant@],
            seq![*value],
            model::run(s, v),
        ),
        v matches Value::TupleVariant { variant, elements, .. } ==> writes_variant(
            s,
            variant@,
            ElementType::Array,
            Seq::new(elements@.len(), |i: int| text::decimal(i as nat)),
            elements@,
            model::run(s, v),
        ),
        v matches Value::StructVariant { variant, fields, .. } ==> writes_variant(
            s,
            variant@,
            ElementType::EmbeddedDocument,
            Seq::new(fields@.len(), |i: int| fields@[i].key@),
            Seq::new(fields@.len(), |i: int| fields@[i].value),
            model::run(s, v),
        ),
{
    let keys = child_keys(v, 0);
    let values = children(v, 0);
    match v {
        Value::Sequence(elements) => {
            lemma_document(s, v, ElementType::Array);
            assert(keys =~= Seq::new(elements@.len(), |i: int| text::decimal(i as nat)));
            assert(values =~= elements@);
        },
        Value::Tuple(elements) => {
            lemma_document(s, v, ElementType::Array);
            assert(keys =~= Seq::new(elements@.len(), |i: int| text::decimal(i as nat)));
            assert(values =~= elements@);
        },
        Value::TupleStruct { elements, .. } => {
            lemma_document(s, v, ElementType::Array);
            assert(keys =~= Seq::new(elements@.len(), |i: int| text::decimal(i as nat)));
            assert(values =~= elements@);
        },
        Value::Mapping(entries) => {
            lemma_document(s, v, ElementType::EmbeddedDocument);
            assert(keys =~= Seq::new(entries@.len(), |i: int| entries@[i].0@));
            assert(values =~= Seq::new(entries@.len(), |i: int| entries@[i].1));
        },
        Value::Struct { name, fields } => if element::reserved_type(name@) is None {
            lemma_document(s, v, ElementType::EmbeddedDocument);
            assert(keys =~= Seq::new(fields@.len(), |i: int| fields@[i].key@));
            assert(values =~= Seq::new(fields@.len(), |i: int| fields@[i].value));
        },
        Value::NewtypeVariant { variant, value, .. } => {
            lemma_document(s, v, ElementType::EmbeddedDocument);
            assert(keys =~= seq![variant@]);
            assert(values =~= seq![*value]);
        },
        Value::TupleVariant { variant, elements, .. } => {
            lemma_variant(s, v, variant@, ElementType::Array);
            assert(keys =~= Seq::new(elements@.len(), |i: int| text::decimal(i as nat)));
            assert(values =~= elements@);
        },
        Value::StructVariant { variant, fields, .. } => {
            lemma_variant(s, v, variant@, ElementType::EmbeddedDocument);
            assert(keys =~= Seq::new(fields@.len(), |i: int| fields@[i].key@));
            assert(values =~= Seq::new(fields@.len(), |i: int| fields@[i].value));
        },
        _ => {},
    }
}

/// Opening a variant is opening a document, and in it another under the name of the variant.
proof fn lemma_variant_opening(s: State, variant: Seq<char>, inner: ElementType)
    ensures
        model::open_variant(s, variant, inner) == (match model::open_document(
            s,
            ElementType::EmbeddedDocument,
        ) {
            Outcome::Done(w) => model::open_document(w.with_key(variant), inner),
            failed => failed,
        }),
{
    if let Outcome::Done(w) = model::open_document(s, ElementType::EmbeddedDocument) {
        assert(w.next_key is None);
    }
}

/// A variant with one unnamed field is written as a document that holds it under the name of the
/// variant, also where it is not given as a value.
pub proof fn law_newtype_variant_written(s: State, variant: Seq<char>, inside: Value)
    ensures
        writes_document(
            s,
            ElementType::EmbeddedDocument,
            seq![variant],
            seq![inside],
            model::newtype_variant(s, variant, inside),
        ),
{
    let keys = seq![variant];
    let values = seq![inside];
    if let Outcome::Done(w) = model::open_document(s, ElementType::EmbeddedDocument) {
        let o = model::newtype_variant(s, variant, inside);
        match model::run(w.with_key(variant), inside) {
            Outcome::Done(t) => {
                let trace = seq![w, t];
                assert(in_turn(w, trace, keys, values, seq![0u8], o));
            },
            _ => {
                let trace = seq![w];
                assert(in_turn(w, trace, keys, values, seq![0u8], o));
            },
        }
    }
}

/// The messages of the two errors that the serializer itself makes.
pub proof fn law_messages(t: ElementType, n: nat)
    ensures
        error::non_document(t) == Failure::SerializationError(
            "attempted to encode a non-document type at the top level: "@ + t.spec_name()@,
        ),
        error::binary_too_long(n) == Failure::SerializationError(
            "binary length "@ + text::decimal(n) + " exceeded maximum size"@,
        ),
{
}

/// Where two texts are written as the same bytes they are the same text: texts, and variants
/// without fields, can be told apart by what is written for them.
pub proof fn law_texts_told_apart(s: State, a: Value, b: Value)
    requires
        a is Str || a is UnitVariant,
        b is Str || b is UnitVariant,
        model::run(s, a) is Done,
        model::run(s, a) == model::run(s, b),
    ensures
        ({
            let first = match a {
                Value::Str(text) => text@,
                Value::UnitVariant { variant, .. } => variant@,
                _ => seq![],
            };
            let second = match b {
                Value::Str(text) => text@,
                Value::UnitVariant { variant, .. } => variant@,
                _ => seq![],
            };
            first == second
        }),
{
    law_plain_values_written(s, a);
    law_plain_values_written(s, b);
    let first = match a {
        Value::Str(text) => text@,
        Value::UnitVariant { variant, .. } => variant@,
        _ => seq![],
    };
    let second = match b {
        Value::Str(text) => text@,
        Value::UnitVariant { variant, .. } => variant@,
        _ => seq![],
    };
    assert(encode_utf8(first) == encode_utf8(second));
    text::lemma_utf8_injective(first, second);
}

} // verus!
