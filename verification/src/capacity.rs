//! Whether a serializer can serialize a value: whether the recorded lengths last, and the sizes
//! of texts can be written, for as far as serialization gets.

use crate::element;
use crate::element::ElementType;
use crate::element::ValueType;
use crate::element::MAX_BSON_SIZE;
use crate::laws;
use crate::model;
use crate::model::Outcome;
use crate::model::State;
use crate::serializer::Serializer;
use crate::serializer::SerializerHint;
use crate::text;
use crate::value::Field;
use crate::value::Newtype;
use crate::value::Value;
use vstd::prelude::*;

verus! {

/// What there is to know of the key that the next value goes under.
#[derive(Clone, Copy, Debug, PartialEq, Eq, Structural)]
pub enum NextKey {
    /// There is none.
    Missing,
    /// There is one that can be written.
    Writable,
    /// There is one with a NUL character.
    Unwritable,
}

/// What the course of serialization depends on in the state of a serializer.
#[derive(Clone, Copy, Debug, PartialEq, Eq, Structural)]
pub struct Outlook {
    /// How many recorded lengths are left.
    pub lengths: usize,
    pub started: bool,
    pub key: NextKey,
    pub hint: SerializerHint,
    pub human_readable: bool,
}

/// How a step of serialization will end.
enum Forecast {
    Done(Outlook),
    Failed,
    Undefined,
}

impl Outlook {
    /// Whether this is what there is to know of `s`.
    pub open spec fn fits(self, s: State) -> bool {
        &&& self.lengths == s.lens.len()
        &&& self.started == s.started
        &&& self.hint == s.hint
        &&& self.human_readable == s.human_readable
        &&& match s.next_key {
            None => self.key == NextKey::Missing,
            Some(key) => self.key == if text::has_nul(key) {
                NextKey::Unwritable
            } else {
                NextKey::Writable
            },
        }
    }

    /// The same, with a key that may have a NUL character.
    fn with_key(self, nul: bool) -> (r: Outlook)
        ensures
            r == (Outlook {
                key: if nul {
                    NextKey::Unwritable
                } else {
                    NextKey::Writable
                },
                ..self
            }),
    {
        let key = if nul {
            NextKey::Unwritable
        } else {
            NextKey::Writable
        };
        Outlook { key, ..self }
    }

    /// How writing the key will end.
    fn key(self, t: ElementType, Ghost(s): Ghost<State>) -> (r: Forecast)
        requires
            self.fits(s),
        ensures
            r.foretells(model::key(s, t)),
    {
        match self.key {
            NextKey::Writable => Forecast::Done(Outlook { key: NextKey::Missing, ..self }),
            NextKey::Unwritable => Forecast::Failed,
            NextKey::Missing => if !self.started && t == ElementType::EmbeddedDocument {
                Forecast::Done(self)
            } else {
                Forecast::Failed
            },
        }
    }

    /// How writing the next recorded length will end.
    fn next_len(self, Ghost(s): Ghost<State>) -> (r: Forecast)
        requires
            self.fits(s),
        ensures
            r.foretells(model::next_len(s)),
    {
        if self.lengths == 0 {
            Forecast::Undefined
        } else {
            Forecast::Done(Outlook { lengths: self.lengths - 1, started: true, ..self })
        }
    }

    /// How opening a document or an array will end.
    fn open_document(self, t: ElementType, Ghost(s): Ghost<State>) -> (r: Forecast)
        requires
            self.fits(s),
        ensures
            r.foretells(model::open_document(s, t)),
    {
        match self.key(t, Ghost(s)) {
            Forecast::Done(o) => o.next_len(Ghost(model::key(s, t)->Done_0)),
            f => f,
        }
    }

    /// How opening the two documents of a variant will end.
    fn open_variant(
        self,
        variant: &str,
        inner: Ghost<ElementType>,
        Ghost(s): Ghost<State>,
    ) -> (r: Forecast)
        requires
            self.fits(s),
        ensures
            r.foretells(model::open_variant(s, variant@, inner@)),
    {
        match self.open_document(ElementType::EmbeddedDocument, Ghost(s)) {
            Forecast::Done(o) => {
                if text::contains_nul(variant) {
                    return Forecast::Failed;
                }
                let ghost keyed = model::key(s, ElementType::EmbeddedDocument)->Done_0;
                let ghost typed = model::next_len(keyed).emit(seq![inner@.spec_code()])->Done_0;
                o.next_len(Ghost(model::cstring(typed, variant@)->Done_0))
            },
            f => f,
        }
    }

    /// How serializing a text will end.
    fn put_text(self, text: &str, Ghost(s): Ghost<State>) -> (r: Forecast)
        requires
            self.fits(s),
        ensures
            r.foretells(model::put_text(s, text@)),
    {
        match self.key(ElementType::String, Ghost(s)) {
            Forecast::Done(o) => if has_sizable_length(text) {
                Forecast::Done(o)
            } else {
                Forecast::Undefined
            },
            f => f,
        }
    }

    /// How serializing bytes will end.
    fn put_bytes(self, bytes: &Vec<u8>, Ghost(s): Ghost<State>) -> (r: Forecast)
        requires
            self.fits(s),
        ensures
            r.foretells(model::put_bytes(s, bytes@)),
    {
        let o = Outlook { hint: SerializerHint::Absent, ..self };
        let ghost t = State { hint: SerializerHint::Absent, ..s };
        match self.hint {
            SerializerHint::RawDocument => o.key(ElementType::EmbeddedDocument, Ghost(t)),
            SerializerHint::RawArray => o.key(ElementType::Array, Ghost(t)),
            _ => match o.key(ElementType::Binary, Ghost(t)) {
                Forecast::Done(o) => if bytes.len() > MAX_BSON_SIZE as usize {
                    Forecast::Failed
                } else {
                    Forecast::Done(o)
                },
                f => f,
            },
        }
    }

    /// How serializing a struct with a reserved name will end.
    fn put_reserved(
        self,
        name: &str,
        value_type: ValueType,
        fields: &Vec<Field>,
        Ghost(s): Ghost<State>,
    ) -> (r: Forecast)
        requires
            self.fits(s),
            element::reserved_type(name@) == Some(value_type),
        ensures
            r.foretells(
                match model::open_struct(s, name@) {
                    Outcome::Done(t) => model::put_extended_fields(t, fields@, 0),
                    o => o,
                },
            ),
    {
        match self.key(value_type.element_type(), Ghost(s)) {
            Forecast::Done(o) => {
                let ghost start = model::open_struct(s, name@)->Done_0;
                let ghost mut t = start;
                let mut i: usize = 0;
                while i < fields.len()
                    invariant
                        i <= fields.len(),
                        o.fits(t),
                        model::open_struct(s, name@) == Outcome::Done(start),
                        model::put_extended_fields(start, fields@, 0)
                            == model::put_extended_fields(t, fields@, i as nat),
                    decreases fields.len() - i,
                {
                    if fields[i].extended.is_err() {
                        return Forecast::Failed;
                    }
                    proof {
                        t = model::put_extended(t, fields@[i as int].extended)->Done_0;
                    }
                    i += 1;
                }
                Forecast::Done(o)
            },
            f => f,
        }
    }
}

impl Forecast {
    /// Whether this is how a step with the outcome `o` ends.
    spec fn foretells(self, o: Outcome) -> bool {
        match o {
            Outcome::Done(t) => self matches Forecast::Done(outlook) && outlook.fits(t),
            Outcome::Failed(_, _) => self is Failed,
            Outcome::Undefined => self is Undefined,
        }
    }
}

/// Whether the size of a text can be written.
fn has_sizable_length(text: &str) -> (r: bool)
    ensures
        r == model::sizable(vstd::utf8::encode_utf8(text@).len()),
{
    let size: i32 = #[verifier::truncate]
    (text.as_bytes().len() as i32);
    size != i32::MAX
}

impl Value {
    /// Whether the value is written as a document with other values inside.
    fn is_container(&self) -> (r: bool)
        ensures
            r == model::is_container(*self),
    {
        match self {
            Value::NewtypeVariant { .. } => true,
            Value::Sequence(_) => true,
            Value::Tuple(_) => true,
            Value::TupleStruct { .. } => true,
            Value::TupleVariant { .. } => true,
            Value::Mapping(_) => true,
            Value::Struct { name, .. } => ValueType::from_name(name).is_none(),
            Value::StructVariant { .. } => true,
            _ => false,
        }
    }

    /// How many values are inside.
    fn count(&self) -> (r: usize)
        ensures
            r == model::count(*self),
    {
        match self {
            Value::NewtypeVariant { .. } => 1,
            Value::Sequence(elements) => elements.len(),
            Value::Tuple(elements) => elements.len(),
            Value::TupleStruct { elements, .. } => elements.len(),
            Value::TupleVariant { elements, .. } => elements.len(),
            Value::Mapping(entries) => entries.len(),
            Value::Struct { fields, .. } => fields.len(),
            Value::StructVariant { fields, .. } => fields.len(),
            _ => 0,
        }
    }

    /// The `i`th value inside.
    fn child(&self, i: usize) -> (r: &Value)
        requires
            i < model::count(*self),
        ensures
            *r == model::child(*self, i as int),
    {
        match self {
            Value::NewtypeVariant { value, .. } => value,
            Value::Sequence(elements) => &elements[i],
            Value::Tuple(elements) => &elements[i],
            Value::TupleStruct { elements, .. } => &elements[i],
            Value::TupleVariant { elements, .. } => &elements[i],
            Value::Mapping(entries) => &entries[i].1,
            Value::Struct { fields, .. } => &fields[i].value,
            Value::StructVariant { fields, .. } => &fields[i].value,
            _ => self,
        }
    }

    /// Whether the key of the `i`th value inside has a NUL character.
    fn child_key_has_nul(&self, i: usize) -> (r: bool)
        requires
            i < model::count(*self),
        ensures
            r == text::has_nul(model::child_key(*self, i as int)),
    {
        proof {
            text::law_numeral_has_no_nul(i as nat);
        }
        match self {
            Value::NewtypeVariant { variant, .. } => text::contains_nul(variant),
            Value::Mapping(entries) => text::contains_nul(entries[i].0.as_str()),
            Value::Struct { fields, .. } => text::contains_nul(fields[i].key),
            Value::StructVariant { fields, .. } => text::contains_nul(fields[i].key),
            _ => false,
        }
    }

    /// How opening this container will end.
    fn foresee_opening(&self, o: Outlook, Ghost(s): Ghost<State>) -> (r: Forecast)
        requires
            o.fits(s),
        ensures
            r.foretells(model::opening(s, *self)),
    {
        match self {
            Value::Sequence(_) => o.open_document(ElementType::Array, Ghost(s)),
            Value::Tuple(_) => o.open_document(ElementType::Array, Ghost(s)),
            Value::TupleStruct { .. } => o.open_document(ElementType::Array, Ghost(s)),
            Value::TupleVariant { variant, .. } => o.open_variant(
                variant,
                Ghost(ElementType::Array),
                Ghost(s),
            ),
            Value::StructVariant { variant, .. } => o.open_variant(
                variant,
                Ghost(ElementType::EmbeddedDocument),
                Ghost(s),
            ),
            _ => o.open_document(ElementType::EmbeddedDocument, Ghost(s)),
        }
    }

    /// How serializing this value, which has no other value inside, will end.
    fn foresee_scalar(&self, o: Outlook, Ghost(s): Ghost<State>) -> (r: Forecast)
        requires
            o.fits(s),
            !model::is_container(*self),
        ensures
            r.foretells(model::put_scalar(s, *self)),
    {
        match self {
            Value::Bool(_) => o.key(ElementType::Boolean, Ghost(s)),
            Value::I8(_) => o.key(ElementType::Int32, Ghost(s)),
            Value::I16(_) => o.key(ElementType::Int32, Ghost(s)),
            Value::I32(_) => o.key(ElementType::Int32, Ghost(s)),
            Value::I64(_) => o.key(ElementType::Int64, Ghost(s)),
            Value::U8(_) => o.key(ElementType::Int32, Ghost(s)),
            Value::U16(_) => o.key(ElementType::Int32, Ghost(s)),
            Value::U32(_) => o.key(ElementType::Int64, Ghost(s)),
            Value::U64(x) => if *x <= i64::MAX as u64 {
                o.key(ElementType::Int64, Ghost(s))
            } else {
                Forecast::Failed
            },
            Value::F64(_) => o.key(ElementType::Double, Ghost(s)),
            Value::Char(c) => {
                proof {
                    model::lemma_char_sizable(*c);
                }
                o.key(ElementType::String, Ghost(s))
            },
            Value::Str(text) => o.put_text(text.as_str(), Ghost(s)),
            Value::UnitVariant { variant, .. } => o.put_text(variant, Ghost(s)),
            Value::Bytes(bytes) => o.put_bytes(bytes, Ghost(s)),
            Value::Struct { name, fields } => match ValueType::from_name(name) {
                Some(value_type) => o.put_reserved(name, value_type, fields, Ghost(s)),
                None => Forecast::Failed,
            },
            _ => o.key(ElementType::Null, Ghost(s)),
        }
    }

    /// How serializing this value will end.
    fn foresee(&self, o: Outlook, Ghost(s): Ghost<State>) -> (r: Forecast)
        requires
            o.fits(s),
        ensures
            r.foretells(model::run(s, *self)),
        decreases self, 1nat,
    {
        match self {
            Value::Present(inside) => inside.foresee(o, Ghost(s)),
            Value::TwoForms { human_readable, compact } => if o.human_readable {
                human_readable.foresee(o, Ghost(s))
            } else {
                compact.foresee(o, Ghost(s))
            },
            Value::NewtypeStruct { name, value } => {
                let newtype = Newtype::from_name(name);
                let hint = match newtype {
                    Newtype::Uuid => SerializerHint::Uuid,
                    Newtype::RawDocument => SerializerHint::RawDocument,
                    Newtype::RawArray => SerializerHint::RawArray,
                    _ => o.hint,
                };
                let human_readable = newtype.inside_human_readable(o.human_readable);
                let ghost inside = model::enter_newtype(s, name@);
                match value.foresee(Outlook { hint, human_readable, ..o }, Ghost(inside)) {
                    Forecast::Done(after) => {
                        proof {
                            laws::lemma_used(inside, **value);
                        }
                        Forecast::Done(Outlook { human_readable: o.human_readable, ..after })
                    },
                    f => f,
                }
            },
            _ => {
                if !self.is_container() {
                    return self.foresee_scalar(o, Ghost(s));
                }
                match self.foresee_opening(o, Ghost(s)) {
                    Forecast::Done(inside) => {
                        let ghost t = model::opening(s, *self)->Done_0;
                        self.foresee_children(inside, Ghost(t))
                    },
                    f => f,
                }
            },
        }
    }

    /// How serializing the values inside will end.
    fn foresee_children(&self, o: Outlook, Ghost(s): Ghost<State>) -> (r: Forecast)
        requires
            o.fits(s),
        ensures
            r.foretells(model::run_children(s, *self, 0)),
        decreases self, 0nat,
    {
        let n = self.count();
        let ghost mut t = s;
        let mut outlook = o;
        let mut i: usize = 0;
        while i < n
            invariant
                i <= n,
                n == model::count(*self),
                outlook.fits(t),
                model::run_children(s, *self, 0) == model::run_children(t, *self, i as nat),
            decreases n - i,
        {
            let ghost u = t.with_key(model::child_key(*self, i as int));
            let keyed = outlook.with_key(self.child_key_has_nul(i));
            proof {
                model::lemma_child_decreases(*self, i as int);
            }
            match self.child(i).foresee(keyed, Ghost(u)) {
                Forecast::Done(next) => {
                    outlook = next;
                    proof {
                        t = model::run(u, model::child(*self, i as int))->Done_0;
                    }
                },
                f => return f,
            }
            i += 1;
        }
        Forecast::Done(outlook)
    }
}

impl Serializer {
    /// Whether [`Serializer::serialize`] can be called for the value: whether no recorded length
    /// is missing, and no size of a text out of range, before serialization ends in success or in
    /// an error.
    pub fn can_serialize(&self, v: &Value) -> (r: bool)
        ensures
            r == (model::run(self@, *v) !is Undefined),
    {
        match v.foresee(self.outlook(), Ghost(self@)) {
            Forecast::Undefined => false,
            _ => true,
        }
    }
}

} // verus!
