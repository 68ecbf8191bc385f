//! The closed set of shapes a codec value can take, as an explicit sum
//! type, together with its mathematical model and its byte encoding.
use vstd::prelude::*;

use crate::encode::{
    Encode, Encoder, TYPE_BOOL, TYPE_ENUM, TYPE_FIELDS_NAMED, TYPE_FIELDS_UNIT,
    TYPE_FIELDS_UNNAMED, TYPE_I128, TYPE_I16, TYPE_I32, TYPE_I64, TYPE_I8, TYPE_OPTION,
    TYPE_STRING, TYPE_STRUCT, TYPE_TUPLE, TYPE_U128, TYPE_U16, TYPE_U32, TYPE_U64, TYPE_U8,
    TYPE_UNIT, TYPE_VEC,
};
use vstd::bytes::{
    spec_u128_to_le_bytes, spec_u16_to_le_bytes, spec_u32_to_le_bytes, spec_u64_to_le_bytes,
};
use vstd::utf8::encode_utf8;

verus! {

/// The field layout of a struct or of one enum variant.
#[derive(Debug, PartialEq)]
pub enum Fields {
    /// Fields declared with names, encoded in declaration order.
    Named(Vec<Value>),
    /// Positional fields.
    Unnamed(Vec<Value>),
    /// No fields at all.
    Unit,
}

/// One self-describing codec value.
#[derive(Debug, PartialEq)]
pub enum Value {
    Unit,
    Bool(bool),
    I8(i8),
    I16(i16),
    I32(i32),
    I64(i64),
    I128(i128),
    U8(u8),
    U16(u16),
    U32(u32),
    U64(u64),
    U128(u128),
    Str(String),
    /// An optional value.
    Opt(Option<Box<Value>>),
    /// A homogeneous sequence of values.
    List(Vec<Value>),
    /// A fixed group of values.
    Tuple(Vec<Value>),
    /// A struct: its field layout.
    Struct(Fields),
    /// An enum: the declared index of its variant, then that variant's
    /// field layout.
    Enum(u8, Fields),
}

/// The model of a field layout; element order is declaration order.
pub enum FieldsV {
    Named(Seq<ValueV>),
    Unnamed(Seq<ValueV>),
    Unit,
}

/// The model of a codec value. An optional value is modelled as a sequence
/// of at most one element.
pub enum ValueV {
    Unit,
    Bool(bool),
    I8(i8),
    I16(i16),
    I32(i32),
    I64(i64),
    I128(i128),
    U8(u8),
    U16(u16),
    U32(u32),
    U64(u64),
    U128(u128),
    Str(Seq<char>),
    Opt(Seq<ValueV>),
    List(Seq<ValueV>),
    Tuple(Seq<ValueV>),
    Struct(FieldsV),
    Enum(u8, FieldsV),
}

/// The models of a sequence of values, in order.
pub open spec fn values_view(s: Seq<Value>) -> Seq<ValueV>
    decreases s,
{
    if s.len() == 0 {
        Seq::empty()
    } else {
        seq![s[0]@] + values_view(s.drop_first())
    }
}

impl View for Fields {
    type V = FieldsV;

    open spec fn view(&self) -> FieldsV
        decreases self,
    {
        match self {
            Fields::Named(vs) => FieldsV::Named(values_view(vs@)),
            Fields::Unnamed(vs) => FieldsV::Unnamed(values_view(vs@)),
            Fields::Unit => FieldsV::Unit,
        }
    }
}

impl View for Value {
    type V = ValueV;

    open spec fn view(&self) -> ValueV
        decreases self,
    {
        match self {
            Value::Unit => ValueV::Unit,
            Value::Bool(x) => ValueV::Bool(*x),
            Value::I8(x) => ValueV::I8(*x),
            Value::I16(x) => ValueV::I16(*x),
            Value::I32(x) => ValueV::I32(*x),
            Value::I64(x) => ValueV::I64(*x),
            Value::I128(x) => ValueV::I128(*x),
            Value::U8(x) => ValueV::U8(*x),
            Value::U16(x) => ValueV::U16(*x),
            Value::U32(x) => ValueV::U32(*x),
            Value::U64(x) => ValueV::U64(*x),
            Value::U128(x) => ValueV::U128(*x),
            Value::Str(s) => ValueV::Str(s@),
            Value::Opt(o) => ValueV::Opt(
                match o {
                    Some(b) => seq![(**b)@],
                    None => Seq::empty(),
                },
            ),
            Value::List(vs) => ValueV::List(values_view(vs@)),
            Value::Tuple(vs) => ValueV::Tuple(values_view(vs@)),
            Value::Struct(f) => ValueV::Struct(f@),
            Value::Enum(i, f) => ValueV::Enum(*i, f@),
        }
    }
}

/// The bytes a value encodes to: a type tag, then the value itself.
pub open spec fn value_encoded(v: ValueV) -> Seq<u8>
    decreases v, 0nat,
{
    match v {
        ValueV::Unit => seq![TYPE_UNIT],
        ValueV::Bool(x) => seq![TYPE_BOOL, (if x { 1u8 } else { 0u8 })],
        ValueV::I8(x) => seq![TYPE_I8, x as u8],
        ValueV::I16(x) => seq![TYPE_I16] + spec_u16_to_le_bytes(x as u16),
        ValueV::I32(x) => seq![TYPE_I32] + spec_u32_to_le_bytes(x as u32),
        ValueV::I64(x) => seq![TYPE_I64] + spec_u64_to_le_bytes(x as u64),
        ValueV::I128(x) => seq![TYPE_I128] + spec_u128_to_le_bytes(x as u128),
        ValueV::U8(x) => seq![TYPE_U8, x],
        ValueV::U16(x) => seq![TYPE_U16] + spec_u16_to_le_bytes(x),
        ValueV::U32(x) => seq![TYPE_U32] + spec_u32_to_le_bytes(x),
        ValueV::U64(x) => seq![TYPE_U64] + spec_u64_to_le_bytes(x),
        ValueV::U128(x) => seq![TYPE_U128] + spec_u128_to_le_bytes(x),
        ValueV::Str(s) => seq![TYPE_STRING] + spec_u32_to_le_bytes(encode_utf8(s).len() as u32)
            + encode_utf8(s),
        ValueV::Opt(o) => seq![TYPE_OPTION] + (if o.len() == 0 {
            seq![0u8]
        } else {
            seq![1u8] + value_encoded(o[0])
        }),
        ValueV::List(vs) => seq![TYPE_VEC] + spec_u32_to_le_bytes(vs.len() as u32) + values_encoded(
            vs,
        ),
        ValueV::Tuple(vs) => seq![TYPE_TUPLE] + spec_u32_to_le_bytes(vs.len() as u32)
            + values_encoded(vs),
        ValueV::Struct(f) => seq![TYPE_STRUCT] + fields_encoded(f),
        ValueV::Enum(i, f) => seq![TYPE_ENUM, i] + fields_encoded(f),
    }
}

/// The bytes a field layout encodes to: a layout tag, then for named and
/// unnamed layouts a four-byte field count and the field values in order.
pub open spec fn fields_encoded(f: FieldsV) -> Seq<u8>
    decreases f, 0nat,
{
    match f {
        FieldsV::Named(vs) => seq![TYPE_FIELDS_NAMED] + spec_u32_to_le_bytes(vs.len() as u32)
            + values_encoded(vs),
        FieldsV::Unnamed(vs) => seq![TYPE_FIELDS_UNNAMED] + spec_u32_to_le_bytes(vs.len() as u32)
            + values_encoded(vs),
        FieldsV::Unit => seq![TYPE_FIELDS_UNIT],
    }
}

/// The concatenated encodings of a sequence of values.
pub open spec fn values_encoded(s: Seq<ValueV>) -> Seq<u8>
    decreases s, 1nat,
{
    if s.len() == 0 {
        Seq::empty()
    } else {
        value_encoded(s[0]) + values_encoded(s.drop_first())
    }
}

/// Whether a value can be written at all: every element count, every
/// string's byte length and every option's width must fit the format.
pub open spec fn value_wf(v: ValueV) -> bool
    decreases v, 0nat,
{
    match v {
        ValueV::Str(s) => encode_utf8(s).len() <= u32::MAX,
        ValueV::Opt(o) => o.len() <= 1 && (o.len() == 1 ==> value_wf(o[0])),
        ValueV::List(vs) => vs.len() <= u32::MAX && values_wf(vs),
        ValueV::Tuple(vs) => vs.len() <= u32::MAX && values_wf(vs),
        ValueV::Struct(f) => fields_wf(f),
        ValueV::Enum(_, f) => fields_wf(f),
        _ => true,
    }
}

pub open spec fn fields_wf(f: FieldsV) -> bool
    decreases f, 0nat,
{
    match f {
        FieldsV::Named(vs) => vs.len() <= u32::MAX && values_wf(vs),
        FieldsV::Unnamed(vs) => vs.len() <= u32::MAX && values_wf(vs),
        FieldsV::Unit => true,
    }
}

pub open spec fn values_wf(s: Seq<ValueV>) -> bool
    decreases s, 1nat,
{
    forall|i: int| 0 <= i < s.len() ==> value_wf(#[trigger] s[i])
}

/// Unfolds `values_encoded` at the end instead of the front: the encoding
/// of `s` extended by one value is the encoding of `s` followed by that
/// value's encoding.
pub proof fn lemma_values_encoded_snoc(s: Seq<ValueV>, v: ValueV)
    ensures
        values_encoded(s.push(v)) == values_encoded(s) + value_encoded(v),
    decreases s.len(),
{
    if s.len() == 0 {
        assert(values_encoded(Seq::<ValueV>::empty()) == Seq::<u8>::empty());
        assert(s.push(v)[0] == v);
        assert(s.push(v).drop_first() =~= Seq::<ValueV>::empty());
        assert(values_encoded(s.push(v)) == value_encoded(v) + values_encoded(
            s.push(v).drop_first(),
        ));
        assert(values_encoded(s.push(v)) =~= value_encoded(v));
        assert(s =~= Seq::<ValueV>::empty());
        assert(values_encoded(s) + value_encoded(v) =~= value_encoded(v));
    } else {
        assert(s.push(v)[0] == s[0]);
        assert(s.push(v).drop_first() =~= s.drop_first().push(v));
        lemma_values_encoded_snoc(s.drop_first(), v);
        assert(values_encoded(s.push(v)) == value_encoded(s[0]) + (values_encoded(s.drop_first())
            + value_encoded(v)));
        assert(value_encoded(s[0]) + (values_encoded(s.drop_first()) + value_encoded(v)) =~= (
        value_encoded(s[0]) + values_encoded(s.drop_first())) + value_encoded(v));
    }
}

/// `values_view` of a prefix grows one model at a time.
pub proof fn lemma_values_view_take(s: Seq<Value>, i: int)
    requires
        0 <= i < s.len(),
    ensures
        values_view(s.take(i + 1)) == values_view(s.take(i)).push(s[i]@),
    decreases s.len(),
{
    if i == 0 {
        assert(values_view(Seq::<Value>::empty()) == Seq::<ValueV>::empty());
        assert(s.take(1).drop_first() =~= Seq::<Value>::empty());
        assert(s.take(1)[0] == s[0]);
        assert(values_view(s.take(1)) == seq![s.take(1)[0]@] + values_view(s.take(1).drop_first()));
        assert(values_view(s.take(1)) =~= seq![s[0]@]);
        assert(values_view(s.take(0)) =~= Seq::<ValueV>::empty());
        assert(values_view(s.take(0)).push(s[0]@) =~= seq![s[0]@]);
    } else {
        lemma_values_view_take(s.drop_first(), i - 1);
        assert(s.take(i + 1)[0] == s[0]);
        assert(s.take(i + 1).drop_first() =~= s.drop_first().take(i));
        assert(s.take(i).drop_first() =~= s.drop_first().take(i - 1));
        assert(s.take(i)[0] == s[0]);
        assert(s.drop_first()[i - 1] == s[i]);
        assert(values_view(s.take(i + 1)) == seq![s[0]@] + values_view(s.drop_first().take(i)));
        assert(seq![s[0]@] + values_view(s.drop_first().take(i - 1)).push(s[i]@) =~= (seq![s[0]@]
            + values_view(s.drop_first().take(i - 1))).push(s[i]@));
    }
}

impl Value {
    /// Appends this value's self-describing encoding to the encoder.
    pub fn encode_into(&self, encoder: &mut Encoder)
        requires
            value_wf(self@),
        ensures
            final(encoder)@ == old(encoder)@ + value_encoded(self@),
        decreases *self, 1nat,
    {
        match self {
            Value::Unit => encoder.encode_unit(),
            Value::Bool(x) => encoder.encode_bool(*x),
            Value::I8(x) => encoder.encode_i8(*x),
            Value::I16(x) => encoder.encode_i16(*x),
            Value::I32(x) => encoder.encode_i32(*x),
            Value::I64(x) => encoder.encode_i64(*x),
            Value::I128(x) => encoder.encode_i128(*x),
            Value::U8(x) => encoder.encode_u8(*x),
            Value::U16(x) => encoder.encode_u16(*x),
            Value::U32(x) => encoder.encode_u32(*x),
            Value::U64(x) => encoder.encode_u64(*x),
            Value::U128(x) => encoder.encode_u128(*x),
            Value::Str(s) => encoder.encode_string(s.clone()),
            Value::Opt(o) => {
                encoder.write_u8(TYPE_OPTION);
                match o {
                    Some(b) => {
                        encoder.write_u8(1u8);
                        (**b).encode_into(encoder);
                    },
                    None => {
                        encoder.write_u8(0u8);
                    },
                }
            },
            Value::List(vs) => {
                proof {
                    lemma_values_view_is_pointwise(vs@);
                }
                encoder.write_u8(TYPE_VEC);
                encoder.write_len(vs.len() as u32);
                Self::encode_values(vs, encoder);
            },
            Value::Tuple(vs) => {
                proof {
                    lemma_values_view_is_pointwise(vs@);
                }
                encoder.write_u8(TYPE_TUPLE);
                encoder.write_len(vs.len() as u32);
                Self::encode_values(vs, encoder);
            },
            Value::Struct(f) => {
                encoder.write_u8(TYPE_STRUCT);
                Self::encode_fields(f, encoder);
            },
            Value::Enum(i, f) => {
                encoder.write_u8(TYPE_ENUM);
                encoder.write_u8(*i);
                Self::encode_fields(f, encoder);
            },
        }
    }

    /// Appends a field layout: its tag, a field count where the layout has
    /// fields, and the field values.
    pub fn encode_fields(fields: &Fields, encoder: &mut Encoder)
        requires
            fields_wf(fields@),
        ensures
            final(encoder)@ == old(encoder)@ + fields_encoded(fields@),
        decreases *fields, 1nat,
    {
        match fields {
            Fields::Named(vs) => {
                proof {
                    lemma_values_view_is_pointwise(vs@);
                }
                encoder.write_u8(TYPE_FIELDS_NAMED);
                encoder.write_len(vs.len() as u32);
                Self::encode_values(vs, encoder);
            },
            Fields::Unnamed(vs) => {
                proof {
                    lemma_values_view_is_pointwise(vs@);
                }
                encoder.write_u8(TYPE_FIELDS_UNNAMED);
                encoder.write_len(vs.len() as u32);
                Self::encode_values(vs, encoder);
            },
            Fields::Unit => {
                encoder.write_u8(TYPE_FIELDS_UNIT);
            },
        }
    }

    /// Appends the encodings of the values in order, with no tag or count
    /// of its own.
    pub fn encode_values(values: &Vec<Value>, encoder: &mut Encoder)
        requires
            values_wf(values_view(values@)),
        ensures
            final(encoder)@ == old(encoder)@ + values_encoded(values_view(values@)),
        decreases *values, 2nat,
    {
        let ghost all = values_view(values@);
        proof {
            lemma_values_view_is_pointwise(values@);
        }
        let n = values.len();
        let mut i: usize = 0;
        assert(values_view(values@.take(0)) =~= Seq::<ValueV>::empty()) by {
            assert(values@.take(0).len() == 0);
        }
        while i < n
            invariant
                n == values@.len(),
                i <= n,
                all == values_view(values@),
                values_wf(all),
                all.len() == values@.len(),
                encoder@ == old(encoder)@ + values_encoded(values_view(values@.take(i as int))),
            decreases n - i,
        {
            proof {
                lemma_values_view_take(values@, i as int);
                lemma_values_encoded_snoc(values_view(values@.take(i as int)), values@[i as int]@);
                lemma_values_view_is_pointwise(values@);
                assert(value_wf(all[i as int]));
                assert(values@[i as int]@ == all[i as int]);
            }
            values[i].encode_into(encoder);
            i += 1;
        }
        assert(values@.take(n as int) =~= values@);
    }
}

/// `values_view` maps each element to its model, so indexing commutes with
/// taking views.
pub proof fn lemma_values_view_is_pointwise(s: Seq<Value>)
    ensures
        values_view(s).len() == s.len(),
        forall|i: int| 0 <= i < s.len() ==> values_view(s)[i] == s[i]@,
    decreases s,
{
    if s.len() == 0 {
        assert(values_view(s) == Seq::<ValueV>::empty());
    } else {
        lemma_values_view_is_pointwise(s.drop_first());
        assert(values_view(s) == seq![s[0]@] + values_view(s.drop_first()));
        assert forall|i: int| 0 <= i < s.len() implies values_view(s)[i] == s[i]@ by {
            if i > 0 {
                assert(s.drop_first()[i - 1] == s[i]);
                assert(values_view(s)[i] == values_view(s.drop_first())[i - 1]);
            }
        }
    }
}

impl Encode for Value {
    open spec fn encoded(&self) -> Seq<u8> {
        value_encoded(self@)
    }

    open spec fn encodable(&self) -> bool {
        value_wf(self@)
    }

    fn encode(&self, encoder: &mut Encoder) {
        self.encode_into(encoder);
    }
}

} // verus!
