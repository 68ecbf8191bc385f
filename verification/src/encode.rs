//! The encoding half of the self-describing binary codec.
//!
//! Every encoded value begins with a one-byte type tag. Integers are
//! little-endian and fixed width; strings carry a four-byte length followed
//! by their UTF-8 bytes; collections carry a four-byte element count
//! followed by the elements in order. A struct encodes as its tag, a
//! field-layout tag and a field count; an enum additionally inserts a
//! one-byte variant index ahead of its field layout. The byte layout is
//! part of the crate's external contract and must not change silently;
//! in particular the four-byte little-endian counts and little-endian
//! integers are fixed by the format's canonical byte vectors, which the
//! crate's tests pin bit for bit.
use vstd::prelude::*;

use vstd::bytes::{
    spec_u128_to_le_bytes, spec_u16_to_le_bytes, spec_u32_to_le_bytes, spec_u64_to_le_bytes,
    u128_to_le_bytes, u16_to_le_bytes, u32_to_le_bytes, u64_to_le_bytes,
};
use vstd::string::StrSliceExecFns;
use vstd::utf8::encode_utf8;

verus! {

pub const TYPE_UNIT: u8 = 0;

pub const TYPE_BOOL: u8 = 1;

pub const TYPE_I8: u8 = 2;

pub const TYPE_I16: u8 = 3;

pub const TYPE_I32: u8 = 4;

pub const TYPE_I64: u8 = 5;

pub const TYPE_I128: u8 = 6;

pub const TYPE_U8: u8 = 7;

pub const TYPE_U16: u8 = 8;

pub const TYPE_U32: u8 = 9;

pub const TYPE_U64: u8 = 10;

pub const TYPE_U128: u8 = 11;

pub const TYPE_STRING: u8 = 12;

pub const TYPE_OPTION: u8 = 13;

pub const TYPE_VEC: u8 = 14;

pub const TYPE_TUPLE: u8 = 15;

pub const TYPE_STRUCT: u8 = 16;

pub const TYPE_ENUM: u8 = 17;

pub const TYPE_FIELDS_NAMED: u8 = 18;

pub const TYPE_FIELDS_UNNAMED: u8 = 19;

pub const TYPE_FIELDS_UNIT: u8 = 20;

/// A value that knows its own byte encoding.
pub trait Encode {
    /// The bytes this value encodes to, tag included.
    spec fn encoded(&self) -> Seq<u8>;

    /// Whether the value can actually be written: every length and count in
    /// it must fit the format's four-byte fields.
    spec fn encodable(&self) -> bool;

    /// Appends this value's encoding to the encoder.
    fn encode(&self, encoder: &mut Encoder)
        requires
            self.encodable(),
        ensures
            final(encoder)@ == old(encoder)@ + self.encoded(),
    ;
}

/// The concatenated encodings of a sequence of values.
pub open spec fn encoded_seq<T: Encode>(s: Seq<T>) -> Seq<u8>
    decreases s.len(),
{
    if s.len() == 0 {
        Seq::empty()
    } else {
        encoded_seq(s.drop_last()) + s.last().encoded()
    }
}

/// A byte-buffer sink that writes the self-describing format.
pub struct Encoder {
    buf: Vec<u8>,
}

impl View for Encoder {
    type V = Seq<u8>;

    closed spec fn view(&self) -> Seq<u8> {
        self.buf@
    }
}

impl Encoder {
    /// An encoder over a fresh, empty buffer.
    pub fn new() -> (r: Self)
        ensures
            r@ == Seq::<u8>::empty(),
    {
        Self { buf: Vec::new() }
    }

    /// An encoder that appends self-describing, type-tagged values to the
    /// given buffer.
    pub fn with_type(buf: Vec<u8>) -> (r: Self)
        ensures
            r@ == buf@,
    {
        Self { buf }
    }

    /// Hands back the bytes written so far.
    pub fn into_vec(self) -> (r: Vec<u8>)
        ensures
            r@ == self@,
    {
        self.buf
    }

    /// Appends one raw byte.
    pub fn write_u8(&mut self, value: u8)
        ensures
            final(self)@ == old(self)@ + seq![value],
    {
        self.buf.push(value);
    }

    /// Appends a raw four-byte little-endian length field.
    pub fn write_len(&mut self, len: u32)
        ensures
            final(self)@ == old(self)@ + spec_u32_to_le_bytes(len),
    {
        let mut bytes = u32_to_le_bytes(len);
        self.buf.append(&mut bytes);
    }

    /// Appends raw bytes with no tag or length.
    pub fn write_slice(&mut self, bytes: &[u8])
        ensures
            final(self)@ == old(self)@ + bytes@,
    {
        let mut copy = vstd::slice::slice_to_vec(bytes);
        self.buf.append(&mut copy);
    }

    pub fn encode_unit(&mut self)
        ensures
            final(self)@ == old(self)@ + seq![TYPE_UNIT],
    {
        self.write_u8(TYPE_UNIT);
    }

    pub fn encode_bool(&mut self, value: bool)
        ensures
            final(self)@ == old(self)@ + seq![TYPE_BOOL, (if value { 1u8 } else { 0u8 })],
    {
        self.write_u8(TYPE_BOOL);
        self.write_u8(if value { 1u8 } else { 0u8 });
    }

    pub fn encode_i8(&mut self, value: i8)
        ensures
            final(self)@ == old(self)@ + seq![TYPE_I8, value as u8],
    {
        self.write_u8(TYPE_I8);
        self.write_u8(value as u8);
    }

    pub fn encode_u8(&mut self, value: u8)
        ensures
            final(self)@ == old(self)@ + seq![TYPE_U8, value],
    {
        self.write_u8(TYPE_U8);
        self.write_u8(value);
    }

    pub fn encode_i16(&mut self, value: i16)
        ensures
            final(self)@ == old(self)@ + seq![TYPE_I16] + spec_u16_to_le_bytes(value as u16),
    {
        self.write_u8(TYPE_I16);
        let mut bytes = u16_to_le_bytes(value as u16);
        self.buf.append(&mut bytes);
    }

    pub fn encode_u16(&mut self, value: u16)
        ensures
            final(self)@ == old(self)@ + seq![TYPE_U16] + spec_u16_to_le_bytes(value),
    {
        self.write_u8(TYPE_U16);
        let mut bytes = u16_to_le_bytes(value);
        self.buf.append(&mut bytes);
    }

    pub fn encode_i32(&mut self, value: i32)
        ensures
            final(self)@ == old(self)@ + seq![TYPE_I32] + spec_u32_to_le_bytes(value as u32),
    {
        self.write_u8(TYPE_I32);
        let mut bytes = u32_to_le_bytes(value as u32);
        self.buf.append(&mut bytes);
    }

    pub fn encode_u32(&mut self, value: u32)
        ensures
            final(self)@ == old(self)@ + seq![TYPE_U32] + spec_u32_to_le_bytes(value),
    {
        self.write_u8(TYPE_U32);
        let mut bytes = u32_to_le_bytes(value);
        self.buf.append(&mut bytes);
    }

    pub fn encode_i64(&mut self, value: i64)
        ensures
            final(self)@ == old(self)@ + seq![TYPE_I64] + spec_u64_to_le_bytes(value as u64),
    {
        self.write_u8(TYPE_I64);
        let mut bytes = u64_to_le_bytes(value as u64);
        self.buf.append(&mut bytes);
    }

    pub fn encode_u64(&mut self, value: u64)
        ensures
            final(self)@ == old(self)@ + seq![TYPE_U64] + spec_u64_to_le_bytes(value),
    {
        self.write_u8(TYPE_U64);
        let mut bytes = u64_to_le_bytes(value);
        self.buf.append(&mut bytes);
    }

    pub fn encode_i128(&mut self, value: i128)
        ensures
            final(self)@ == old(self)@ + seq![TYPE_I128] + spec_u128_to_le_bytes(value as u128),
    {
        self.write_u8(TYPE_I128);
        let mut bytes = u128_to_le_bytes(value as u128);
        self.buf.append(&mut bytes);
    }

    pub fn encode_u128(&mut self, value: u128)
        ensures
            final(self)@ == old(self)@ + seq![TYPE_U128] + spec_u128_to_le_bytes(value),
    {
        self.write_u8(TYPE_U128);
        let mut bytes = u128_to_le_bytes(value);
        self.buf.append(&mut bytes);
    }

    /// Appends a string: tag, four-byte byte length, then the UTF-8 bytes.
    pub fn encode_string(&mut self, value: String)
        requires
            encode_utf8(value@).len() <= u32::MAX,
        ensures
            final(self)@ == old(self)@ + seq![TYPE_STRING] + spec_u32_to_le_bytes(
                encode_utf8(value@).len() as u32,
            ) + encode_utf8(value@),
    {
        self.write_u8(TYPE_STRING);
        let mut bytes = value.as_str().as_bytes_vec();
        self.write_len(bytes.len() as u32);
        self.buf.append(&mut bytes);
    }

    /// Appends an optional value: tag, a presence byte, then the value when
    /// present.
    pub fn encode_option<T: Encode>(&mut self, value: Option<T>)
        requires
            value is Some ==> value->0.encodable(),
        ensures
            final(self)@ == old(self)@ + seq![TYPE_OPTION] + match value {
                Some(v) => seq![1u8] + v.encoded(),
                None => seq![0u8],
            },
    {
        self.write_u8(TYPE_OPTION);
        match value {
            Some(v) => {
                self.write_u8(1u8);
                v.encode(self);
            },
            None => {
                self.write_u8(0u8);
            },
        }
    }

    /// Appends a vector: tag, four-byte element count, then the elements in
    /// order.
    pub fn encode_vec<T: Encode>(&mut self, value: Vec<T>)
        requires
            value@.len() <= u32::MAX,
            forall|i: int| 0 <= i < value@.len() ==> (#[trigger] value@[i]).encodable(),
        ensures
            final(self)@ == old(self)@ + seq![TYPE_VEC] + spec_u32_to_le_bytes(
                value@.len() as u32,
            ) + encoded_seq(value@),
    {
        self.write_u8(TYPE_VEC);
        self.write_len(value.len() as u32);
        let ghost all = value@;
        let n = value.len();
        let mut i: usize = 0;
        while i < n
            invariant
                n == all.len(),
                i <= n,
                value@ == all,
                forall|j: int| 0 <= j < all.len() ==> (#[trigger] all[j]).encodable(),
                self@ == old(self)@ + seq![TYPE_VEC] + spec_u32_to_le_bytes(all.len() as u32)
                    + encoded_seq(all.take(i as int)),
            decreases n - i,
        {
            assert(all.take(i + 1).drop_last() =~= all.take(i as int));
            assert(all.take(i + 1).last() == all[i as int]);
            value[i].encode(self);
            i += 1;
        }
        assert(all.take(n as int) =~= all);
    }

    /// Appends a two-element tuple: tag, the count two, then both elements.
    pub fn encode_tuple<A: Encode, B: Encode>(&mut self, value: (A, B))
        requires
            value.0.encodable(),
            value.1.encodable(),
        ensures
            final(self)@ == old(self)@ + seq![TYPE_TUPLE] + spec_u32_to_le_bytes(2u32)
                + value.0.encoded() + value.1.encoded(),
    {
        self.write_u8(TYPE_TUPLE);
        self.write_len(2u32);
        value.0.encode(self);
        value.1.encode(self);
    }

    /// Appends a struct, which writes its own struct tag and field layout.
    pub fn encode_struct<T: Encode>(&mut self, value: T)
        requires
            value.encodable(),
        ensures
            final(self)@ == old(self)@ + value.encoded(),
    {
        value.encode(self);
    }

    /// Appends an enum, which writes its own enum tag, variant index and
    /// field layout.
    pub fn encode_enum<T: Encode>(&mut self, value: T)
        requires
            value.encodable(),
        ensures
            final(self)@ == old(self)@ + value.encoded(),
    {
        value.encode(self);
    }
}

} // verus!
