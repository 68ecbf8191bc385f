//! The decoding half of the self-describing binary codec.
//!
//! Decoding is specified exactly: [`spec_decode_value`] says, for every
//! input, both whether decoding succeeds and what it yields, and every
//! executable decoder is proved to follow it. Together with the encoder's
//! contracts this gives the codec's round-trip law,
//! [`lemma_encode_decode_value`]: decoding an encoding yields the original
//! value and consumes exactly its bytes.
use vstd::prelude::*;

use crate::encode::{
    TYPE_BOOL, TYPE_ENUM, TYPE_FIELDS_NAMED, TYPE_FIELDS_UNIT, TYPE_FIELDS_UNNAMED, TYPE_I128,
    TYPE_I16, TYPE_I32, TYPE_I64, TYPE_I8, TYPE_OPTION, TYPE_STRING, TYPE_STRUCT, TYPE_TUPLE,
    TYPE_U128, TYPE_U16, TYPE_U32, TYPE_U64, TYPE_U8, TYPE_UNIT, TYPE_VEC,
};
use crate::value::{
    fields_encoded, fields_wf, value_encoded, value_wf, values_encoded, values_view, values_wf,
    Fields, FieldsV, Value, ValueV,
};
use vstd::bytes::{
    lemma_auto_spec_u128_to_from_le_bytes, lemma_auto_spec_u16_to_from_le_bytes,
    lemma_auto_spec_u32_to_from_le_bytes, lemma_auto_spec_u64_to_from_le_bytes,
    spec_u128_from_le_bytes, spec_u16_from_le_bytes, spec_u32_from_le_bytes,
    spec_u64_from_le_bytes, u128_from_le_bytes, u16_from_le_bytes, u32_from_le_bytes,
    u64_from_le_bytes,
};
use vstd::slice::{slice_subrange, slice_to_vec};
use vstd::utf8::{decode_utf8, encode_utf8, encode_utf8_decode_utf8, encode_utf8_valid_utf8,
    valid_utf8};

verus! {

/// A typed decoding failure. Tag, length and index mismatches are protocol
/// violations: the input does not carry what the reader expects.
#[derive(Debug, Clone, Copy, PartialEq, Eq, Structural)]
pub enum DecodeError {
    /// The input ended before the value did.
    Underflow,
    /// A type tag that names no shape.
    UnknownType(u8),
    /// The tag read differs from the statically expected one
    /// (expected, actual).
    InvalidType(u8, u8),
    /// The length field read differs from the statically expected one
    /// (expected, actual).
    InvalidLength(u32, u32),
    /// An enum variant index at or beyond the declared variant count.
    InvalidIndex(u8),
    /// A boolean byte that is neither zero nor one.
    InvalidBool(u8),
    /// An option presence byte that is neither zero nor one.
    InvalidOption(u8),
    /// String bytes that are not valid UTF-8.
    InvalidUtf8,
}

/// Reading one byte: the byte and what follows it.
pub open spec fn spec_read_u8(b: Seq<u8>) -> Result<(u8, Seq<u8>), DecodeError> {
    if b.len() >= 1 {
        Ok((b[0], b.skip(1)))
    } else {
        Err(DecodeError::Underflow)
    }
}

/// Reading a four-byte little-endian length field.
pub open spec fn spec_read_len(b: Seq<u8>) -> Result<(u32, Seq<u8>), DecodeError> {
    if b.len() >= 4 {
        Ok((spec_u32_from_le_bytes(b.subrange(0, 4)), b.skip(4)))
    } else {
        Err(DecodeError::Underflow)
    }
}

/// Reading exactly `n` raw bytes.
pub open spec fn spec_read_bytes(b: Seq<u8>, n: nat) -> Result<(Seq<u8>, Seq<u8>), DecodeError> {
    if b.len() >= n {
        Ok((b.take(n as int), b.skip(n as int)))
    } else {
        Err(DecodeError::Underflow)
    }
}

/// What decoding one self-describing value yields, for every input: either
/// the value's model and the unread remainder, or the exact error.
pub open spec fn spec_decode_value(b: Seq<u8>) -> Result<(ValueV, Seq<u8>), DecodeError>
    decreases b.len(), 0nat, 1nat,
{
    match spec_read_u8(b) {
        Err(e) => Err(e),
        Ok((tag, r)) => {
            if tag == TYPE_UNIT {
                Ok((ValueV::Unit, r))
            } else if tag == TYPE_BOOL {
                match spec_read_u8(r) {
                    Err(e) => Err(e),
                    Ok((x, r2)) => {
                        if x == 0 {
                            Ok((ValueV::Bool(false), r2))
                        } else if x == 1 {
                            Ok((ValueV::Bool(true), r2))
                        } else {
                            Err(DecodeError::InvalidBool(x))
                        }
                    },
                }
            } else if tag == TYPE_I8 {
                match spec_read_u8(r) {
                    Err(e) => Err(e),
                    Ok((x, r2)) => Ok((ValueV::I8(x as i8), r2)),
                }
            } else if tag == TYPE_I16 {
                match spec_read_bytes(r, 2) {
                    Err(e) => Err(e),
                    Ok((bs, r2)) => Ok((ValueV::I16(spec_u16_from_le_bytes(bs) as i16), r2)),
                }
            } else if tag == TYPE_I32 {
                match spec_read_bytes(r, 4) {
                    Err(e) => Err(e),
                    Ok((bs, r2)) => Ok((ValueV::I32(spec_u32_from_le_bytes(bs) as i32), r2)),
                }
            } else if tag == TYPE_I64 {
                match spec_read_bytes(r, 8) {
                    Err(e) => Err(e),
                    Ok((bs, r2)) => Ok((ValueV::I64(spec_u64_from_le_bytes(bs) as i64), r2)),
                }
            } else if tag == TYPE_I128 {
                match spec_read_bytes(r, 16) {
                    Err(e) => Err(e),
                    Ok((bs, r2)) => Ok((ValueV::I128(spec_u128_from_le_bytes(bs) as i128), r2)),
                }
            } else if tag == TYPE_U8 {
                match spec_read_u8(r) {
                    Err(e) => Err(e),
                    Ok((x, r2)) => Ok((ValueV::U8(x), r2)),
                }
            } else if tag == TYPE_U16 {
                match spec_read_bytes(r, 2) {
                    Err(e) => Err(e),
                    Ok((bs, r2)) => Ok((ValueV::U16(spec_u16_from_le_bytes(bs)), r2)),
                }
            } else if tag == TYPE_U32 {
                match spec_read_bytes(r, 4) {
                    Err(e) => Err(e),
                    Ok((bs, r2)) => Ok((ValueV::U32(spec_u32_from_le_bytes(bs)), r2)),
                }
            } else if tag == TYPE_U64 {
                match spec_read_bytes(r, 8) {
                    Err(e) => Err(e),
                    Ok((bs, r2)) => Ok((ValueV::U64(spec_u64_from_le_bytes(bs)), r2)),
                }
            } else if tag == TYPE_U128 {
                match spec_read_bytes(r, 16) {
                    Err(e) => Err(e),
                    Ok((bs, r2)) => Ok((ValueV::U128(spec_u128_from_le_bytes(bs)), r2)),
                }
            } else if tag == TYPE_STRING {
                match spec_read_len(r) {
                    Err(e) => Err(e),
                    Ok((n, r2)) => match spec_read_bytes(r2, n as nat) {
                        Err(e) => Err(e),
                        Ok((bs, r3)) => {
                            if valid_utf8(bs) {
                                Ok((ValueV::Str(decode_utf8(bs)), r3))
                            } else {
                                Err(DecodeError::InvalidUtf8)
                            }
                        },
                    },
                }
            } else if tag == TYPE_OPTION {
                match spec_read_u8(r) {
                    Err(e) => Err(e),
                    Ok((x, r2)) => {
                        if x == 0 {
                            Ok((ValueV::Opt(Seq::empty()), r2))
                        } else if x == 1 {
                            match spec_decode_value(r2) {
                                Err(e) => Err(e),
                                Ok((v, r3)) => Ok((ValueV::Opt(seq![v]), r3)),
                            }
                        } else {
                            Err(DecodeError::InvalidOption(x))
                        }
                    },
                }
            } else if tag == TYPE_VEC {
                match spec_read_len(r) {
                    Err(e) => Err(e),
                    Ok((n, r2)) => match spec_decode_values(r2, n as nat) {
                        Err(e) => Err(e),
                        Ok((vs, r3)) => Ok((ValueV::List(vs), r3)),
                    },
                }
            } else if tag == TYPE_TUPLE {
                match spec_read_len(r) {
                    Err(e) => Err(e),
                    Ok((n, r2)) => match spec_decode_values(r2, n as nat) {
                        Err(e) => Err(e),
                        Ok((vs, r3)) => Ok((ValueV::Tuple(vs), r3)),
                    },
                }
            } else if tag == TYPE_STRUCT {
                match spec_decode_fields(r) {
                    Err(e) => Err(e),
                    Ok((f, r2)) => Ok((ValueV::Struct(f), r2)),
                }
            } else if tag == TYPE_ENUM {
                match spec_read_u8(r) {
                    Err(e) => Err(e),
                    Ok((i, r2)) => match spec_decode_fields(r2) {
                        Err(e) => Err(e),
                        Ok((f, r3)) => Ok((ValueV::Enum(i, f), r3)),
                    },
                }
            } else {
                Err(DecodeError::UnknownType(tag))
            }
        },
    }
}

/// What decoding one field layout yields, for every input.
pub open spec fn spec_decode_fields(b: Seq<u8>) -> Result<(FieldsV, Seq<u8>), DecodeError>
    decreases b.len(), 0nat, 0nat,
{
    match spec_read_u8(b) {
        Err(e) => Err(e),
        Ok((tag, r)) => {
            if tag == TYPE_FIELDS_NAMED {
                match spec_read_len(r) {
                    Err(e) => Err(e),
                    Ok((n, r2)) => match spec_decode_values(r2, n as nat) {
                        Err(e) => Err(e),
                        Ok((vs, r3)) => Ok((FieldsV::Named(vs), r3)),
                    },
                }
            } else if tag == TYPE_FIELDS_UNNAMED {
                match spec_read_len(r) {
                    Err(e) => Err(e),
                    Ok((n, r2)) => match spec_decode_values(r2, n as nat) {
                        Err(e) => Err(e),
                        Ok((vs, r3)) => Ok((FieldsV::Unnamed(vs), r3)),
                    },
                }
            } else if tag == TYPE_FIELDS_UNIT {
                Ok((FieldsV::Unit, r))
            } else {
                Err(DecodeError::UnknownType(tag))
            }
        },
    }
}

/// What decoding `n` consecutive values yields, for every input. The
/// guard on the recursion's first argument is always satisfied — a decoder
/// only ever consumes input — and exists to exhibit termination.
pub open spec fn spec_decode_values(b: Seq<u8>, n: nat) -> Result<
    (Seq<ValueV>, Seq<u8>),
    DecodeError,
>
    decreases b.len(), n, 2nat,
{
    if n == 0 {
        Ok((Seq::empty(), b))
    } else {
        match spec_decode_value(b) {
            Err(e) => Err(e),
            Ok((v, rest)) => {
                if rest.len() <= b.len() {
                    match spec_decode_values(rest, (n - 1) as nat) {
                        Err(e) => Err(e),
                        Ok((vs, rest2)) => Ok((seq![v] + vs, rest2)),
                    }
                } else {
                    Err(DecodeError::Underflow)
                }
            },
        }
    }
}

/// A byte-buffer source that reads the self-describing format back.
pub struct Decoder {
    buf: Vec<u8>,
    offset: usize,
}

impl Decoder {
    /// The bytes not yet consumed.
    pub closed spec fn remaining(&self) -> Seq<u8> {
        self.buf@.skip(self.offset as int)
    }

    #[verifier::type_invariant]
    closed spec fn wf(&self) -> bool {
        self.offset <= self.buf@.len()
    }

    pub fn new(buf: Vec<u8>) -> (r: Self)
        ensures
            r.remaining() == buf@,
    {
        let r = Self { buf, offset: 0 };
        proof {
            assert(r.remaining() =~= r.buf@);
        }
        r
    }

    /// Reads one raw byte.
    pub fn read_u8(&mut self) -> (r: Result<u8, DecodeError>)
        ensures
            match spec_read_u8(old(self).remaining()) {
                Ok((x, rest)) => {
                    &&& r == Ok::<u8, DecodeError>(x)
                    &&& final(self).remaining() == rest
                    &&& final(self).remaining().len() < old(self).remaining().len()
                },
                Err(e) => r == Err::<u8, DecodeError>(e) && final(self).remaining() == old(
                    self,
                ).remaining(),
            },
    {
        proof {
            use_type_invariant(&*self);
        }
        if self.offset < self.buf.len() {
            let x = self.buf[self.offset];
            self.offset += 1;
            proof {
                assert(old(self).remaining()[0] == x);
                assert(self.remaining() =~= old(self).remaining().skip(1));
            }
            Ok(x)
        } else {
            proof {
                assert(old(self).remaining().len() == 0);
            }
            Err(DecodeError::Underflow)
        }
    }

    /// Reads exactly `n` raw bytes.
    pub fn read_bytes(&mut self, n: u32) -> (r: Result<Vec<u8>, DecodeError>)
        ensures
            match spec_read_bytes(old(self).remaining(), n as nat) {
                Ok((bs, rest)) => {
                    &&& r is Ok
                    &&& r->Ok_0@ == bs
                    &&& final(self).remaining() == rest
                    &&& final(self).remaining().len() + n as nat == old(self).remaining().len()
                },
                Err(e) => r == Err::<Vec<u8>, DecodeError>(e) && final(self).remaining() == old(
                    self,
                ).remaining(),
            },
    {
        proof {
            use_type_invariant(&*self);
        }
        let len = self.buf.len();
        if n as usize <= len - self.offset {
            let bytes = slice_to_vec(
                slice_subrange(self.buf.as_slice(), self.offset, self.offset + n as usize),
            );
            self.offset += n as usize;
            proof {
                assert(bytes@ =~= old(self).remaining().take(n as int));
                assert(self.remaining() =~= old(self).remaining().skip(n as int));
            }
            Ok(bytes)
        } else {
            Err(DecodeError::Underflow)
        }
    }

    /// Reads a four-byte little-endian length field.
    pub fn read_len(&mut self) -> (r: Result<u32, DecodeError>)
        ensures
            match spec_read_len(old(self).remaining()) {
                Ok((x, rest)) => {
                    &&& r == Ok::<u32, DecodeError>(x)
                    &&& final(self).remaining() == rest
                    &&& final(self).remaining().len() + 4 == old(self).remaining().len()
                },
                Err(e) => r == Err::<u32, DecodeError>(e) && final(self).remaining() == old(
                    self,
                ).remaining(),
            },
    {
        proof {
            use_type_invariant(&*self);
        }
        let len = self.buf.len();
        if 4 <= len - self.offset {
            let bytes = slice_subrange(self.buf.as_slice(), self.offset, self.offset + 4);
            let x = u32_from_le_bytes(bytes);
            self.offset += 4;
            proof {
                assert(bytes@ =~= old(self).remaining().subrange(0, 4));
                assert(self.remaining() =~= old(self).remaining().skip(4));
            }
            Ok(x)
        } else {
            Err(DecodeError::Underflow)
        }
    }

    /// Reads one byte and demands that it equal the statically expected
    /// type tag.
    pub fn check_type(&mut self, expected: u8) -> (r: Result<(), DecodeError>)
        ensures
            match spec_read_u8(old(self).remaining()) {
                Ok((x, rest)) => {
                    &&& final(self).remaining() == rest
                    &&& r == (if x == expected {
                        Ok::<(), DecodeError>(())
                    } else {
                        Err::<(), DecodeError>(DecodeError::InvalidType(expected, x))
                    })
                },
                Err(e) => r == Err::<(), DecodeError>(e) && final(self).remaining() == old(
                    self,
                ).remaining(),
            },
    {
        match self.read_u8() {
            Err(e) => Err(e),
            Ok(x) => {
                if x == expected {
                    Ok(())
                } else {
                    Err(DecodeError::InvalidType(expected, x))
                }
            },
        }
    }

    /// Reads a length field and demands that it equal the statically
    /// expected count.
    pub fn check_len(&mut self, expected: u32) -> (r: Result<(), DecodeError>)
        ensures
            match spec_read_len(old(self).remaining()) {
                Ok((x, rest)) => {
                    &&& final(self).remaining() == rest
                    &&& r == (if x == expected {
                        Ok::<(), DecodeError>(())
                    } else {
                        Err::<(), DecodeError>(DecodeError::InvalidLength(expected, x))
                    })
                },
                Err(e) => r == Err::<(), DecodeError>(e) && final(self).remaining() == old(
                    self,
                ).remaining(),
            },
    {
        match self.read_len() {
            Err(e) => Err(e),
            Ok(x) => {
                if x == expected {
                    Ok(())
                } else {
                    Err(DecodeError::InvalidLength(expected, x))
                }
            },
        }
    }

    /// Reads an enum variant index and demands that it lie below the
    /// declared variant count.
    pub fn read_variant_index(&mut self, variant_count: u8) -> (r: Result<u8, DecodeError>)
        ensures
            match spec_read_u8(old(self).remaining()) {
                Ok((x, rest)) => {
                    &&& final(self).remaining() == rest
                    &&& r == (if x < variant_count {
                        Ok::<u8, DecodeError>(x)
                    } else {
                        Err::<u8, DecodeError>(DecodeError::InvalidIndex(x))
                    })
                },
                Err(e) => r == Err::<u8, DecodeError>(e) && final(self).remaining() == old(
                    self,
                ).remaining(),
            },
    {
        match self.read_u8() {
            Err(e) => Err(e),
            Ok(x) => {
                if x < variant_count {
                    Ok(x)
                } else {
                    Err(DecodeError::InvalidIndex(x))
                }
            },
        }
    }

    /// Decodes one self-describing value, exactly as [`spec_decode_value`]
    /// says: success if and only if the spec succeeds, with the same value,
    /// the same remainder and the same error otherwise.
    pub fn decode_value(&mut self) -> (r: Result<Value, DecodeError>)
        ensures
            final(self).remaining().len() <= old(self).remaining().len(),
            match spec_decode_value(old(self).remaining()) {
                Ok((v, rest)) => {
                    &&& r is Ok
                    &&& r->Ok_0@ == v
                    &&& final(self).remaining() == rest
                    &&& final(self).remaining().len() < old(self).remaining().len()
                },
                Err(e) => r == Err::<Value, DecodeError>(e),
            },
        decreases self.remaining().len(), 0nat, 1nat,
    {
        let tag = match self.read_u8() {
            Err(e) => {
                return Err(e);
            },
            Ok(t) => t,
        };
        if tag == TYPE_UNIT {
            Ok(Value::Unit)
        } else if tag == TYPE_BOOL {
            match self.read_u8() {
                Err(e) => Err(e),
                Ok(x) => {
                    if x == 0 {
                        Ok(Value::Bool(false))
                    } else if x == 1 {
                        Ok(Value::Bool(true))
                    } else {
                        Err(DecodeError::InvalidBool(x))
                    }
                },
            }
        } else if tag == TYPE_I8 {
            match self.read_u8() {
                Err(e) => Err(e),
                Ok(x) => Ok(Value::I8(x as i8)),
            }
        } else if tag == TYPE_I16 {
            match self.read_bytes(2) {
                Err(e) => Err(e),
                Ok(bs) => Ok(Value::I16(u16_from_le_bytes(bs.as_slice()) as i16)),
            }
        } else if tag == TYPE_I32 {
            match self.read_bytes(4) {
                Err(e) => Err(e),
                Ok(bs) => Ok(Value::I32(u32_from_le_bytes(bs.as_slice()) as i32)),
            }
        } else if tag == TYPE_I64 {
            match self.read_bytes(8) {
                Err(e) => Err(e),
                Ok(bs) => Ok(Value::I64(u64_from_le_bytes(bs.as_slice()) as i64)),
            }
        } else if tag == TYPE_I128 {
            match self.read_bytes(16) {
                Err(e) => Err(e),
                Ok(bs) => Ok(Value::I128(u128_from_le_bytes(bs.as_slice()) as i128)),
            }
        } else if tag == TYPE_U8 {
            match self.read_u8() {
                Err(e) => Err(e),
                Ok(x) => Ok(Value::U8(x)),
            }
        } else if tag == TYPE_U16 {
            match self.read_bytes(2) {
                Err(e) => Err(e),
                Ok(bs) => Ok(Value::U16(u16_from_le_bytes(bs.as_slice()))),
            }
        } else if tag == TYPE_U32 {
            match self.read_bytes(4) {
                Err(e) => Err(e),
                Ok(bs) => Ok(Value::U32(u32_from_le_bytes(bs.as_slice()))),
            }
        } else if tag == TYPE_U64 {
            match self.read_bytes(8) {
                Err(e) => Err(e),
                Ok(bs) => Ok(Value::U64(u64_from_le_bytes(bs.as_slice()))),
            }
        } else if tag == TYPE_U128 {
            match self.read_bytes(16) {
                Err(e) => Err(e),
                Ok(bs) => Ok(Value::U128(u128_from_le_bytes(bs.as_slice()))),
            }
        } else if tag == TYPE_STRING {
            let n = match self.read_len() {
                Err(e) => {
                    return Err(e);
                },
                Ok(n) => n,
            };
            match self.read_bytes(n) {
                Err(e) => Err(e),
                Ok(bs) => {
                    let ghost bytes = bs@;
                    match bytes_to_string(bs) {
                        Some(s) => {
                            proof {
                                encode_utf8_decode_utf8(s@);
                            }
                            Ok(Value::Str(s))
                        },
                        None => Err(DecodeError::InvalidUtf8),
                    }
                },
            }
        } else if tag == TYPE_OPTION {
            match self.read_u8() {
                Err(e) => Err(e),
                Ok(x) => {
                    if x == 0 {
                        Ok(Value::Opt(None))
                    } else if x == 1 {
                        match self.decode_value() {
                            Err(e) => Err(e),
                            Ok(v) => Ok(Value::Opt(Some(Box::new(v)))),
                        }
                    } else {
                        Err(DecodeError::InvalidOption(x))
                    }
                },
            }
        } else if tag == TYPE_VEC {
            let n = match self.read_len() {
                Err(e) => {
                    return Err(e);
                },
                Ok(n) => n,
            };
            match self.decode_values(n) {
                Err(e) => Err(e),
                Ok(vs) => Ok(Value::List(vs)),
            }
        } else if tag == TYPE_TUPLE {
            let n = match self.read_len() {
                Err(e) => {
                    return Err(e);
                },
                Ok(n) => n,
            };
            match self.decode_values(n) {
                Err(e) => Err(e),
                Ok(vs) => Ok(Value::Tuple(vs)),
            }
        } else if tag == TYPE_STRUCT {
            match self.decode_fields() {
                Err(e) => Err(e),
                Ok(f) => Ok(Value::Struct(f)),
            }
        } else if tag == TYPE_ENUM {
            let i = match self.read_u8() {
                Err(e) => {
                    return Err(e);
                },
                Ok(i) => i,
            };
            match self.decode_fields() {
                Err(e) => Err(e),
                Ok(f) => Ok(Value::Enum(i, f)),
            }
        } else {
            Err(DecodeError::UnknownType(tag))
        }
    }

    /// Decodes one field layout, exactly as [`spec_decode_fields`] says.
    pub fn decode_fields(&mut self) -> (r: Result<Fields, DecodeError>)
        ensures
            final(self).remaining().len() <= old(self).remaining().len(),
            match spec_decode_fields(old(self).remaining()) {
                Ok((f, rest)) => {
                    &&& r is Ok
                    &&& r->Ok_0@ == f
                    &&& final(self).remaining() == rest
                    &&& final(self).remaining().len() < old(self).remaining().len()
                },
                Err(e) => r == Err::<Fields, DecodeError>(e),
            },
        decreases self.remaining().len(), 0nat, 0nat,
    {
        let tag = match self.read_u8() {
            Err(e) => {
                return Err(e);
            },
            Ok(t) => t,
        };
        if tag == TYPE_FIELDS_NAMED {
            let n = match self.read_len() {
                Err(e) => {
                    return Err(e);
                },
                Ok(n) => n,
            };
            match self.decode_values(n) {
                Err(e) => Err(e),
                Ok(vs) => Ok(Fields::Named(vs)),
            }
        } else if tag == TYPE_FIELDS_UNNAMED {
            let n = match self.read_len() {
                Err(e) => {
                    return Err(e);
                },
                Ok(n) => n,
            };
            match self.decode_values(n) {
                Err(e) => Err(e),
                Ok(vs) => Ok(Fields::Unnamed(vs)),
            }
        } else if tag == TYPE_FIELDS_UNIT {
            Ok(Fields::Unit)
        } else {
            Err(DecodeError::UnknownType(tag))
        }
    }

    /// Decodes `n` consecutive values, exactly as [`spec_decode_values`]
    /// says.
    pub fn decode_values(&mut self, n: u32) -> (r: Result<Vec<Value>, DecodeError>)
        ensures
            final(self).remaining().len() <= old(self).remaining().len(),
            match spec_decode_values(old(self).remaining(), n as nat) {
                Ok((vs, rest)) => {
                    &&& r is Ok
                    &&& values_view(r->Ok_0@) == vs
                    &&& final(self).remaining() == rest
                },
                Err(e) => r == Err::<Vec<Value>, DecodeError>(e),
            },
        decreases self.remaining().len(), n as nat, 2nat,
    {
        if n == 0 {
            let empty: Vec<Value> = Vec::new();
            proof {
                assert(values_view(empty@) =~= Seq::<ValueV>::empty());
            }
            Ok(empty)
        } else {
            match self.decode_value() {
                Err(e) => Err(e),
                Ok(v) => {
                    match self.decode_values(n - 1) {
                        Err(e) => Err(e),
                        Ok(mut vs) => {
                            let ghost tail = vs@;
                            vs.insert(0, v);
                            proof {
                                assert(vs@ == seq![v] + tail) by {
                                    assert(vs@ =~= seq![v] + tail);
                                }
                                assert(vs@[0] == v);
                                assert(vs@.drop_first() =~= tail);
                                assert(values_view(vs@) == seq![v@] + values_view(tail));
                            }
                            Ok(vs)
                        },
                    }
                },
            }
        }
    }
}

/// Relies on `String::from_utf8`: it succeeds exactly on valid UTF-8 input,
/// and the returned string's UTF-8 encoding is exactly the input bytes.
#[verifier::external_body]
fn bytes_to_string(bytes: Vec<u8>) -> (r: Option<String>)
    ensures
        r is Some <==> valid_utf8(bytes@),
        r is Some ==> encode_utf8(r->0@) == bytes@,
{
    String::from_utf8(bytes).ok()
}

/// Reading one byte off a concatenation peels the head.
proof fn lemma_read_u8_concat(t: u8, rest: Seq<u8>)
    ensures
        spec_read_u8(seq![t] + rest) == Ok::<(u8, Seq<u8>), DecodeError>((t, rest)),
{
    assert((seq![t] + rest)[0] == t);
    assert((seq![t] + rest).skip(1) =~= rest);
}

/// Reading a length field off a concatenation recovers the number written.
proof fn lemma_read_len_concat(x: u32, rest: Seq<u8>)
    ensures
        spec_read_len(vstd::bytes::spec_u32_to_le_bytes(x) + rest) == Ok::<
            (u32, Seq<u8>),
            DecodeError,
        >((x, rest)),
{
    lemma_auto_spec_u32_to_from_le_bytes();
    let b = vstd::bytes::spec_u32_to_le_bytes(x) + rest;
    assert(b.subrange(0, 4) =~= vstd::bytes::spec_u32_to_le_bytes(x));
    assert(b.skip(4) =~= rest);
}

/// Reading exactly the first block off a concatenation yields that block.
proof fn lemma_read_bytes_concat(data: Seq<u8>, rest: Seq<u8>)
    ensures
        spec_read_bytes(data + rest, data.len()) == Ok::<(Seq<u8>, Seq<u8>), DecodeError>(
            (data, rest),
        ),
{
    let b = data + rest;
    assert(b.take(data.len() as int) =~= data);
    assert(b.skip(data.len() as int) =~= rest);
}

/// The codec's round-trip law: decoding the encoding of any well-formed
/// value succeeds, yields that value back bit-exactly, and consumes
/// exactly the encoding's bytes, whatever follows them.
#[verifier::spinoff_prover]
#[verifier::rlimit(100)]
pub proof fn lemma_encode_decode_value(v: ValueV, rest: Seq<u8>)
    requires
        value_wf(v),
    ensures
        spec_decode_value(value_encoded(v) + rest) == Ok::<(ValueV, Seq<u8>), DecodeError>(
            (v, rest),
        ),
    decreases v, 0nat,
{
    let b = value_encoded(v) + rest;
    match v {
        ValueV::Unit => {
            lemma_read_u8_concat(TYPE_UNIT, rest);
            assert(seq![TYPE_UNIT] + rest =~= b);
        },
        ValueV::Bool(x) => {
            let body = if x {
                1u8
            } else {
                0u8
            };
            lemma_read_u8_concat(TYPE_BOOL, seq![body] + rest);
            assert(seq![TYPE_BOOL] + (seq![body] + rest) =~= b);
            lemma_read_u8_concat(body, rest);
        },
        ValueV::I8(x) => {
            lemma_read_u8_concat(TYPE_I8, seq![x as u8] + rest);
            assert(seq![TYPE_I8] + (seq![x as u8] + rest) =~= b);
            lemma_read_u8_concat(x as u8, rest);
            assert((x as u8) as i8 == x) by (bit_vector);
        },
        ValueV::I16(x) => {
            let data = vstd::bytes::spec_u16_to_le_bytes(x as u16);
            lemma_auto_spec_u16_to_from_le_bytes();
            lemma_read_u8_concat(TYPE_I16, data + rest);
            assert(seq![TYPE_I16] + (data + rest) =~= b);
            lemma_read_bytes_concat(data, rest);
            assert((x as u16) as i16 == x) by (bit_vector);
        },
        ValueV::I32(x) => {
            let data = vstd::bytes::spec_u32_to_le_bytes(x as u32);
            lemma_auto_spec_u32_to_from_le_bytes();
            lemma_read_u8_concat(TYPE_I32, data + rest);
            assert(seq![TYPE_I32] + (data + rest) =~= b);
            lemma_read_bytes_concat(data, rest);
            assert((x as u32) as i32 == x) by (bit_vector);
        },
        ValueV::I64(x) => {
            let data = vstd::bytes::spec_u64_to_le_bytes(x as u64);
            lemma_auto_spec_u64_to_from_le_bytes();
            lemma_read_u8_concat(TYPE_I64, data + rest);
            assert(seq![TYPE_I64] + (data + rest) =~= b);
            lemma_read_bytes_concat(data, rest);
            assert((x as u64) as i64 == x) by (bit_vector);
        },
        ValueV::I128(x) => {
            let data = vstd::bytes::spec_u128_to_le_bytes(x as u128);
            lemma_auto_spec_u128_to_from_le_bytes();
            lemma_read_u8_concat(TYPE_I128, data + rest);
            assert(seq![TYPE_I128] + (data + rest) =~= b);
            lemma_read_bytes_concat(data, rest);
            assert((x as u128) as i128 == x) by (bit_vector);
        },
        ValueV::U8(x) => {
            lemma_read_u8_concat(TYPE_U8, seq![x] + rest);
            assert(seq![TYPE_U8] + (seq![x] + rest) =~= b);
            lemma_read_u8_concat(x, rest);
        },
        ValueV::U16(x) => {
            let data = vstd::bytes::spec_u16_to_le_bytes(x);
            lemma_auto_spec_u16_to_from_le_bytes();
            lemma_read_u8_concat(TYPE_U16, data + rest);
            assert(seq![TYPE_U16] + (data + rest) =~= b);
            lemma_read_bytes_concat(data, rest);
        },
        ValueV::U32(x) => {
            let data = vstd::bytes::spec_u32_to_le_bytes(x);
            lemma_auto_spec_u32_to_from_le_bytes();
            lemma_read_u8_concat(TYPE_U32, data + rest);
            assert(seq![TYPE_U32] + (data + rest) =~= b);
            lemma_read_bytes_concat(data, rest);
        },
        ValueV::U64(x) => {
            let data = vstd::bytes::spec_u64_to_le_bytes(x);
            lemma_auto_spec_u64_to_from_le_bytes();
            lemma_read_u8_concat(TYPE_U64, data + rest);
            assert(seq![TYPE_U64] + (data + rest) =~= b);
            lemma_read_bytes_concat(data, rest);
        },
        ValueV::U128(x) => {
            let data = vstd::bytes::spec_u128_to_le_bytes(x);
            lemma_auto_spec_u128_to_from_le_bytes();
            lemma_read_u8_concat(TYPE_U128, data + rest);
            assert(seq![TYPE_U128] + (data + rest) =~= b);
            lemma_read_bytes_concat(data, rest);
        },
        ValueV::Str(s) => {
            let data = encode_utf8(s);
            let lenb = vstd::bytes::spec_u32_to_le_bytes(data.len() as u32);
            lemma_read_u8_concat(TYPE_STRING, lenb + (data + rest));
            assert(seq![TYPE_STRING] + (lenb + (data + rest)) =~= b);
            lemma_read_len_concat(data.len() as u32, data + rest);
            assert((data.len() as u32) as nat == data.len());
            lemma_read_bytes_concat(data, rest);
            encode_utf8_valid_utf8(s);
            encode_utf8_decode_utf8(s);
        },
        ValueV::Opt(o) => {
            if o.len() == 0 {
                lemma_read_u8_concat(TYPE_OPTION, seq![0u8] + rest);
                assert(seq![TYPE_OPTION] + (seq![0u8] + rest) =~= b);
                lemma_read_u8_concat(0u8, rest);
                assert(ValueV::Opt(o) == ValueV::Opt(Seq::<ValueV>::empty())) by {
                    assert(o =~= Seq::<ValueV>::empty());
                }
            } else {
                let child = o[0];
                lemma_read_u8_concat(TYPE_OPTION, seq![1u8] + (value_encoded(child) + rest));
                assert(seq![TYPE_OPTION] + (seq![1u8] + (value_encoded(child) + rest)) =~= b);
                lemma_read_u8_concat(1u8, value_encoded(child) + rest);
                lemma_encode_decode_value(child, rest);
                assert(ValueV::Opt(seq![child]) == v) by {
                    assert(o =~= seq![child]);
                }
            }
        },
        ValueV::List(vs) => {
            let lenb = vstd::bytes::spec_u32_to_le_bytes(vs.len() as u32);
            lemma_read_u8_concat(TYPE_VEC, lenb + (values_encoded(vs) + rest));
            assert(seq![TYPE_VEC] + (lenb + (values_encoded(vs) + rest)) =~= b);
            lemma_read_len_concat(vs.len() as u32, values_encoded(vs) + rest);
            assert((vs.len() as u32) as nat == vs.len());
            lemma_encode_decode_values(vs, rest);
        },
        ValueV::Tuple(vs) => {
            let lenb = vstd::bytes::spec_u32_to_le_bytes(vs.len() as u32);
            lemma_read_u8_concat(TYPE_TUPLE, lenb + (values_encoded(vs) + rest));
            assert(seq![TYPE_TUPLE] + (lenb + (values_encoded(vs) + rest)) =~= b);
            lemma_read_len_concat(vs.len() as u32, values_encoded(vs) + rest);
            assert((vs.len() as u32) as nat == vs.len());
            lemma_encode_decode_values(vs, rest);
        },
        ValueV::Struct(f) => {
            lemma_read_u8_concat(TYPE_STRUCT, fields_encoded(f) + rest);
            assert(seq![TYPE_STRUCT] + (fields_encoded(f) + rest) =~= b);
            lemma_encode_decode_fields(f, rest);
        },
        ValueV::Enum(i, f) => {
            lemma_read_u8_concat(TYPE_ENUM, seq![i] + (fields_encoded(f) + rest));
            assert(seq![TYPE_ENUM] + (seq![i] + (fields_encoded(f) + rest)) =~= b);
            lemma_read_u8_concat(i, fields_encoded(f) + rest);
            lemma_encode_decode_fields(f, rest);
        },
    }
}

/// Round trip for one field layout.
pub proof fn lemma_encode_decode_fields(f: FieldsV, rest: Seq<u8>)
    requires
        fields_wf(f),
    ensures
        spec_decode_fields(fields_encoded(f) + rest) == Ok::<(FieldsV, Seq<u8>), DecodeError>(
            (f, rest),
        ),
    decreases f, 0nat,
{
    let b = fields_encoded(f) + rest;
    match f {
        FieldsV::Named(vs) => {
            let lenb = vstd::bytes::spec_u32_to_le_bytes(vs.len() as u32);
            lemma_read_u8_concat(TYPE_FIELDS_NAMED, lenb + (values_encoded(vs) + rest));
            assert(seq![TYPE_FIELDS_NAMED] + (lenb + (values_encoded(vs) + rest)) =~= b);
            lemma_read_len_concat(vs.len() as u32, values_encoded(vs) + rest);
            assert((vs.len() as u32) as nat == vs.len());
            lemma_encode_decode_values(vs, rest);
        },
        FieldsV::Unnamed(vs) => {
            let lenb = vstd::bytes::spec_u32_to_le_bytes(vs.len() as u32);
            lemma_read_u8_concat(TYPE_FIELDS_UNNAMED, lenb + (values_encoded(vs) + rest));
            assert(seq![TYPE_FIELDS_UNNAMED] + (lenb + (values_encoded(vs) + rest)) =~= b);
            lemma_read_len_concat(vs.len() as u32, values_encoded(vs) + rest);
            assert((vs.len() as u32) as nat == vs.len());
            lemma_encode_decode_values(vs, rest);
        },
        FieldsV::Unit => {
            lemma_read_u8_concat(TYPE_FIELDS_UNIT, rest);
            assert(seq![TYPE_FIELDS_UNIT] + rest =~= b);
        },
    }
}

/// Round trip for a sequence of values decoded by count.
pub proof fn lemma_encode_decode_values(s: Seq<ValueV>, rest: Seq<u8>)
    requires
        values_wf(s),
    ensures
        spec_decode_values(values_encoded(s) + rest, s.len()) == Ok::<
            (Seq<ValueV>, Seq<u8>),
            DecodeError,
        >((s, rest)),
    decreases s, 1nat,
{
    let b = values_encoded(s) + rest;
    if s.len() == 0 {
        assert(values_encoded(s) == Seq::<u8>::empty());
        assert(b =~= rest);
        assert(spec_decode_values(rest, 0) == Ok::<(Seq<ValueV>, Seq<u8>), DecodeError>(
            (Seq::empty(), rest),
        ));
        assert(s =~= Seq::<ValueV>::empty());
    } else {
        let head = s[0];
        let tail = s.drop_first();
        let tail_bytes = values_encoded(tail) + rest;
        assert(value_wf(head));
        assert(values_wf(tail)) by {
            assert(forall|i: int| 0 <= i < tail.len() ==> tail[i] == s[i + 1]);
        }
        assert(value_encoded(head) + tail_bytes =~= b);
        lemma_encode_decode_value(head, tail_bytes);
        assert(tail_bytes.len() <= b.len());
        lemma_encode_decode_values(tail, rest);
        assert(seq![head] + tail =~= s);
    }
}

} // verus!
