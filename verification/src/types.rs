//! Shared value types: hashes, addresses, identifiers and amounts.
use vstd::prelude::*;

use crate::decode::{spec_read_bytes, spec_read_len, DecodeError, Decoder};
use crate::encode::Encoder;
use crate::store::StoreKey;
use vstd::bytes::{
    lemma_auto_spec_u32_to_from_le_bytes, lemma_auto_spec_u64_to_from_le_bytes,
    spec_u32_to_le_bytes, spec_u64_to_le_bytes, u32_from_le_bytes, u32_to_le_bytes,
    u64_from_le_bytes, u64_to_le_bytes,
};
use vstd::slice::slice_subrange;

verus! {

/// A resource quantity. Quantities are non-negative and all arithmetic on
/// them must reject overflow and underflow instead of wrapping.
pub type Amount = u128;

/// A 256-bit transaction hash, stored as four 64-bit words.
/// Word `w0` holds the first eight bytes of the hash in little-endian order,
/// `w3` the last eight.
#[derive(Debug, Clone, Copy, PartialEq, Eq, Hash, Structural)]
pub struct H256 {
    pub w0: u64,
    pub w1: u64,
    pub w2: u64,
    pub w3: u64,
}

/// A transient bucket id, local to one transaction.
#[derive(Debug, Clone, Copy, PartialEq, Eq, Hash, Structural)]
pub struct Bid(pub u32);

/// A bucket reference id, local to one transaction.
#[derive(Debug, Clone, Copy, PartialEq, Eq, Hash, Structural)]
pub struct Rid(pub u32);

/// A durable vault id: globally unique because it embeds the hash of the
/// transaction that created the vault.
#[derive(Debug, Clone, Copy, PartialEq, Eq, Hash, Structural)]
pub struct Vid(pub H256, pub u32);

/// A durable lazy-map id, globally unique for the same reason as [`Vid`].
#[derive(Debug, Clone, Copy, PartialEq, Eq, Hash, Structural)]
pub struct Mid(pub H256, pub u32);

/// The identity part of a derived address: the hash of the allocating
/// transaction together with the allocation counter at the time of issue.
/// Embedding both makes distinct allocations yield distinct addresses.
#[derive(Debug, Clone, Copy, PartialEq, Eq, Hash, Structural)]
pub struct EntityId {
    pub hash: H256,
    pub index: u32,
}

/// A global address: a tagged union over the kinds of addressable entities.
#[derive(Debug, Clone, Copy, PartialEq, Eq, Hash, Structural)]
pub enum Address {
    /// The system authority.
    System,
    /// The native token's resource definition.
    RadixToken,
    /// A published package.
    Package(EntityId),
    /// An instantiated component.
    Component(EntityId),
    /// A resource definition.
    ResourceDef(EntityId),
    /// An account key.
    PublicKey(EntityId),
}

/// The severity of a log entry collected during a transaction.
#[derive(Debug, Clone, Copy, PartialEq, Eq, Structural)]
pub enum Level {
    Error,
    Warn,
    Info,
    Debug,
    Trace,
}

/// An error when parsing a [`Vid`] from its hex or raw-binary encoding.
#[derive(Debug)]
pub enum ParseVidError {
    /// The hex string did not decode to bytes.
    InvalidHex(hex::FromHexError),
    /// The byte form had the wrong length.
    InvalidLength(usize),
}

impl View for Address {
    type V = Address;

    open spec fn view(&self) -> Address {
        *self
    }
}

impl View for Vid {
    type V = Vid;

    open spec fn view(&self) -> Vid {
        *self
    }
}

impl View for Mid {
    type V = Mid;

    open spec fn view(&self) -> Mid {
        *self
    }
}

impl View for Bid {
    type V = Bid;

    open spec fn view(&self) -> Bid {
        *self
    }
}

impl View for Rid {
    type V = Rid;

    open spec fn view(&self) -> Rid {
        *self
    }
}

impl StoreKey for Address {
    fn same(&self, other: &Self) -> (r: bool) {
        *self == *other
    }
}

impl StoreKey for Vid {
    fn same(&self, other: &Self) -> (r: bool) {
        *self == *other
    }
}

impl StoreKey for Mid {
    fn same(&self, other: &Self) -> (r: bool) {
        *self == *other
    }
}

impl StoreKey for Bid {
    fn same(&self, other: &Self) -> (r: bool) {
        *self == *other
    }
}

impl StoreKey for Rid {
    fn same(&self, other: &Self) -> (r: bool) {
        *self == *other
    }
}

/// The canonical 32-byte little-endian encoding of a hash, word by word.
pub open spec fn h256_bytes(h: H256) -> Seq<u8> {
    spec_u64_to_le_bytes(h.w0) + spec_u64_to_le_bytes(h.w1) + spec_u64_to_le_bytes(h.w2)
        + spec_u64_to_le_bytes(h.w3)
}

impl H256 {
    /// The hash's canonical 32-byte encoding.
    pub fn to_vec(&self) -> (r: Vec<u8>)
        ensures
            r@ == h256_bytes(*self),
            r@.len() == 32,
    {
        let mut out = u64_to_le_bytes(self.w0);
        let mut b1 = u64_to_le_bytes(self.w1);
        let mut b2 = u64_to_le_bytes(self.w2);
        let mut b3 = u64_to_le_bytes(self.w3);
        out.append(&mut b1);
        out.append(&mut b2);
        out.append(&mut b3);
        out
    }
}

/// The canonical 36-byte encoding of a vault id: the transaction hash's
/// bytes, then the allocation index in little-endian.
pub open spec fn vid_bytes(v: Vid) -> Seq<u8> {
    h256_bytes(v.0) + spec_u32_to_le_bytes(v.1)
}

impl Vid {
    /// The id's canonical 36-byte encoding.
    pub fn to_vec(&self) -> (r: Vec<u8>)
        ensures
            r@ == vid_bytes(*self),
            r@.len() == 36,
    {
        let mut out = self.0.to_vec();
        let mut tail = u32_to_le_bytes(self.1);
        out.append(&mut tail);
        out
    }

    /// Appends the id's raw form to an encoder: a length field, then the
    /// 36 bytes.
    pub fn encode_value(&self, encoder: &mut Encoder)
        ensures
            final(encoder)@ == old(encoder)@ + spec_u32_to_le_bytes(36u32) + vid_bytes(*self),
    {
        let bytes = self.to_vec();
        encoder.write_len(36);
        encoder.write_slice(bytes.as_slice());
    }

    /// Reads an id back from its raw form: a length field that must be
    /// the canonical one, then the bytes. Success and every error are
    /// fixed by the input: a short read underflows, a wrong length field
    /// is rejected as such, and otherwise the 36 bytes read are exactly
    /// the returned id's canonical encoding.
    pub fn decode_value(decoder: &mut Decoder) -> (r: Result<Self, DecodeError>)
        ensures
            match spec_read_len(old(decoder).remaining()) {
                Err(e) => r == Err::<Vid, DecodeError>(e) && final(decoder).remaining() == old(
                    decoder,
                ).remaining(),
                Ok((n, rest)) => {
                    if n != 36 {
                        r == Err::<Vid, DecodeError>(DecodeError::InvalidLength(36, n)) && final(decoder).remaining() == rest
                    } else {
                        match spec_read_bytes(rest, 36) {
                            Err(e) => r == Err::<Vid, DecodeError>(e) && final(decoder).remaining() == rest,
                            Ok((bs, rest2)) => {
                                &&& r is Ok
                                &&& vid_bytes(r->Ok_0) == bs
                                &&& final(decoder).remaining() == rest2
                            },
                        }
                    }
                },
            },
    {
        let n = match decoder.read_len() {
            Ok(n) => n,
            Err(e) => {
                return Err(e);
            },
        };
        if n != 36 {
            return Err(DecodeError::InvalidLength(36, n));
        }
        let bytes = match decoder.read_bytes(36) {
            Ok(b) => b,
            Err(e) => {
                return Err(e);
            },
        };
        match Vid::try_from(bytes.as_slice()) {
            Ok(v) => {
                proof {
                    assert(vid_bytes(v) + decoder.remaining() =~= old(
                        decoder,
                    ).remaining().skip(4));
                }
                Ok(v)
            },
            Err(_) => Err(DecodeError::InvalidLength(36, n)),
        }
    }

    /// Parses the canonical 36-byte encoding back; any other length is
    /// rejected as such.
    pub fn try_from(slice: &[u8]) -> (r: Result<Self, ParseVidError>)
        ensures
            slice@.len() == 36 ==> r is Ok && vid_bytes(r->Ok_0) == slice@,
            slice@.len() != 36 ==> (r matches Err(ParseVidError::InvalidLength(n)) && n
                == slice@.len()),
    {
        if slice.len() != 36 {
            Err(ParseVidError::InvalidLength(slice.len()))
        } else {
            let w0 = u64_from_le_bytes(slice_subrange(slice, 0, 8));
            let w1 = u64_from_le_bytes(slice_subrange(slice, 8, 16));
            let w2 = u64_from_le_bytes(slice_subrange(slice, 16, 24));
            let w3 = u64_from_le_bytes(slice_subrange(slice, 24, 32));
            let index = u32_from_le_bytes(slice_subrange(slice, 32, 36));
            let v = Vid(H256 { w0, w1, w2, w3 }, index);
            proof {
                lemma_auto_spec_u64_to_from_le_bytes();
                lemma_auto_spec_u32_to_from_le_bytes();
                assert(vid_bytes(v) =~= slice@);
            }
            Ok(v)
        }
    }
}

} // verus!
