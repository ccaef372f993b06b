//! Typed values over byte buffers: a value writes itself to the start of a
//! buffer and is read from the start of one.
use crate::endian::{
    spec_u16_from_le, spec_u16_to_le, spec_u32_from_le, spec_u32_to_le, spec_u64_from_le,
    spec_u64_to_le, u16_from_le, u16_to_le, u32_from_le, u32_to_le, u64_from_le, u64_to_le,
};
use crate::codec::{read_header, spec_header_bytes, spec_magic, v0, MAGIC_BYTES};
use crate::error::{CodecError, CodecResult, IoError, IoKind, ParserError};
use crate::io::{PVarint, GUARD};
use crate::serialiser::put_meta;
use crate::stream::{array_from, extract_impl, insert_bytes};
use crate::varint;
use crate::{Header, RecordMeta};
use vstd::prelude::*;

verus! {

/// Why `n` bytes do not go into room for `room` bytes, if they do not.
pub open spec fn spec_lacks(n: nat, room: nat) -> Option<CodecError> {
    if n <= room {
        None
    } else {
        Some(CodecError::Needed((n - room) as usize))
    }
}

/// A value that can be written to a buffer.
pub trait EncodeInto: Sized {
    /// The bytes of the value.
    spec fn spec_encoded(&self) -> Seq<u8>;

    /// Why the value does not go into room for `room` bytes, if it does
    /// not: the number of bytes that the part that does not fit lacks.
    spec fn spec_encode_error(&self, room: nat) -> Option<CodecError>;

    /// Writes the value to the start of `dst` and gives the rest of `dst`.
    /// A value of several parts that does not fit may have written the
    /// parts that did.
    fn encode_into<'a>(&self, dst: &'a mut [u8]) -> (r: CodecResult<&'a mut [u8]>)
        ensures
            r is Ok <==> self.spec_encoded().len() <= old(dst)@.len(),
            match r {
                Ok(rem) => {
                    &&& self.spec_encode_error(old(dst)@.len()) is None
                    &&& rem@ == old(dst)@.skip(self.spec_encoded().len() as int)
                    &&& final(dst)@ == self.spec_encoded() + final(rem)@
                },
                Err(e) => self.spec_encode_error(old(dst)@.len()) == Some(e),
            },
    ;
}

/// A value that can be read from a buffer.
pub trait DecodeInto<'a>: Sized {
    /// Why the bytes `s` do not begin with a value, if they do not.
    spec fn spec_decode_error(s: Seq<u8>) -> Option<CodecError>;

    /// The number of bytes of the value with which the bytes `s` begin.
    spec fn spec_decoded_len(s: Seq<u8>) -> nat;

    /// Whether `v` is the value with which the bytes `s` begin.
    spec fn spec_decodes_to(s: Seq<u8>, v: Self) -> bool;

    /// Reads a value from the start of `input` and gives the rest of
    /// `input` with it.
    fn decode_from(input: &'a [u8]) -> (r: CodecResult<(&'a [u8], Self)>)
        ensures
            match r {
                Ok((rem, v)) => {
                    &&& Self::spec_decode_error(input@) is None
                    &&& Self::spec_decodes_to(input@, v)
                    &&& Self::spec_decoded_len(input@) <= input@.len()
                    &&& rem@ == input@.skip(Self::spec_decoded_len(input@) as int)
                },
                Err(e) => Self::spec_decode_error(input@) == Some(e),
            },
    ;
}

/// Writes `bytes` to the start of `dst` and gives the rest of `dst`.
pub fn put_bytes<'a>(dst: &'a mut [u8], bytes: &[u8]) -> (r: CodecResult<&'a mut [u8]>)
    ensures
        r is Ok <==> bytes@.len() <= old(dst)@.len(),
        match r {
            Ok(rem) => {
                &&& rem@ == old(dst)@.skip(bytes@.len() as int)
                &&& final(dst)@ == bytes@ + final(rem)@
            },
            Err(e) => spec_lacks(bytes@.len(), old(dst)@.len()) == Some(e) && final(dst)@
                == old(dst)@,
        },
{
    match insert_bytes(dst, bytes) {
        Ok(rem) => Ok(rem),
        Err(n) => Err(CodecError::Needed(n)),
    }
}

/// Takes `n` bytes from the start of `input` and gives the rest of
/// `input` with them.
pub fn take_bytes<'a>(input: &'a [u8], n: usize) -> (r: CodecResult<(&'a [u8], &'a [u8])>)
    ensures
        match r {
            Ok((rem, out)) => {
                &&& n <= input@.len()
                &&& out@ == input@.take(n as int)
                &&& rem@ == input@.skip(n as int)
            },
            Err(e) => spec_lacks(n as nat, input@.len()) == Some(e),
        },
{
    let mut rem = input;
    match extract_impl(&mut rem, n) {
        Ok(out) => Ok((rem, out)),
        Err(e) => Err(e),
    }
}

impl<const N: usize> EncodeInto for [u8; N] {
    open spec fn spec_encoded(&self) -> Seq<u8> {
        self@
    }

    open spec fn spec_encode_error(&self, room: nat) -> Option<CodecError> {
        spec_lacks(N as nat, room)
    }

    fn encode_into<'a>(&self, dst: &'a mut [u8]) -> (r: CodecResult<&'a mut [u8]>) {
        put_bytes(dst, self.as_slice())
    }
}

impl<'a, const N: usize> DecodeInto<'a> for [u8; N] {
    open spec fn spec_decode_error(s: Seq<u8>) -> Option<CodecError> {
        spec_lacks(N as nat, s.len())
    }

    open spec fn spec_decoded_len(s: Seq<u8>) -> nat {
        N as nat
    }

    open spec fn spec_decodes_to(s: Seq<u8>, v: Self) -> bool {
        v@ == s.take(N as int)
    }

    fn decode_from(input: &'a [u8]) -> (r: CodecResult<(&'a [u8], Self)>) {
        match take_bytes(input, N) {
            Ok((rem, out)) => Ok((rem, array_from::<N>(out))),
            Err(e) => Err(e),
        }
    }
}

impl EncodeInto for u8 {
    open spec fn spec_encoded(&self) -> Seq<u8> {
        seq![*self]
    }

    open spec fn spec_encode_error(&self, room: nat) -> Option<CodecError> {
        spec_lacks(1, room)
    }

    fn encode_into<'a>(&self, dst: &'a mut [u8]) -> (r: CodecResult<&'a mut [u8]>) {
        let a = [*self];
        assert(a@ =~= seq![*self]);
        put_bytes(dst, a.as_slice())
    }
}

impl<'a> DecodeInto<'a> for u8 {
    open spec fn spec_decode_error(s: Seq<u8>) -> Option<CodecError> {
        spec_lacks(1, s.len())
    }

    open spec fn spec_decoded_len(s: Seq<u8>) -> nat {
        1
    }

    open spec fn spec_decodes_to(s: Seq<u8>, v: Self) -> bool {
        v == s[0]
    }

    fn decode_from(input: &'a [u8]) -> (r: CodecResult<(&'a [u8], Self)>) {
        match take_bytes(input, 1) {
            Ok((rem, out)) => Ok((rem, out[0])),
            Err(e) => Err(e),
        }
    }
}

impl EncodeInto for u16 {
    open spec fn spec_encoded(&self) -> Seq<u8> {
        spec_u16_to_le(*self)
    }

    open spec fn spec_encode_error(&self, room: nat) -> Option<CodecError> {
        spec_lacks(2, room)
    }

    fn encode_into<'a>(&self, dst: &'a mut [u8]) -> (r: CodecResult<&'a mut [u8]>) {
        put_bytes(dst, u16_to_le(*self).as_slice())
    }
}

impl<'a> DecodeInto<'a> for u16 {
    open spec fn spec_decode_error(s: Seq<u8>) -> Option<CodecError> {
        spec_lacks(2, s.len())
    }

    open spec fn spec_decoded_len(s: Seq<u8>) -> nat {
        2
    }

    open spec fn spec_decodes_to(s: Seq<u8>, v: Self) -> bool {
        v == spec_u16_from_le(s.take(2))
    }

    fn decode_from(input: &'a [u8]) -> (r: CodecResult<(&'a [u8], Self)>) {
        match take_bytes(input, 2) {
            Ok((rem, out)) => Ok((rem, u16_from_le(array_from::<2>(out)))),
            Err(e) => Err(e),
        }
    }
}

impl EncodeInto for u32 {
    open spec fn spec_encoded(&self) -> Seq<u8> {
        spec_u32_to_le(*self)
    }

    open spec fn spec_encode_error(&self, room: nat) -> Option<CodecError> {
        spec_lacks(4, room)
    }

    fn encode_into<'a>(&self, dst: &'a mut [u8]) -> (r: CodecResult<&'a mut [u8]>) {
        put_bytes(dst, u32_to_le(*self).as_slice())
    }
}

impl<'a> DecodeInto<'a> for u32 {
    open spec fn spec_decode_error(s: Seq<u8>) -> Option<CodecError> {
        spec_lacks(4, s.len())
    }

    open spec fn spec_decoded_len(s: Seq<u8>) -> nat {
        4
    }

    open spec fn spec_decodes_to(s: Seq<u8>, v: Self) -> bool {
        v == spec_u32_from_le(s.take(4))
    }

    fn decode_from(input: &'a [u8]) -> (r: CodecResult<(&'a [u8], Self)>) {
        match take_bytes(input, 4) {
            Ok((rem, out)) => Ok((rem, u32_from_le(array_from::<4>(out)))),
            Err(e) => Err(e),
        }
    }
}

impl EncodeInto for u64 {
    open spec fn spec_encoded(&self) -> Seq<u8> {
        spec_u64_to_le(*self)
    }

    open spec fn spec_encode_error(&self, room: nat) -> Option<CodecError> {
        spec_lacks(8, room)
    }

    fn encode_into<'a>(&self, dst: &'a mut [u8]) -> (r: CodecResult<&'a mut [u8]>) {
        put_bytes(dst, u64_to_le(*self).as_slice())
    }
}

impl<'a> DecodeInto<'a> for u64 {
    open spec fn spec_decode_error(s: Seq<u8>) -> Option<CodecError> {
        spec_lacks(8, s.len())
    }

    open spec fn spec_decoded_len(s: Seq<u8>) -> nat {
        8
    }

    open spec fn spec_decodes_to(s: Seq<u8>, v: Self) -> bool {
        v == spec_u64_from_le(s.take(8))
    }

    fn decode_from(input: &'a [u8]) -> (r: CodecResult<(&'a [u8], Self)>) {
        match take_bytes(input, 8) {
            Ok((rem, out)) => Ok((rem, u64_from_le(array_from::<8>(out)))),
            Err(e) => Err(e),
        }
    }
}

/// Why two values, one behind the other, do not go into room for `room`
/// bytes, if they do not: why the first does not, or else why the second
/// does not go into what the first leaves.
pub open spec fn spec_pair_error<A: EncodeInto, B: EncodeInto>(a: &A, b: &B, room: nat) -> Option<
    CodecError,
> {
    match a.spec_encode_error(room) {
        Some(e) => Some(e),
        None => b.spec_encode_error((room - a.spec_encoded().len()) as nat),
    }
}

/// Writes two values, one behind the other, to the start of `dst` and
/// gives the rest of `dst`.
pub fn encode_pair<'a, A: EncodeInto, B: EncodeInto>(dst: &'a mut [u8], a: &A, b: &B) -> (r:
    CodecResult<&'a mut [u8]>)
    ensures
        r is Ok <==> (a.spec_encoded() + b.spec_encoded()).len() <= old(dst)@.len(),
        match r {
            Ok(rem) => {
                &&& spec_pair_error(a, b, old(dst)@.len()) is None
                &&& rem@ == old(dst)@.skip((a.spec_encoded() + b.spec_encoded()).len() as int)
                &&& final(dst)@ == (a.spec_encoded() + b.spec_encoded()) + final(rem)@
            },
            Err(e) => spec_pair_error(a, b, old(dst)@.len()) == Some(e),
        },
{
    let mid = match a.encode_into(dst) {
        Ok(rem) => rem,
        Err(e) => return Err(e),
    };
    match b.encode_into(mid) {
        Ok(rem) => {
            assert(rem@ =~= old(dst)@.skip((a.spec_encoded() + b.spec_encoded()).len() as int));
            Ok(rem)
        },
        Err(e) => Err(e),
    }
}

impl<A: EncodeInto, B: EncodeInto> EncodeInto for (A, B) {
    open spec fn spec_encoded(&self) -> Seq<u8> {
        self.0.spec_encoded() + self.1.spec_encoded()
    }

    open spec fn spec_encode_error(&self, room: nat) -> Option<CodecError> {
        spec_pair_error(&self.0, &self.1, room)
    }

    fn encode_into<'a>(&self, dst: &'a mut [u8]) -> (r: CodecResult<&'a mut [u8]>) {
        encode_pair(dst, &self.0, &self.1)
    }
}

impl<'a, A: DecodeInto<'a>, B: DecodeInto<'a>> DecodeInto<'a> for (A, B) {
    open spec fn spec_decode_error(s: Seq<u8>) -> Option<CodecError> {
        match A::spec_decode_error(s) {
            Some(e) => Some(e),
            None => B::spec_decode_error(s.skip(A::spec_decoded_len(s) as int)),
        }
    }

    open spec fn spec_decoded_len(s: Seq<u8>) -> nat {
        A::spec_decoded_len(s) + B::spec_decoded_len(s.skip(A::spec_decoded_len(s) as int))
    }

    open spec fn spec_decodes_to(s: Seq<u8>, v: Self) -> bool {
        &&& A::spec_decodes_to(s, v.0)
        &&& B::spec_decodes_to(s.skip(A::spec_decoded_len(s) as int), v.1)
    }

    fn decode_from(input: &'a [u8]) -> (r: CodecResult<(&'a [u8], Self)>) {
        let (input1, a) = match A::decode_from(input) {
            Ok(x) => x,
            Err(e) => return Err(e),
        };
        let (input2, b) = match B::decode_from(input1) {
            Ok(x) => x,
            Err(e) => return Err(e),
        };
        Ok((input2, (a, b)))
    }
}

/// Two values, one behind the other, as one value to be written.
pub struct Both<'x, A, B>(pub &'x A, pub &'x B);

impl<'x, A: EncodeInto, B: EncodeInto> EncodeInto for Both<'x, A, B> {
    open spec fn spec_encoded(&self) -> Seq<u8> {
        self.0.spec_encoded() + self.1.spec_encoded()
    }

    open spec fn spec_encode_error(&self, room: nat) -> Option<CodecError> {
        spec_pair_error(self.0, self.1, room)
    }

    fn encode_into<'a>(&self, dst: &'a mut [u8]) -> (r: CodecResult<&'a mut [u8]>) {
        encode_pair(dst, self.0, self.1)
    }
}

impl<A: EncodeInto> EncodeInto for (A,) {
    open spec fn spec_encoded(&self) -> Seq<u8> {
        self.0.spec_encoded()
    }

    open spec fn spec_encode_error(&self, room: nat) -> Option<CodecError> {
        self.0.spec_encode_error(room)
    }

    fn encode_into<'a>(&self, dst: &'a mut [u8]) -> (r: CodecResult<&'a mut [u8]>) {
        self.0.encode_into(dst)
    }
}

impl<'a, A: DecodeInto<'a>> DecodeInto<'a> for (A,) {
    open spec fn spec_decode_error(s: Seq<u8>) -> Option<CodecError> {
        A::spec_decode_error(s)
    }

    open spec fn spec_decoded_len(s: Seq<u8>) -> nat {
        A::spec_decoded_len(s)
    }

    open spec fn spec_decodes_to(s: Seq<u8>, v: Self) -> bool {
        A::spec_decodes_to(s, v.0)
    }

    fn decode_from(input: &'a [u8]) -> (r: CodecResult<(&'a [u8], Self)>) {
        match A::decode_from(input) {
            Ok((rem, a)) => Ok((rem, (a,))),
            Err(e) => Err(e),
        }
    }
}

impl<A: EncodeInto, B: EncodeInto, C: EncodeInto> EncodeInto for (A, B, C) {
    open spec fn spec_encoded(&self) -> Seq<u8> {
        self.0.spec_encoded() + self.1.spec_encoded() + self.2.spec_encoded()
    }

    open spec fn spec_encode_error(&self, room: nat) -> Option<CodecError> {
        spec_pair_error(&Both(&self.0, &self.1), &self.2, room)
    }

    fn encode_into<'a>(&self, dst: &'a mut [u8]) -> (r: CodecResult<&'a mut [u8]>) {
        encode_pair(dst, &Both(&self.0, &self.1), &self.2)
    }
}

impl<'a, A: DecodeInto<'a>, B: DecodeInto<'a>, C: DecodeInto<'a>> DecodeInto<'a> for (A, B, C) {
    open spec fn spec_decode_error(s: Seq<u8>) -> Option<CodecError> {
        <((A, B), C)>::spec_decode_error(s)
    }

    open spec fn spec_decoded_len(s: Seq<u8>) -> nat {
        <((A, B), C)>::spec_decoded_len(s)
    }

    open spec fn spec_decodes_to(s: Seq<u8>, v: Self) -> bool {
        <((A, B), C)>::spec_decodes_to(s, ((v.0, v.1), v.2))
    }

    fn decode_from(input: &'a [u8]) -> (r: CodecResult<(&'a [u8], Self)>) {
        match <((A, B), C)>::decode_from(input) {
            Ok((rem, ((a, b), c))) => Ok((rem, (a, b, c))),
            Err(e) => Err(e),
        }
    }
}

impl<A: EncodeInto, B: EncodeInto, C: EncodeInto, D: EncodeInto> EncodeInto for (A, B, C, D) {
    open spec fn spec_encoded(&self) -> Seq<u8> {
        self.0.spec_encoded() + self.1.spec_encoded() + self.2.spec_encoded()
            + self.3.spec_encoded()
    }

    open spec fn spec_encode_error(&self, room: nat) -> Option<CodecError> {
        spec_pair_error(&Both(&Both(&self.0, &self.1), &self.2), &self.3, room)
    }

    fn encode_into<'a>(&self, dst: &'a mut [u8]) -> (r: CodecResult<&'a mut [u8]>) {
        encode_pair(dst, &Both(&Both(&self.0, &self.1), &self.2), &self.3)
    }
}

impl<
    'a,
    A: DecodeInto<'a>,
    B: DecodeInto<'a>,
    C: DecodeInto<'a>,
    D: DecodeInto<'a>,
> DecodeInto<'a> for (A, B, C, D) {
    open spec fn spec_decode_error(s: Seq<u8>) -> Option<CodecError> {
        <(((A, B), C), D)>::spec_decode_error(s)
    }

    open spec fn spec_decoded_len(s: Seq<u8>) -> nat {
        <(((A, B), C), D)>::spec_decoded_len(s)
    }

    open spec fn spec_decodes_to(s: Seq<u8>, v: Self) -> bool {
        <(((A, B), C), D)>::spec_decodes_to(s, (((v.0, v.1), v.2), v.3))
    }

    fn decode_from(input: &'a [u8]) -> (r: CodecResult<(&'a [u8], Self)>) {
        match <(((A, B), C), D)>::decode_from(input) {
            Ok((rem, (((a, b), c), d))) => Ok((rem, (a, b, c, d))),
            Err(e) => Err(e),
        }
    }
}

impl<
    A: EncodeInto,
    B: EncodeInto,
    C: EncodeInto,
    D: EncodeInto,
    E: EncodeInto,
> EncodeInto for (A, B, C, D, E) {
    open spec fn spec_encoded(&self) -> Seq<u8> {
        self.0.spec_encoded() + self.1.spec_encoded() + self.2.spec_encoded()
            + self.3.spec_encoded() + self.4.spec_encoded()
    }

    open spec fn spec_encode_error(&self, room: nat) -> Option<CodecError> {
        spec_pair_error(&Both(&Both(&Both(&self.0, &self.1), &self.2), &self.3), &self.4, room)
    }

    fn encode_into<'a>(&self, dst: &'a mut [u8]) -> (r: CodecResult<&'a mut [u8]>) {
        encode_pair(dst, &Both(&Both(&Both(&self.0, &self.1), &self.2), &self.3), &self.4)
    }
}

impl<
    'a,
    A: DecodeInto<'a>,
    B: DecodeInto<'a>,
    C: DecodeInto<'a>,
    D: DecodeInto<'a>,
    E: DecodeInto<'a>,
> DecodeInto<'a> for (A, B, C, D, E) {
    open spec fn spec_decode_error(s: Seq<u8>) -> Option<CodecError> {
        <((((A, B), C), D), E)>::spec_decode_error(s)
    }

    open spec fn spec_decoded_len(s: Seq<u8>) -> nat {
        <((((A, B), C), D), E)>::spec_decoded_len(s)
    }

    open spec fn spec_decodes_to(s: Seq<u8>, v: Self) -> bool {
        <((((A, B), C), D), E)>::spec_decodes_to(s, ((((v.0, v.1), v.2), v.3), v.4))
    }

    fn decode_from(input: &'a [u8]) -> (r: CodecResult<(&'a [u8], Self)>) {
        match <((((A, B), C), D), E)>::decode_from(input) {
            Ok((rem, ((((a, b), c), d), e))) => Ok((rem, (a, b, c, d, e))),
            Err(e) => Err(e),
        }
    }
}

impl<
    A: EncodeInto,
    B: EncodeInto,
    C: EncodeInto,
    D: EncodeInto,
    E: EncodeInto,
    F: EncodeInto,
> EncodeInto for (A, B, C, D, E, F) {
    open spec fn spec_encoded(&self) -> Seq<u8> {
        self.0.spec_encoded() + self.1.spec_encoded() + self.2.spec_encoded()
            + self.3.spec_encoded() + self.4.spec_encoded() + self.5.spec_encoded()
    }

    open spec fn spec_encode_error(&self, room: nat) -> Option<CodecError> {
        spec_pair_error(
            &Both(&Both(&Both(&Both(&self.0, &self.1), &self.2), &self.3), &self.4),
            &self.5,
            room,
        )
    }

    fn encode_into<'a>(&self, dst: &'a mut [u8]) -> (r: CodecResult<&'a mut [u8]>) {
        encode_pair(
            dst,
            &Both(&Both(&Both(&Both(&self.0, &self.1), &self.2), &self.3), &self.4),
            &self.5,
        )
    }
}

impl<
    'a,
    A: DecodeInto<'a>,
    B: DecodeInto<'a>,
    C: DecodeInto<'a>,
    D: DecodeInto<'a>,
    E: DecodeInto<'a>,
    F: DecodeInto<'a>,
> DecodeInto<'a> for (A, B, C, D, E, F) {
    open spec fn spec_decode_error(s: Seq<u8>) -> Option<CodecError> {
        <(((((A, B), C), D), E), F)>::spec_decode_error(s)
    }

    open spec fn spec_decoded_len(s: Seq<u8>) -> nat {
        <(((((A, B), C), D), E), F)>::spec_decoded_len(s)
    }

    open spec fn spec_decodes_to(s: Seq<u8>, v: Self) -> bool {
        <(((((A, B), C), D), E), F)>::spec_decodes_to(s, (((((v.0, v.1), v.2), v.3), v.4), v.5))
    }

    fn decode_from(input: &'a [u8]) -> (r: CodecResult<(&'a [u8], Self)>) {
        match <(((((A, B), C), D), E), F)>::decode_from(input) {
            Ok((rem, (((((a, b), c), d), e), f))) => Ok((rem, (a, b, c, d, e, f))),
            Err(e) => Err(e),
        }
    }
}

impl<
    A: EncodeInto,
    B: EncodeInto,
    C: EncodeInto,
    D: EncodeInto,
    E: EncodeInto,
    F: EncodeInto,
    G: EncodeInto,
> EncodeInto for (A, B, C, D, E, F, G) {
    open spec fn spec_encoded(&self) -> Seq<u8> {
        self.0.spec_encoded() + self.1.spec_encoded() + self.2.spec_encoded()
            + self.3.spec_encoded() + self.4.spec_encoded() + self.5.spec_encoded()
            + self.6.spec_encoded()
    }

    open spec fn spec_encode_error(&self, room: nat) -> Option<CodecError> {
        spec_pair_error(
            &Both(&Both(&Both(&Both(&Both(&self.0, &self.1), &self.2), &self.3), &self.4), &self.5),
            &self.6,
            room,
        )
    }

    fn encode_into<'a>(&self, dst: &'a mut [u8]) -> (r: CodecResult<&'a mut [u8]>) {
        encode_pair(
            dst,
            &Both(&Both(&Both(&Both(&Both(&self.0, &self.1), &self.2), &self.3), &self.4), &self.5),
            &self.6,
        )
    }
}

impl<
    'a,
    A: DecodeInto<'a>,
    B: DecodeInto<'a>,
    C: DecodeInto<'a>,
    D: DecodeInto<'a>,
    E: DecodeInto<'a>,
    F: DecodeInto<'a>,
    G: DecodeInto<'a>,
> DecodeInto<'a> for (A, B, C, D, E, F, G) {
    open spec fn spec_decode_error(s: Seq<u8>) -> Option<CodecError> {
        <((((((A, B), C), D), E), F), G)>::spec_decode_error(s)
    }

    open spec fn spec_decoded_len(s: Seq<u8>) -> nat {
        <((((((A, B), C), D), E), F), G)>::spec_decoded_len(s)
    }

    open spec fn spec_decodes_to(s: Seq<u8>, v: Self) -> bool {
        <((((((A, B), C), D), E), F), G)>::spec_decodes_to(
            s,
            ((((((v.0, v.1), v.2), v.3), v.4), v.5), v.6),
        )
    }

    fn decode_from(input: &'a [u8]) -> (r: CodecResult<(&'a [u8], Self)>) {
        match <((((((A, B), C), D), E), F), G)>::decode_from(input) {
            Ok((rem, ((((((a, b), c), d), e), f), g))) => Ok((rem, (a, b, c, d, e, f, g))),
            Err(e) => Err(e),
        }
    }
}

impl<
    A: EncodeInto,
    B: EncodeInto,
    C: EncodeInto,
    D: EncodeInto,
    E: EncodeInto,
    F: EncodeInto,
    G: EncodeInto,
    H: EncodeInto,
> EncodeInto for (A, B, C, D, E, F, G, H) {
    open spec fn spec_encoded(&self) -> Seq<u8> {
        self.0.spec_encoded() + self.1.spec_encoded() + self.2.spec_encoded()
            + self.3.spec_encoded() + self.4.spec_encoded() + self.5.spec_encoded()
            + self.6.spec_encoded() + self.7.spec_encoded()
    }

    open spec fn spec_encode_error(&self, room: nat) -> Option<CodecError> {
        spec_pair_error(
            &Both(
                &Both(
                    &Both(&Both(&Both(&Both(&self.0, &self.1), &self.2), &self.3), &self.4),
                    &self.5,
                ),
                &self.6,
            ),
            &self.7,
            room,
        )
    }

    fn encode_into<'a>(&self, dst: &'a mut [u8]) -> (r: CodecResult<&'a mut [u8]>) {
        encode_pair(
            dst,
            &Both(
                &Both(
                    &Both(&Both(&Both(&Both(&self.0, &self.1), &self.2), &self.3), &self.4),
                    &self.5,
                ),
                &self.6,
            ),
            &self.7,
        )
    }
}

impl<
    'a,
    A: DecodeInto<'a>,
    B: DecodeInto<'a>,
    C: DecodeInto<'a>,
    D: DecodeInto<'a>,
    E: DecodeInto<'a>,
    F: DecodeInto<'a>,
    G: DecodeInto<'a>,
    H: DecodeInto<'a>,
> DecodeInto<'a> for (A, B, C, D, E, F, G, H) {
    open spec fn spec_decode_error(s: Seq<u8>) -> Option<CodecError> {
        <(((((((A, B), C), D), E), F), G), H)>::spec_decode_error(s)
    }

    open spec fn spec_decoded_len(s: Seq<u8>) -> nat {
        <(((((((A, B), C), D), E), F), G), H)>::spec_decoded_len(s)
    }

    open spec fn spec_decodes_to(s: Seq<u8>, v: Self) -> bool {
        <(((((((A, B), C), D), E), F), G), H)>::spec_decodes_to(
            s,
            (((((((v.0, v.1), v.2), v.3), v.4), v.5), v.6), v.7),
        )
    }

    fn decode_from(input: &'a [u8]) -> (r: CodecResult<(&'a [u8], Self)>) {
        match <(((((((A, B), C), D), E), F), G), H)>::decode_from(input) {
            Ok((rem, (((((((a, b), c), d), e), f), g), h))) => Ok((rem, (a, b, c, d, e, f, g, h))),
            Err(e) => Err(e),
        }
    }
}

/// A signed integer is written as the unsigned integer of the same bits.
impl EncodeInto for i8 {
    open spec fn spec_encoded(&self) -> Seq<u8> {
        seq![*self as u8]
    }

    open spec fn spec_encode_error(&self, room: nat) -> Option<CodecError> {
        spec_lacks(1, room)
    }

    fn encode_into<'a>(&self, dst: &'a mut [u8]) -> (r: CodecResult<&'a mut [u8]>) {
        let a = [*self as u8];
        assert(a@ =~= seq![*self as u8]);
        put_bytes(dst, a.as_slice())
    }
}

impl<'a> DecodeInto<'a> for i8 {
    open spec fn spec_decode_error(s: Seq<u8>) -> Option<CodecError> {
        spec_lacks(1, s.len())
    }

    open spec fn spec_decoded_len(s: Seq<u8>) -> nat {
        1
    }

    open spec fn spec_decodes_to(s: Seq<u8>, v: Self) -> bool {
        v == s[0] as i8
    }

    fn decode_from(input: &'a [u8]) -> (r: CodecResult<(&'a [u8], Self)>) {
        match take_bytes(input, 1) {
            Ok((rem, out)) => Ok((rem, out[0] as i8)),
            Err(e) => Err(e),
        }
    }
}

/// A signed integer is written as the unsigned integer of the same bits.
impl EncodeInto for i16 {
    open spec fn spec_encoded(&self) -> Seq<u8> {
        spec_u16_to_le(*self as u16)
    }

    open spec fn spec_encode_error(&self, room: nat) -> Option<CodecError> {
        spec_lacks(2, room)
    }

    fn encode_into<'a>(&self, dst: &'a mut [u8]) -> (r: CodecResult<&'a mut [u8]>) {
        put_bytes(dst, u16_to_le(*self as u16).as_slice())
    }
}

impl<'a> DecodeInto<'a> for i16 {
    open spec fn spec_decode_error(s: Seq<u8>) -> Option<CodecError> {
        spec_lacks(2, s.len())
    }

    open spec fn spec_decoded_len(s: Seq<u8>) -> nat {
        2
    }

    open spec fn spec_decodes_to(s: Seq<u8>, v: Self) -> bool {
        v == spec_u16_from_le(s.take(2)) as i16
    }

    fn decode_from(input: &'a [u8]) -> (r: CodecResult<(&'a [u8], Self)>) {
        match take_bytes(input, 2) {
            Ok((rem, out)) => Ok((rem, u16_from_le(array_from::<2>(out)) as i16)),
            Err(e) => Err(e),
        }
    }
}

/// A signed integer is written as the unsigned integer of the same bits.
impl EncodeInto for i32 {
    open spec fn spec_encoded(&self) -> Seq<u8> {
        spec_u32_to_le(*self as u32)
    }

    open spec fn spec_encode_error(&self, room: nat) -> Option<CodecError> {
        spec_lacks(4, room)
    }

    fn encode_into<'a>(&self, dst: &'a mut [u8]) -> (r: CodecResult<&'a mut [u8]>) {
        put_bytes(dst, u32_to_le(*self as u32).as_slice())
    }
}

impl<'a> DecodeInto<'a> for i32 {
    open spec fn spec_decode_error(s: Seq<u8>) -> Option<CodecError> {
        spec_lacks(4, s.len())
    }

    open spec fn spec_decoded_len(s: Seq<u8>) -> nat {
        4
    }

    open spec fn spec_decodes_to(s: Seq<u8>, v: Self) -> bool {
        v == spec_u32_from_le(s.take(4)) as i32
    }

    fn decode_from(input: &'a [u8]) -> (r: CodecResult<(&'a [u8], Self)>) {
        match take_bytes(input, 4) {
            Ok((rem, out)) => Ok((rem, u32_from_le(array_from::<4>(out)) as i32)),
            Err(e) => Err(e),
        }
    }
}

/// A signed integer is written as the unsigned integer of the same bits.
impl EncodeInto for i64 {
    open spec fn spec_encoded(&self) -> Seq<u8> {
        spec_u64_to_le(*self as u64)
    }

    open spec fn spec_encode_error(&self, room: nat) -> Option<CodecError> {
        spec_lacks(8, room)
    }

    fn encode_into<'a>(&self, dst: &'a mut [u8]) -> (r: CodecResult<&'a mut [u8]>) {
        put_bytes(dst, u64_to_le(*self as u64).as_slice())
    }
}

impl<'a> DecodeInto<'a> for i64 {
    open spec fn spec_decode_error(s: Seq<u8>) -> Option<CodecError> {
        spec_lacks(8, s.len())
    }

    open spec fn spec_decoded_len(s: Seq<u8>) -> nat {
        8
    }

    open spec fn spec_decodes_to(s: Seq<u8>, v: Self) -> bool {
        v == spec_u64_from_le(s.take(8)) as i64
    }

    fn decode_from(input: &'a [u8]) -> (r: CodecResult<(&'a [u8], Self)>) {
        match take_bytes(input, 8) {
            Ok((rem, out)) => Ok((rem, u64_from_le(array_from::<8>(out)) as i64)),
            Err(e) => Err(e),
        }
    }
}

/// A run of bytes is written as it is.
impl EncodeInto for &[u8] {
    open spec fn spec_encoded(&self) -> Seq<u8> {
        (*self)@
    }

    open spec fn spec_encode_error(&self, room: nat) -> Option<CodecError> {
        spec_lacks((*self)@.len(), room)
    }

    fn encode_into<'a>(&self, dst: &'a mut [u8]) -> (r: CodecResult<&'a mut [u8]>) {
        put_bytes(dst, self)
    }
}

/// A run of bytes is read as all the bytes that there are.
impl<'a> DecodeInto<'a> for &'a [u8] {
    open spec fn spec_decode_error(s: Seq<u8>) -> Option<CodecError> {
        None
    }

    open spec fn spec_decoded_len(s: Seq<u8>) -> nat {
        s.len()
    }

    open spec fn spec_decodes_to(s: Seq<u8>, v: Self) -> bool {
        v@ == s
    }

    fn decode_from(input: &'a [u8]) -> (r: CodecResult<(&'a [u8], Self)>) {
        let (out, rem) = input.split_at(input.len());
        assert(out@ =~= input@);
        Ok((rem, out))
    }
}

/// A value of which a given number of bytes can be written.
pub trait EncodeIntoBounded: EncodeInto {
    /// Writes the first `len` bytes of the value to the start of `dst` and
    /// gives the rest of `dst`.
    fn encode_len_into<'a>(&self, dst: &'a mut [u8], len: usize) -> (r: CodecResult<&'a mut [u8]>)
        requires
            len <= self.spec_encoded().len(),
        ensures
            r is Ok <==> len <= old(dst)@.len(),
            match r {
                Ok(rem) => {
                    &&& rem@ == old(dst)@.skip(len as int)
                    &&& final(dst)@ == self.spec_encoded().take(len as int) + final(rem)@
                },
                Err(e) => spec_lacks(len as nat, old(dst)@.len()) == Some(e) && final(dst)@
                    == old(dst)@,
            },
    ;
}

impl EncodeIntoBounded for &[u8] {
    fn encode_len_into<'a>(&self, dst: &'a mut [u8], len: usize) -> (r: CodecResult<
        &'a mut [u8],
    >) {
        put_bytes(dst, vstd::slice::slice_subrange(self, 0, len))
    }
}

/// A value that can be read from a given number of bytes.
pub trait DecodeIntoBounded<'a>: DecodeInto<'a> {
    /// Reads a value from the first `len` bytes of `input` and gives the
    /// bytes of `input` behind them with it.
    fn decode_from_bounded(input: &'a [u8], len: usize) -> (r: CodecResult<(&'a [u8], Self)>)
        ensures
            match r {
                Ok((rem, v)) => {
                    &&& len <= input@.len()
                    &&& Self::spec_decode_error(input@.take(len as int)) is None
                    &&& Self::spec_decodes_to(input@.take(len as int), v)
                    &&& rem@ == input@.skip(len as int)
                },
                Err(e) => (if len <= input@.len() {
                    Self::spec_decode_error(input@.take(len as int))
                } else {
                    spec_lacks(len as nat, input@.len())
                }) == Some(e),
            },
    {
        let (rem, out) = match take_bytes(input, len) {
            Ok(x) => x,
            Err(e) => return Err(e),
        };
        match Self::decode_from(out) {
            Ok((_, v)) => Ok((rem, v)),
            Err(e) => Err(e),
        }
    }
}

impl<'a> DecodeIntoBounded<'a> for &'a [u8] {

}

/// A varint is written as its encoding.
impl EncodeInto for PVarint {
    open spec fn spec_encoded(&self) -> Seq<u8> {
        self@.take(self.spec_len() as int)
    }

    open spec fn spec_encode_error(&self, room: nat) -> Option<CodecError> {
        spec_lacks(self.spec_len(), room)
    }

    fn encode_into<'a>(&self, dst: &'a mut [u8]) -> (r: CodecResult<&'a mut [u8]>) {
        put_bytes(dst, self.as_slice())
    }
}

/// A varint is read as the bytes that its tag announces.
impl<'a> DecodeInto<'a> for PVarint {
    open spec fn spec_decode_error(s: Seq<u8>) -> Option<CodecError> {
        if s.len() == 0 {
            Some(CodecError::Needed(1))
        } else {
            spec_lacks(varint::spec_len(s[0]), s.len())
        }
    }

    open spec fn spec_decoded_len(s: Seq<u8>) -> nat {
        varint::spec_len(s[0])
    }

    open spec fn spec_decodes_to(s: Seq<u8>, v: Self) -> bool {
        &&& v@.len() == 9
        &&& v@.take(varint::spec_len(s[0]) as int) == s.take(varint::spec_len(s[0]) as int)
        &&& forall|i: int| varint::spec_len(s[0]) <= i < 9 ==> v@[i] == 0
        &&& v.spec_value() == varint::spec_decode(s)
    }

    fn decode_from(input: &'a [u8]) -> (r: CodecResult<(&'a [u8], Self)>) {
        if input.len() == 0 {
            return Err(CodecError::Needed(1));
        }
        let n = varint::len(input[0]);
        let (rem, out) = match take_bytes(input, n) {
            Ok(x) => x,
            Err(e) => return Err(e),
        };
        let mut buf = [0u8; 9];
        assert(buf == vstd::array::spec_array_fill_for_copy_type::<u8, 9>(0u8));
        let mut i: usize = 0;
        while i < n
            invariant
                i <= n <= 9,
                out@.len() == n,
                forall|j: int| 0 <= j < i ==> buf[j] == out[j],
                forall|j: int| i <= j < 9 ==> buf[j] == 0,
            decreases n - i,
        {
            buf[i] = out[i];
            i = i + 1;
        }
        proof {
            assert(buf@.take(n as int) =~= input@.take(n as int));
            varint::lemma_decode_prefix(buf@, buf@.take(n as int));
            varint::lemma_decode_prefix(input@, input@.take(n as int));
        }
        Ok((rem, PVarint::new(buf)))
    }
}

/// The array of four bytes that holds the bytes `s`.
pub open spec fn spec_array4(s: Seq<u8>) -> [u8; 4] {
    choose|a: [u8; 4]| a@ == s
}

/// The array of four bytes that holds the bytes of `a` is `a`.
pub proof fn lemma_array4(a: [u8; 4])
    ensures
        spec_array4(a@) == a,
{
    let b = spec_array4(a@);
    assert(b@ == a@);
    assert(b =~= a);
}

/// A header is written as its seven bytes.
impl EncodeInto for Header {
    open spec fn spec_encoded(&self) -> Seq<u8> {
        spec_header_bytes(*self)
    }

    open spec fn spec_encode_error(&self, room: nat) -> Option<CodecError> {
        spec_lacks(7, room)
    }

    fn encode_into<'a>(&self, dst: &'a mut [u8]) -> (r: CodecResult<&'a mut [u8]>) {
        proof {
            crate::laws::lemma_header_roundtrip(*self);
        }
        let mut bytes = [0u8; 7];
        bytes[0] = MAGIC_BYTES[0];
        bytes[1] = MAGIC_BYTES[1];
        bytes[2] = MAGIC_BYTES[2];
        bytes[3] = MAGIC_BYTES[3];
        let v = u16_to_le(self.version);
        bytes[4] = v[0];
        bytes[5] = v[1];
        bytes[6] = GUARD;
        assert(bytes@ =~= spec_header_bytes(*self));
        put_bytes(dst, bytes.as_slice())
    }
}

/// A header is read from seven bytes: the magic bytes are checked, then
/// the guard byte.
impl<'a> DecodeInto<'a> for Header {
    open spec fn spec_decode_error(s: Seq<u8>) -> Option<CodecError> {
        if s.len() < 7 {
            Some(CodecError::Needed((7 - s.len()) as usize))
        } else if s.take(4) != spec_magic() {
            Some(CodecError::MagicByte(spec_array4(s.take(4))))
        } else if s[6] != GUARD {
            Some(CodecError::Guard(s[6]))
        } else {
            None
        }
    }

    open spec fn spec_decoded_len(s: Seq<u8>) -> nat {
        7
    }

    open spec fn spec_decodes_to(s: Seq<u8>, v: Self) -> bool {
        v.version == spec_u16_from_le(s.subrange(4, 6))
    }

    fn decode_from(input: &'a [u8]) -> (r: CodecResult<(&'a [u8], Self)>) {
        let (rem, out) = match take_bytes(input, 7) {
            Ok(x) => x,
            Err(e) => return Err(e),
        };
        let bytes = array_from::<7>(out);
        proof {
            assert(input@.take(7).take(4) =~= input@.take(4));
            assert(input@.take(7).subrange(4, 6) =~= input@.subrange(4, 6));
        }
        match read_header(&bytes) {
            Ok(h) => Ok((rem, h)),
            Err(ParserError::MagicBytes(found)) => {
                proof {
                    lemma_array4(found);
                }
                Err(CodecError::MagicByte(found))
            },
            Err(ParserError::Guard(g)) => Err(CodecError::Guard(g)),
            // not reached: a header fails for its magic bytes or its guard byte only
            Err(_) => Err(CodecError::Needed(0)),
        }
    }
}

/// The metadata of a record is written as the frame codec writes it.
impl EncodeInto for RecordMeta {
    open spec fn spec_encoded(&self) -> Seq<u8> {
        v0::spec_meta_bytes(*self)
    }

    open spec fn spec_encode_error(&self, room: nat) -> Option<CodecError> {
        spec_lacks(v0::spec_meta_bytes(*self).len(), room)
    }

    fn encode_into<'a>(&self, dst: &'a mut [u8]) -> (r: CodecResult<&'a mut [u8]>) {
        let n = match put_meta(dst, self) {
            Ok(n) => n,
            Err(e) => return Err(e),
        };
        let (_head, rem) = dst.split_at_mut(n);
        proof {
            assert(_head@ =~= v0::spec_meta_bytes(*self));
        }
        Ok(rem)
    }
}

/// The metadata of a record is read as the frame codec reads it.
impl<'a> DecodeInto<'a> for RecordMeta {
    open spec fn spec_decode_error(s: Seq<u8>) -> Option<CodecError> {
        match v0::spec_read_meta(s).0 {
            Err(IoError::Io(IoKind::UnexpectedEof(k))) => Some(CodecError::Needed(k)),
            _ => None,
        }
    }

    open spec fn spec_decoded_len(s: Seq<u8>) -> nat {
        (s.len() - v0::spec_read_meta(s).1.len()) as nat
    }

    open spec fn spec_decodes_to(s: Seq<u8>, v: Self) -> bool {
        v0::spec_read_meta(s).0 == Ok::<RecordMeta, IoError<ParserError>>(v)
    }

    fn decode_from(input: &'a [u8]) -> (r: CodecResult<(&'a [u8], Self)>) {
        let mut rem = input;
        proof {
            crate::serialiser::lemma_read_meta_shortens(input@);
            lemma_read_meta_suffix(input@);
        }
        match crate::reader::parse_record_prefix(&mut rem) {
            Ok(meta) => Ok((rem, meta)),
            Err(IoError::Io(IoKind::UnexpectedEof(k))) => Err(CodecError::Needed(k)),
            // not reached: metadata fails for want of bytes only
            Err(_) => Err(CodecError::Needed(0)),
        }
    }
}

/// What reading metadata leaves is the end of what it read from.
pub proof fn lemma_read_meta_suffix(s: Seq<u8>)
    ensures
        v0::spec_read_meta(s).1 == s.skip(s.len() - v0::spec_read_meta(s).1.len()),
{
    let rest = v0::spec_read_meta(s).1;
    let s1 = s.skip(2);
    let s2 = s1.skip(2);
    let s3 = crate::stream::spec_after_varint(s2);
    if s.len() >= 2 {
        assert(s1.skip(0) =~= s1);
        if s1.len() >= 2 {
            assert(s2 =~= s.skip(4));
            assert(s3 =~= s.skip(s.len() - s3.len()));
            if s3.len() >= 2 {
                assert(s3.skip(2) =~= s.skip(s.len() - s3.len() + 2));
            }
        }
    }
    assert(s.skip(0) =~= s);
    assert(rest =~= s.skip(s.len() - rest.len()));
}

/// Writing typed values at a cursor over room for bytes.
pub trait EncodeExt {
    /// The number of bytes for which there is room.
    spec fn room(&self) -> nat;

    /// Writes a value at the cursor and moves the cursor behind it. A
    /// cursor at which a value did not fit is left without room.
    fn encode<T: EncodeInto>(&mut self, val: &T) -> (r: CodecResult<()>)
        ensures
            r is Ok <==> val.spec_encoded().len() <= old(self).room(),
            match r {
                Ok(_) => final(self).room() == old(self).room() - val.spec_encoded().len(),
                Err(e) => val.spec_encode_error(old(self).room()) == Some(e) && final(self).room()
                    == 0,
            },
    ;

    /// Writes the first `len` bytes of a value at the cursor and moves the
    /// cursor behind them, or reports the deficit and leaves the cursor
    /// alone.
    fn encode_len<T: EncodeIntoBounded>(&mut self, val: &T, len: usize) -> (r: CodecResult<()>)
        requires
            len <= val.spec_encoded().len(),
        ensures
            r is Ok <==> len <= old(self).room(),
            match r {
                Ok(_) => final(self).room() == old(self).room() - len,
                Err(e) => {
                    &&& spec_lacks(len as nat, old(self).room()) == Some(e)
                    &&& final(self).room() == old(self).room()
                },
            },
    ;

    /// Moves the cursor over `len` bytes, which are left as they are, or
    /// reports the deficit and leaves the cursor alone.
    fn skip(&mut self, len: usize) -> (r: CodecResult<()>)
        ensures
            r is Ok <==> len <= old(self).room(),
            match r {
                Ok(_) => final(self).room() == old(self).room() - len,
                Err(e) => {
                    &&& spec_lacks(len as nat, old(self).room()) == Some(e)
                    &&& final(self).room() == old(self).room()
                },
            },
    ;
}

impl<'a> EncodeExt for &'a mut [u8] {
    open spec fn room(&self) -> nat {
        (**self)@.len()
    }

    fn encode<T: EncodeInto>(&mut self, val: &T) -> (r: CodecResult<()>)
        ensures
            r is Ok ==> final(*old(self))@ == val.spec_encoded() + final(*final(self))@,
            r is Ok ==> (*final(self))@ == (*old(self))@.skip(val.spec_encoded().len() as int),
    {
        let mut whole: &'a mut [u8] = &mut [];
        core::mem::swap(self, &mut whole);
        match val.encode_into(whole) {
            Ok(rem) => {
                *self = rem;
                Ok(())
            },
            Err(e) => Err(e),
        }
    }

    fn encode_len<T: EncodeIntoBounded>(&mut self, val: &T, len: usize) -> (r: CodecResult<()>)
        ensures
            r is Ok ==> final(*old(self))@ == val.spec_encoded().take(len as int) + final(
                *final(self)
            )@,
            r is Ok ==> (*final(self))@ == (*old(self))@.skip(len as int),
            r is Err ==> *final(self) == *old(self),
    {
        if len > self.len() {
            return Err(CodecError::Needed(len - self.len()));
        }
        let mut whole: &'a mut [u8] = &mut [];
        core::mem::swap(self, &mut whole);
        match val.encode_len_into(whole, len) {
            Ok(rem) => {
                *self = rem;
                Ok(())
            },
            Err(e) => Err(e),
        }
    }

    fn skip(&mut self, len: usize) -> (r: CodecResult<()>)
        ensures
            r is Ok ==> final(*old(self))@ == (*old(self))@.take(len as int) + final(*final(self))@,
            r is Ok ==> (*final(self))@ == (*old(self))@.skip(len as int),
            r is Err ==> *final(self) == *old(self),
    {
        if self.len() >= len {
            let mut whole: &'a mut [u8] = &mut [];
            core::mem::swap(self, &mut whole);
            let (_, rem) = whole.split_at_mut(len);
            *self = rem;
            Ok(())
        } else {
            Err(CodecError::Needed(len - self.len()))
        }
    }
}

/// Reading typed values at a cursor over bytes.
pub trait DecodeExt<'a> {
    /// The bytes that have not been read yet.
    spec fn rest(&self) -> Seq<u8>;

    /// Reads a value at the cursor and moves the cursor behind it, or
    /// fails and leaves the cursor alone.
    fn decode<T: DecodeInto<'a>>(&mut self) -> (r: CodecResult<T>)
        ensures
            match r {
                Ok(v) => {
                    &&& T::spec_decode_error(old(self).rest()) is None
                    &&& T::spec_decodes_to(old(self).rest(), v)
                    &&& T::spec_decoded_len(old(self).rest()) <= old(self).rest().len()
                    &&& final(self).rest() == old(self).rest().skip(
                        T::spec_decoded_len(old(self).rest()) as int,
                    )
                },
                Err(e) => T::spec_decode_error(old(self).rest()) == Some(e) && final(self).rest()
                    == old(self).rest(),
            },
    ;

    /// Reads a value from the next `len` bytes at the cursor and moves the
    /// cursor behind them, or fails and leaves the cursor alone.
    fn decode_len<T: DecodeIntoBounded<'a>>(&mut self, len: usize) -> (r: CodecResult<T>)
        ensures
            match r {
                Ok(v) => {
                    &&& len <= old(self).rest().len()
                    &&& T::spec_decode_error(old(self).rest().take(len as int)) is None
                    &&& T::spec_decodes_to(old(self).rest().take(len as int), v)
                    &&& final(self).rest() == old(self).rest().skip(len as int)
                },
                Err(e) => (if len <= old(self).rest().len() {
                    T::spec_decode_error(old(self).rest().take(len as int))
                } else {
                    spec_lacks(len as nat, old(self).rest().len())
                }) == Some(e) && final(self).rest() == old(self).rest(),
            },
    ;

    /// Reads a value at the cursor like `decode` and gives `expected` where the
    /// value equals it, and `None` where it does not.
    fn decode_assert<T: DecodeInto<'a> + PartialEq>(&mut self, expected: T) -> (r: CodecResult<
        Option<T>,
    >)
        ensures
            match r {
                Ok(found) => {
                    &&& T::spec_decode_error(old(self).rest()) is None
                    &&& T::spec_decoded_len(old(self).rest()) <= old(self).rest().len()
                    &&& final(self).rest() == old(self).rest().skip(
                        T::spec_decoded_len(old(self).rest()) as int,
                    )
                    &&& found matches Some(v) ==> v == expected
                },
                Err(e) => T::spec_decode_error(old(self).rest()) == Some(e) && final(self).rest()
                    == old(self).rest(),
            },
    ;

    /// Discards the next `len` bytes, or reports the deficit and leaves
    /// the cursor alone.
    fn skip(&mut self, len: usize) -> (r: CodecResult<()>)
        ensures
            r is Ok <==> len <= old(self).rest().len(),
            match r {
                Ok(_) => final(self).rest() == old(self).rest().skip(len as int),
                Err(e) => {
                    &&& spec_lacks(len as nat, old(self).rest().len()) == Some(e)
                    &&& final(self).rest() == old(self).rest()
                },
            },
    ;
}

impl<'a> DecodeExt<'a> for &'a [u8] {
    open spec fn rest(&self) -> Seq<u8> {
        (*self)@
    }

    fn decode<T: DecodeInto<'a>>(&mut self) -> (r: CodecResult<T>) {
        match T::decode_from(*self) {
            Ok((rem, out)) => {
                *self = rem;
                Ok(out)
            },
            Err(e) => Err(e),
        }
    }

    fn decode_assert<T: DecodeInto<'a> + PartialEq>(&mut self, expected: T) -> (r: CodecResult<
        Option<T>,
    >) {
        match self.decode::<T>() {
            Ok(v) => if v == expected {
                Ok(Some(expected))
            } else {
                Ok(None)
            },
            Err(e) => Err(e),
        }
    }

    fn decode_len<T: DecodeIntoBounded<'a>>(&mut self, len: usize) -> (r: CodecResult<T>) {
        match T::decode_from_bounded(*self, len) {
            Ok((rem, out)) => {
                *self = rem;
                Ok(out)
            },
            Err(e) => Err(e),
        }
    }

    fn skip(&mut self, len: usize) -> (r: CodecResult<()>) {
        match take_bytes(*self, len) {
            Ok((rem, _)) => {
                *self = rem;
                Ok(())
            },
            Err(e) => Err(e),
        }
    }
}

} // verus!
