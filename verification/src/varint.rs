//! The varint codec: a self-describing little-endian variable-length `u64`.
//!
//! An encoding takes 1 to 9 bytes. The first byte, the tag, tells the total
//! length by itself: `k` trailing zero bits mean `k + 1` bytes. For up to 8
//! bytes the value sits above the tag bits of one little-endian integer; with
//! 9 bytes the tag is zero and the value fills the 8 bytes after it.
use crate::endian::{
    byte_of, le_value, lemma_le_value_of_bytes, lemma_le_value_prefix, spec_byte, spec_le_bytes,
    spec_le_value, spec_low_bytes,
};
use vstd::prelude::*;

verus! {

/// The longest encoding, in bytes.
pub const MAX_LEN: usize = 9;

/// The longest encoding whose tag byte carries bits of the value.
pub const TAG_WITH_DATA_LEN: usize = 7;

/// The length that a tag announces, as a machine integer.
pub open spec fn spec_len_u64(tag: u8) -> u64 {
    if tag & 0x01 != 0 {
        1
    } else if tag & 0x02 != 0 {
        2
    } else if tag & 0x04 != 0 {
        3
    } else if tag & 0x08 != 0 {
        4
    } else if tag & 0x10 != 0 {
        5
    } else if tag & 0x20 != 0 {
        6
    } else if tag & 0x40 != 0 {
        7
    } else if tag & 0x80 != 0 {
        8
    } else {
        9
    }
}

/// The total length of an encoding, from its tag: the number of trailing
/// zero bits of the tag, plus one.
pub open spec fn spec_len(tag: u8) -> nat {
    spec_len_u64(tag) as nat
}

/// The length of the encoding of `v`, as a machine integer.
pub open spec fn spec_size_u64(v: u64) -> u64 {
    if v < 0x80 {
        1
    } else if v < 0x4000 {
        2
    } else if v < 0x20_0000 {
        3
    } else if v < 0x1000_0000 {
        4
    } else if v < 0x8_0000_0000 {
        5
    } else if v < 0x400_0000_0000 {
        6
    } else if v < 0x2_0000_0000_0000 {
        7
    } else if v < 0x100_0000_0000_0000 {
        8
    } else {
        9
    }
}

/// The length of the encoding of `v`: the least `n` such that `v` fits in
/// `7 * n` bits, and 9 where it needs more than 56 bits.
pub open spec fn spec_size(v: u64) -> nat {
    spec_size_u64(v) as nat
}

/// The integer whose low bytes are the encoding of `v`, for encodings of up
/// to 8 bytes: the value shifted past the tag bits, under the tag bit.
pub open spec fn spec_tagged(v: u64) -> u64 {
    let n = spec_size_u64(v);
    (v << n) | (1u64 << ((n - 1) as u64))
}

/// The encoding of `v`.
pub open spec fn spec_encode(v: u64) -> Seq<u8> {
    let n = spec_size(v);
    if n == 9 {
        seq![0u8] + spec_le_bytes(v, 8)
    } else {
        spec_le_bytes(spec_tagged(v), n)
    }
}

/// The value that the encoding at the start of `s` stands for. It is
/// meaningful where `s` holds at least `spec_len(s[0])` bytes.
pub open spec fn spec_decode(s: Seq<u8>) -> u64 {
    let n = spec_len(s[0]);
    if n <= 7 {
        spec_le_value(s, n) >> (n as u64)
    } else {
        spec_le_value(s.subrange(1, n as int), (n - 1) as nat)
    }
}

proof fn lemma_tagged_bits(v: u64, n: u64, m: u64)
    by (bit_vector)
    requires
        n == spec_size_u64(v),
        n <= 8,
        n == m + 1,
    ensures
        ((v << n) | (1u64 << m)) >> n == v,
        spec_len_u64((((v << n) | (1u64 << m)) & 0xff) as u8) == n,
        n < 8 ==> ((v << n) | (1u64 << m)) & !(0xffff_ffff_ffff_ffffu64 << (8 * n) as u64) == (v
            << n) | (1u64 << m),
{
}

/// Encoding and then decoding is the identity on every `u64`, and the tag of
/// an encoding announces exactly the encoding's length, which is 1 to 9.
pub proof fn lemma_roundtrip(v: u64)
    ensures
        spec_decode(spec_encode(v)) == v,
        spec_encode(v).len() == spec_size(v),
        spec_len(spec_encode(v)[0]) == spec_encode(v).len(),
        1 <= spec_encode(v).len() <= 9,
{
    let n = spec_size_u64(v);
    let s = spec_encode(v);
    if n == 9 {
        let tail = s.subrange(1, 9);
        assert(tail =~= spec_le_bytes(v, 8));
        lemma_le_value_of_bytes(v, 8, 8);
        assert(spec_len_u64(0u8) == 9) by (bit_vector);
    } else {
        let m = (n - 1) as u64;
        let x = spec_tagged(v);
        lemma_tagged_bits(v, n, m);
        lemma_le_value_of_bytes(x, n as nat, n as nat);
        assert(s[0] == spec_byte(x, 0));
        assert(x >> 0u64 == x) by (bit_vector);
        assert(spec_len(s[0]) == n);
        if n <= 7 {
            assert(spec_le_value(s, n as nat) == x);
        } else {
            // eight bytes: the value fills the seven bytes after the tag
            let tail = s.subrange(1, 8);
            lemma_le_value_tail(x, v);
            assert(tail =~= spec_le_bytes(v, 7)) by {
                assert forall|i: int| 0 <= i < 7 implies tail[i] == spec_le_bytes(v, 7)[i] by {
                    lemma_byte_shift(x, v, i as u64);
                }
            }
            lemma_le_value_of_bytes(v, 7, 7);
        }
    }
}

proof fn lemma_byte_shift(x: u64, v: u64, i: u64)
    requires
        x >> 8u64 == v,
        i < 7,
    ensures
        spec_byte(x, (i + 1) as nat) == spec_byte(v, i as nat),
{
    let a: u64 = (8 * (i + 1)) as u64;
    let b: u64 = (8 * i) as u64;
    assert(((x >> a) & 0xff) as u8 == (((x >> 8u64) >> b) & 0xff) as u8) by (bit_vector)
        requires
            a == b + 8,
            b <= 48,
    ;
}

proof fn lemma_le_value_tail(x: u64, v: u64)
    requires
        x >> 8u64 == v,
    ensures
        spec_low_bytes(v, 7) == v,
{
    assert((x >> 8u64) & !(0xffff_ffff_ffff_ffffu64 << 56u64) == x >> 8u64) by (bit_vector);
}

/// The shortest encoding in arithmetic: a value below 128 is the one byte
/// `2 * v + 1`. So 0 is `0x01`, 2 is `0x05` and 14 is `0x1D`.
pub proof fn lemma_one_byte(v: u64)
    requires
        v < 0x80,
    ensures
        spec_encode(v) == seq![(2 * v + 1) as u8],
{
    assert((((v << 1u64) | (1u64 << 0u64)) >> 0u64) & 0xff == 2 * v + 1) by (bit_vector)
        requires
            v < 0x80,
    ;
    assert(spec_encode(v) =~= seq![(2 * v + 1) as u8]);
}

/// Decoding reads no byte behind the encoding: a prefix that holds the whole
/// encoding decodes to the same value.
pub proof fn lemma_decode_prefix(s: Seq<u8>, head: Seq<u8>)
    requires
        s.len() >= 1,
        s.len() >= spec_len(s[0]),
        head == s.take(spec_len(s[0]) as int),
    ensures
        spec_decode(head) == spec_decode(s),
{
    let n = spec_len(s[0]);
    assert(head[0] == s[0]);
    if n <= 7 {
        lemma_le_value_prefix(head, s, n);
    } else {
        assert(head.subrange(1, n as int) =~= s.subrange(1, n as int));
    }
}

proof fn lemma_trailing_zeros(tag: u8)
    ensures
        vstd::std_specs::bits::u8_trailing_zeros(tag) + 1 == spec_len_u64(tag),
{
    vstd::std_specs::bits::axiom_u8_trailing_zeros(tag);
    let z = vstd::std_specs::bits::u8_trailing_zeros(tag);
    let n = spec_len_u64(tag);
    let c: u8 = (n - 1) as u8;
    // the bit below which the tag is clear
    assert(c < 8 ==> (tag >> c) & 1u8 == 1u8) by (bit_vector)
        requires
            c + 1 == spec_len_u64(tag),
    ;
    assert(c == 8 ==> tag == 0) by (bit_vector)
        requires
            c + 1 == spec_len_u64(tag),
    ;
    if z < c {
        let zz: u8 = z as u8;
        assert((tag >> zz) & 1u8 == 0u8) by (bit_vector)
            requires
                zz < c,
                c + 1 == spec_len_u64(tag),
        ;
    } else if z > c {
        assert((tag >> c) & 1u8 == 0u8);
    }
}

/// The total length of an encoding, from its tag alone.
pub fn len(tag: u8) -> (n: usize)
    ensures
        n == spec_len(tag),
        1 <= n <= 9,
{
    proof {
        lemma_trailing_zeros(tag);
    }
    tag.trailing_zeros() as usize + 1
}

/// The length of the encoding of `val`.
pub fn size(val: u64) -> (n: usize)
    ensures
        n == spec_size(val),
        1 <= n <= 9,
{
    if val < 0x80 {
        1
    } else if val < 0x4000 {
        2
    } else if val < 0x20_0000 {
        3
    } else if val < 0x1000_0000 {
        4
    } else if val < 0x8_0000_0000 {
        5
    } else if val < 0x400_0000_0000 {
        6
    } else if val < 0x2_0000_0000_0000 {
        7
    } else if val < 0x100_0000_0000_0000 {
        8
    } else {
        9
    }
}

/// Writes the encoding of `val` to the start of `buf` and returns its
/// length. The bytes of `buf` behind the encoding are left as they were.
pub fn encode(buf: &mut [u8; 9], val: u64) -> (n: usize)
    ensures
        n == spec_size(val),
        1 <= n <= 9,
        final(buf)@.take(n as int) == spec_encode(val),
        forall|i: int| n <= i < 9 ==> final(buf)[i] == old(buf)[i],
{
    let n = size(val);
    if n == 9 {
        buf[0] = 0;
        let mut i: usize = 0;
        while i < 8
            invariant
                i <= 8,
                buf[0] == 0,
                forall|j: int| 1 <= j <= i ==> buf[j] == spec_byte(val, (j - 1) as nat),
            decreases 8 - i,
        {
            buf[i + 1] = byte_of(val, i);
            i = i + 1;
        }
        assert(buf@.take(9) =~= spec_encode(val));
    } else {
        let data: u64 = (val << (n as u64)) | (1u64 << ((n - 1) as u64));
        let mut i: usize = 0;
        while i < n
            invariant
                i <= n <= 8,
                forall|j: int| 0 <= j < i ==> buf[j] == spec_byte(data, j as nat),
                forall|j: int| n <= j < 9 ==> buf[j] == old(buf)[j],
            decreases n - i,
        {
            buf[i] = byte_of(data, i);
            i = i + 1;
        }
        assert(buf@.take(n as int) =~= spec_encode(val));
    }
    n
}

/// The encoding of `val` in a buffer of the longest length: the encoding
/// first, zero bytes behind it.
pub fn to_le_bytes(val: u64) -> (buf: [u8; 9])
    ensures
        buf@.take(spec_size(val) as int) == spec_encode(val),
        forall|i: int| spec_size(val) <= i < 9 ==> buf[i] == 0,
{
    let mut buf = [0u8; 9];
    assert(buf == vstd::array::spec_array_fill_for_copy_type::<u8, 9>(0u8));
    assert(forall|i: int| 0 <= i < 9 ==> buf@[i] == 0u8);
    let _ = encode(&mut buf, val);
    buf
}

/// The value of the encoding at the start of `data`.
///
/// `data` holds at least the bytes that its first byte announces.
pub fn from_le_bytes(data: &[u8]) -> (v: u64)
    requires
        data.len() >= 1,
        data.len() >= spec_len(data[0]),
    ensures
        v == spec_decode(data@),
{
    let n = len(data[0]);
    if n <= TAG_WITH_DATA_LEN {
        let head = vstd::slice::slice_subrange(data, 0, n);
        proof {
            lemma_le_value_prefix(head@, data@, n as nat);
        }
        le_value(head) >> (n as u64)
    } else {
        let tail = vstd::slice::slice_subrange(data, 1, n);
        le_value(tail)
    }
}

/// The value of the encoding at the start of `data`.
///
/// `data` holds at least the bytes that its first byte announces.
pub fn decode(data: &[u8]) -> (v: u64)
    requires
        data.len() >= 1,
        data.len() >= spec_len(data[0]),
    ensures
        v == spec_decode(data@),
{
    from_le_bytes(data)
}

} // verus!
