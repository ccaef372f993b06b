//! Little-endian integers as bytes. All multi-byte integers on the wire are
//! little-endian.
use vstd::prelude::*;

verus! {

/// Byte `i` of `x`, counted from the least significant one.
pub open spec fn spec_byte(x: u64, i: nat) -> u8 {
    ((x >> ((8 * i) as u64)) & 0xff) as u8
}

/// The `n` least significant bytes of `x`, least significant first.
pub open spec fn spec_le_bytes(x: u64, n: nat) -> Seq<u8> {
    Seq::new(n, |i: int| spec_byte(x, i as nat))
}

/// The integer whose least significant bytes are the first `k` bytes of `s`.
pub open spec fn spec_le_value(s: Seq<u8>, k: nat) -> u64
    decreases k,
{
    if k == 0 {
        0
    } else {
        spec_le_value(s, (k - 1) as nat) | ((s[k - 1] as u64) << ((8 * (k - 1)) as u64))
    }
}

/// The `k` least significant bytes of `x` as an integer (`k` up to 8).
pub open spec fn spec_low_bytes(x: u64, k: nat) -> u64 {
    if k >= 8 {
        x
    } else {
        x & !(0xffff_ffff_ffff_ffffu64 << ((8 * k) as u64))
    }
}

pub open spec fn spec_u16_to_le(v: u16) -> Seq<u8> {
    spec_le_bytes(v as u64, 2)
}

pub open spec fn spec_u16_from_le(s: Seq<u8>) -> u16 {
    spec_le_value(s, 2) as u16
}

pub open spec fn spec_u32_to_le(v: u32) -> Seq<u8> {
    spec_le_bytes(v as u64, 4)
}

pub open spec fn spec_u32_from_le(s: Seq<u8>) -> u32 {
    spec_le_value(s, 4) as u32
}

pub open spec fn spec_u64_to_le(v: u64) -> Seq<u8> {
    spec_le_bytes(v, 8)
}

pub open spec fn spec_u64_from_le(s: Seq<u8>) -> u64 {
    spec_le_value(s, 8)
}

proof fn lemma_low_bytes_step(x: u64, j: u64, b: u8)
    requires
        j < 8,
        b == ((x >> (8 * j) as u64) & 0xff) as u8,
    ensures
        spec_low_bytes(x, j as nat) | ((b as u64) << ((8 * j) as u64)) == spec_low_bytes(
            x,
            (j + 1) as nat,
        ),
{
    let sh: u64 = (8 * j) as u64;
    let lo: u64 = x & !(0xffff_ffff_ffff_ffffu64 << sh);
    assert(spec_low_bytes(x, j as nat) == lo);
    if j == 7 {
        assert(sh == 56);
        assert(lo | (((((x >> 56u64) & 0xff) as u8) as u64) << 56u64) == x) by (bit_vector)
            requires
                lo == x & !(0xffff_ffff_ffff_ffffu64 << 56u64),
        ;
    } else {
        let sh2: u64 = (8 * (j + 1)) as u64;
        assert(lo | (((((x >> sh) & 0xff) as u8) as u64) << sh) == x & !(0xffff_ffff_ffff_ffffu64
            << sh2)) by (bit_vector)
            requires
                lo == x & !(0xffff_ffff_ffff_ffffu64 << sh),
                sh2 == sh + 8,
                sh <= 48,
        ;
    }
}

/// Reading back the `k` first bytes of an integer's bytes gives its `k`
/// least significant bytes.
pub proof fn lemma_le_value_of_bytes(x: u64, n: nat, k: nat)
    requires
        k <= n <= 8,
    ensures
        spec_le_value(spec_le_bytes(x, n), k) == spec_low_bytes(x, k),
    decreases k,
{
    if k == 0 {
        assert(x & !(0xffff_ffff_ffff_ffffu64 << 0u64) == 0) by (bit_vector);
    } else {
        lemma_le_value_of_bytes(x, n, (k - 1) as nat);
        lemma_low_bytes_step(x, (k - 1) as u64, spec_le_bytes(x, n)[k - 1]);
    }
}

/// The value of a byte sequence depends on its first `k` bytes only.
pub proof fn lemma_le_value_prefix(s: Seq<u8>, t: Seq<u8>, k: nat)
    requires
        k <= s.len(),
        k <= t.len(),
        forall|i: int| 0 <= i < k ==> s[i] == t[i],
    ensures
        spec_le_value(s, k) == spec_le_value(t, k),
    decreases k,
{
    if k > 0 {
        lemma_le_value_prefix(s, t, (k - 1) as nat);
    }
}

/// The bytes of a two-byte integer in arithmetic: the low byte first, then
/// the high byte.
pub proof fn lemma_u16_bytes(v: u16)
    ensures
        spec_u16_to_le(v) == seq![(v % 256) as u8, (v / 256) as u8],
{
    let x = v as u64;
    assert(((x >> 0u64) & 0xff) as u8 == (v % 256) as u8 && ((x >> 8u64) & 0xff) as u8 == (v
        / 256) as u8) by (bit_vector)
        requires
            x == v as u64,
    ;
    assert(spec_u16_to_le(v) =~= seq![(v % 256) as u8, (v / 256) as u8]);
}

/// The value of two bytes in arithmetic: the first byte counts once, the
/// second 256 times.
pub proof fn lemma_u16_value(s: Seq<u8>)
    requires
        s.len() >= 2,
    ensures
        spec_u16_from_le(s) == s[0] + 256 * s[1],
{
    let a = s[0];
    let b = s[1];
    reveal_with_fuel(spec_le_value, 3);
    assert(((0u64 | ((a as u64) << 0u64)) | ((b as u64) << 8u64)) as u16 == a + 256 * b)
        by (bit_vector);
}

/// Writing an integer and reading it back is the identity.
pub proof fn lemma_u16_roundtrip(v: u16)
    ensures
        spec_u16_from_le(spec_u16_to_le(v)) == v,
        spec_u16_to_le(v).len() == 2,
{
    lemma_le_value_of_bytes(v as u64, 2, 2);
    let x = v as u64;
    assert((x & !(0xffff_ffff_ffff_ffffu64 << 16u64)) as u16 == v) by (bit_vector)
        requires
            x == v as u64,
    ;
}

pub proof fn lemma_u32_roundtrip(v: u32)
    ensures
        spec_u32_from_le(spec_u32_to_le(v)) == v,
        spec_u32_to_le(v).len() == 4,
{
    lemma_le_value_of_bytes(v as u64, 4, 4);
    let x = v as u64;
    assert((x & !(0xffff_ffff_ffff_ffffu64 << 32u64)) as u32 == v) by (bit_vector)
        requires
            x == v as u64,
    ;
}

pub proof fn lemma_u64_roundtrip(v: u64)
    ensures
        spec_u64_from_le(spec_u64_to_le(v)) == v,
        spec_u64_to_le(v).len() == 8,
{
    lemma_le_value_of_bytes(v, 8, 8);
}

/// One byte of an integer.
pub fn byte_of(x: u64, i: usize) -> (b: u8)
    requires
        i < 8,
    ensures
        b == spec_byte(x, i as nat),
{
    let sh: u64 = 8 * (i as u64);
    ((x >> sh) & 0xff) as u8
}

/// The integer assembled from the bytes of `b`, least significant first.
pub fn le_value(b: &[u8]) -> (v: u64)
    requires
        b.len() <= 8,
    ensures
        v == spec_le_value(b@, b.len() as nat),
{
    let mut v: u64 = 0;
    let mut i: usize = 0;
    while i < b.len()
        invariant
            i <= b.len() <= 8,
            v == spec_le_value(b@, i as nat),
        decreases b.len() - i,
    {
        let sh: u64 = 8 * (i as u64);
        v = v | ((b[i] as u64) << sh);
        i = i + 1;
    }
    v
}

pub fn u16_to_le(v: u16) -> (b: [u8; 2])
    ensures
        b@ == spec_u16_to_le(v),
{
    let b = [byte_of(v as u64, 0), byte_of(v as u64, 1)];
    assert(b@ =~= spec_u16_to_le(v));
    b
}

pub fn u16_from_le(b: [u8; 2]) -> (v: u16)
    ensures
        v == spec_u16_from_le(b@),
{
    le_value(b.as_slice()) as u16
}

pub fn u32_to_le(v: u32) -> (b: [u8; 4])
    ensures
        b@ == spec_u32_to_le(v),
{
    let x = v as u64;
    let b = [byte_of(x, 0), byte_of(x, 1), byte_of(x, 2), byte_of(x, 3)];
    assert(b@ =~= spec_u32_to_le(v));
    b
}

pub fn u32_from_le(b: [u8; 4]) -> (v: u32)
    ensures
        v == spec_u32_from_le(b@),
{
    le_value(b.as_slice()) as u32
}

pub fn u64_to_le(v: u64) -> (b: [u8; 8])
    ensures
        b@ == spec_u64_to_le(v),
{
    let b = [
        byte_of(v, 0),
        byte_of(v, 1),
        byte_of(v, 2),
        byte_of(v, 3),
        byte_of(v, 4),
        byte_of(v, 5),
        byte_of(v, 6),
        byte_of(v, 7),
    ];
    assert(b@ =~= spec_u64_to_le(v));
    b
}

pub fn u64_from_le(b: [u8; 8]) -> (v: u64)
    ensures
        v == spec_u64_from_le(b@),
{
    le_value(b.as_slice())
}

/// The three low bytes of an integer: an unsigned integer of 24 bits.
pub open spec fn spec_u24_to_le(v: u32) -> Seq<u8> {
    spec_le_bytes(v as u64, 3)
}

pub open spec fn spec_u24_from_le(s: Seq<u8>) -> u32 {
    spec_le_value(s, 3) as u32
}

/// The signed integer of 24 bits whose bits are the 24 low bits of `x`.
pub open spec fn spec_sign_24(x: u32) -> i32 {
    if x & 0xFF_FFFF >= 0x80_0000 {
        ((x & 0xFF_FFFF) - 0x100_0000) as i32
    } else {
        (x & 0xFF_FFFF) as i32
    }
}

/// The three low bytes of a signed integer: a signed integer of 24 bits.
pub open spec fn spec_i24_to_le(v: i32) -> Seq<u8> {
    spec_le_bytes((v as u32) as u64, 3)
}

pub open spec fn spec_i24_from_le(s: Seq<u8>) -> i32 {
    spec_sign_24(spec_u24_from_le(s))
}

/// An integer of 24 bits is read back as it was written.
pub proof fn lemma_24_roundtrip(u: u32, i: i32)
    requires
        u < 0x100_0000,
        -0x80_0000 <= i < 0x80_0000,
    ensures
        spec_u24_from_le(spec_u24_to_le(u)) == u,
        spec_i24_from_le(spec_i24_to_le(i)) == i,
{
    lemma_le_value_of_bytes(u as u64, 3, 3);
    let x = u as u64;
    assert((x & !(0xffff_ffff_ffff_ffffu64 << 24u64)) as u32 == u) by (bit_vector)
        requires
            x == u as u64,
            u < 0x100_0000,
    ;
    let w = i as u32;
    let y = w as u64;
    lemma_le_value_of_bytes(y, 3, 3);
    let low = (y & !(0xffff_ffff_ffff_ffffu64 << 24u64)) as u32;
    assert(low == w & 0xFF_FFFF && low < 0x100_0000 && low & 0xFF_FFFF == low) by (bit_vector)
        requires
            y == w as u64,
            low == (y & !(0xffff_ffff_ffff_ffffu64 << 24u64)) as u32,
    ;
    assert(spec_sign_24(low) == i) by (bit_vector)
        requires
            low == (i as u32) & 0xFF_FFFF,
            -0x80_0000 <= i < 0x80_0000,
    ;
}

/// The three low bytes of `v`.
pub fn u24_to_le(v: u32) -> (b: [u8; 3])
    ensures
        b@ == spec_u24_to_le(v),
{
    let x = v as u64;
    let b = [byte_of(x, 0), byte_of(x, 1), byte_of(x, 2)];
    assert(b@ =~= spec_u24_to_le(v));
    b
}

pub fn u24_from_le(b: [u8; 3]) -> (v: u32)
    ensures
        v == spec_u24_from_le(b@),
{
    le_value(b.as_slice()) as u32
}

/// The three low bytes of `v`.
pub fn i24_to_le(v: i32) -> (b: [u8; 3])
    ensures
        b@ == spec_i24_to_le(v),
{
    let x = (v as u32) as u64;
    let b = [byte_of(x, 0), byte_of(x, 1), byte_of(x, 2)];
    assert(b@ =~= spec_i24_to_le(v));
    b
}

pub fn i24_from_le(b: [u8; 3]) -> (v: i32)
    ensures
        v == spec_i24_from_le(b@),
{
    let x = u24_from_le(b);
    let low = x & 0xFF_FFFF;
    assert(low <= 0xFF_FFFF) by (bit_vector)
        requires
            low == x & 0xFF_FFFF,
    ;
    if low >= 0x80_0000 {
        (low as i64 - 0x100_0000) as i32
    } else {
        low as i32
    }
}

} // verus!
