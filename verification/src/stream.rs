//! Bounded byte-stream primitives: a cursor that moves through a buffer.
//!
//! A read stream hands out the next bytes or reports how many are missing; a
//! mut stream takes bytes while there is room or reports the deficit. Neither
//! allocates: on success the cursor is retargeted to the remainder, on failure
//! it stays where it was.
use crate::endian::{
    spec_u16_from_le, spec_u16_to_le, spec_u32_from_le, spec_u32_to_le, spec_u64_from_le,
    spec_u64_to_le, u16_from_le, u16_to_le, u32_from_le, u32_to_le, u64_from_le, u64_to_le,
};
use crate::error::{CodecError, CodecResult};
use crate::varint;
use vstd::prelude::*;

verus! {

/// What `extract_varint` gives on the bytes `s`: the value of the encoding at
/// the start of `s`, or the number of bytes that are missing, which the tag
/// tells (one byte where there is not even a tag).
pub open spec fn spec_extract_varint(s: Seq<u8>) -> Result<u64, CodecError> {
    if s.len() == 0 {
        Err(CodecError::Needed(1))
    } else if s.len() < varint::spec_len(s[0]) {
        Err(CodecError::Needed((varint::spec_len(s[0]) - s.len()) as usize))
    } else {
        Ok(varint::spec_decode(s))
    }
}

/// The bytes left behind `extract_varint` on the bytes `s`.
pub open spec fn spec_after_varint(s: Seq<u8>) -> Seq<u8> {
    if spec_extract_varint(s) is Ok {
        s.skip(varint::spec_len(s[0]) as int)
    } else {
        s
    }
}

/// Copies `src` over `dst`, which has the same length.
pub fn copy_into(dst: &mut [u8], src: &[u8])
    requires
        old(dst).len() == src.len(),
    ensures
        final(dst)@ == src@,
{
    let n = src.len();
    let mut i: usize = 0;
    while i < n
        invariant
            i <= n,
            n == src.len(),
            dst.len() == n,
            forall|j: int| 0 <= j < i ==> dst[j] == src[j],
        decreases n - i,
    {
        dst[i] = src[i];
        i = i + 1;
    }
    assert(dst@ =~= src@);
}

/// Writes `input` to the start of `buf` and returns the rest of `buf`, or
/// the number of bytes for which `buf` has no room.
pub fn insert_bytes<'a>(buf: &'a mut [u8], input: &[u8]) -> (r: Result<&'a mut [u8], usize>)
    ensures
        match r {
            Ok(rem) => {
                &&& input.len() <= old(buf).len()
                &&& rem@ == old(buf)@.skip(input.len() as int)
                &&& final(buf)@ == input@ + final(rem)@
            },
            Err(n) => {
                &&& input.len() > old(buf).len()
                &&& n == input.len() - old(buf).len()
                &&& final(buf)@ == old(buf)@
            },
        },
{
    if input.len() <= buf.len() {
        let (dst, rem) = buf.split_at_mut(input.len());
        copy_into(dst, input);
        Ok(rem)
    } else {
        Err(input.len() - buf.len())
    }
}

/// Writes `data` at the cursor `buf` and moves the cursor behind it, or
/// reports the deficit and leaves the cursor alone.
pub fn insert_impl<'a>(buf: &mut &'a mut [u8], data: &[u8]) -> (r: CodecResult<()>)
    ensures
        match r {
            Ok(_) => {
                &&& data.len() <= old(buf).len()
                &&& final(buf)@ == old(buf)@.skip(data.len() as int)
                &&& final(*old(buf))@ == data@ + final(*final(buf))@
            },
            Err(e) => {
                &&& data.len() > old(buf).len()
                &&& e == CodecError::Needed((data.len() - old(buf).len()) as usize)
                &&& *final(buf) == *old(buf)
            },
        },
{
    if data.len() <= buf.len() {
        let mut whole: &'a mut [u8] = &mut [];
        core::mem::swap(buf, &mut whole);
        let (dst, rem) = whole.split_at_mut(data.len());
        copy_into(dst, data);
        *buf = rem;
        Ok(())
    } else {
        Err(CodecError::Needed(data.len() - buf.len()))
    }
}

/// Hands out the next `len` bytes at the cursor `buf` and moves the cursor
/// behind them, or reports the deficit and leaves the cursor alone.
pub fn extract_impl<'a>(buf: &mut &'a [u8], len: usize) -> (r: CodecResult<&'a [u8]>)
    ensures
        match r {
            Ok(out) => {
                &&& len <= old(buf).len()
                &&& out@ == old(buf)@.take(len as int)
                &&& final(buf)@ == old(buf)@.skip(len as int)
            },
            Err(e) => {
                &&& len > old(buf).len()
                &&& e == CodecError::Needed((len - old(buf).len()) as usize)
                &&& final(buf)@ == old(buf)@
            },
        },
{
    if len <= buf.len() {
        let (out, rem) = buf.split_at(len);
        *buf = rem;
        Ok(out)
    } else {
        Err(CodecError::Needed(len - buf.len()))
    }
}

/// The array that holds the `N` bytes of `s`.
pub fn array_from<const N: usize>(s: &[u8]) -> (a: [u8; N])
    requires
        s.len() == N,
    ensures
        a@ == s@,
{
    let mut a = [0u8; N];
    let mut i: usize = 0;
    while i < N
        invariant
            i <= N,
            s.len() == N,
            forall|j: int| 0 <= j < i ==> a[j] == s[j],
        decreases N - i,
    {
        a[i] = s[i];
        i = i + 1;
    }
    assert(a@ =~= s@);
    a
}

/// A codec for a family of records, over caller-supplied buffers: a
/// payload is read from the bytes of one record, and written to the start
/// of a buffer, of which the number of bytes written is returned.
pub trait RecordSerialise: Sized {
    type Err;

    type Record;

    fn deserialise_record(&self, id: u16, value: &[u8]) -> Result<Self::Record, Self::Err>;

    fn serialise_record(&self, value: &mut [u8], record: &Self::Record) -> Result<
        usize,
        Self::Err,
    >;
}

/// What reading `n` bytes from the bytes `s` gives: the next `n` bytes, or
/// the number of bytes that are missing.
pub open spec fn spec_extract(s: Seq<u8>, n: nat) -> Result<Seq<u8>, CodecError> {
    if n <= s.len() {
        Ok(s.take(n as int))
    } else {
        Err(CodecError::Needed((n - s.len()) as usize))
    }
}

/// The bytes left behind a read of `n` bytes from the bytes `s`: a read
/// that fails consumes nothing.
pub open spec fn spec_after(s: Seq<u8>, n: nat) -> Seq<u8> {
    if n <= s.len() {
        s.skip(n as int)
    } else {
        s
    }
}

/// A cursor over bytes to be read.
pub trait ByteStream {
    /// The bytes that have not been read yet.
    spec fn remaining(&self) -> Seq<u8>;

    /// The number of bytes that have not been read yet.
    fn available(&self) -> (n: usize)
        ensures
            n == self.remaining().len(),
    ;

    /// The next `N` bytes.
    fn extract<const N: usize>(&mut self) -> (r: CodecResult<[u8; N]>)
        ensures
            match r {
                Ok(a) => spec_extract(old(self).remaining(), N as nat) == Ok::<
                    Seq<u8>,
                    CodecError,
                >(a@),
                Err(e) => spec_extract(old(self).remaining(), N as nat) == Err::<
                    Seq<u8>,
                    CodecError,
                >(e),
            },
            final(self).remaining() == spec_after(old(self).remaining(), N as nat),
    ;

    /// The value of the varint at the cursor.
    fn extract_varint(&mut self) -> (r: CodecResult<u64>)
        ensures
            r == spec_extract_varint(old(self).remaining()),
            final(self).remaining() == spec_after_varint(old(self).remaining()),
    ;

    /// Discards the next `len` bytes.
    fn skip(&mut self, len: usize) -> (r: CodecResult<()>)
        ensures
            r is Ok <==> len <= old(self).remaining().len(),
            r matches Err(e) ==> spec_extract(old(self).remaining(), len as nat) == Err::<
                Seq<u8>,
                CodecError,
            >(e),
            final(self).remaining() == spec_after(old(self).remaining(), len as nat),
    ;

    fn extract_u8(&mut self) -> (r: CodecResult<u8>)
        ensures
            match r {
                Ok(v) => {
                    &&& 1 <= old(self).remaining().len()
                    &&& v == old(self).remaining()[0]
                },
                Err(e) => spec_extract(old(self).remaining(), 1) == Err::<Seq<u8>, CodecError>(e),
            },
            final(self).remaining() == spec_after(old(self).remaining(), 1),
    {
        match self.extract::<1>() {
            Ok(a) => Ok(a[0]),
            Err(e) => Err(e),
        }
    }

    fn extract_u16(&mut self) -> (r: CodecResult<u16>)
        ensures
            match r {
                Ok(v) => {
                    &&& 2 <= old(self).remaining().len()
                    &&& v == spec_u16_from_le(old(self).remaining().take(2))
                },
                Err(e) => spec_extract(old(self).remaining(), 2) == Err::<Seq<u8>, CodecError>(e),
            },
            final(self).remaining() == spec_after(old(self).remaining(), 2),
    {
        match self.extract::<2>() {
            Ok(a) => Ok(u16_from_le(a)),
            Err(e) => Err(e),
        }
    }

    fn extract_u32(&mut self) -> (r: CodecResult<u32>)
        ensures
            match r {
                Ok(v) => {
                    &&& 4 <= old(self).remaining().len()
                    &&& v == spec_u32_from_le(old(self).remaining().take(4))
                },
                Err(e) => spec_extract(old(self).remaining(), 4) == Err::<Seq<u8>, CodecError>(e),
            },
            final(self).remaining() == spec_after(old(self).remaining(), 4),
    {
        match self.extract::<4>() {
            Ok(a) => Ok(u32_from_le(a)),
            Err(e) => Err(e),
        }
    }

    fn extract_u64(&mut self) -> (r: CodecResult<u64>)
        ensures
            match r {
                Ok(v) => {
                    &&& 8 <= old(self).remaining().len()
                    &&& v == spec_u64_from_le(old(self).remaining().take(8))
                },
                Err(e) => spec_extract(old(self).remaining(), 8) == Err::<Seq<u8>, CodecError>(e),
            },
            final(self).remaining() == spec_after(old(self).remaining(), 8),
    {
        match self.extract::<8>() {
            Ok(a) => Ok(u64_from_le(a)),
            Err(e) => Err(e),
        }
    }
}

impl<'a> ByteStream for &'a [u8] {
    open spec fn remaining(&self) -> Seq<u8> {
        (*self)@
    }

    fn available(&self) -> (n: usize) {
        self.len()
    }

    fn extract<const N: usize>(&mut self) -> (r: CodecResult<[u8; N]>) {
        match extract_impl(self, N) {
            Ok(out) => Ok(array_from::<N>(out)),
            Err(e) => Err(e),
        }
    }

    fn extract_varint(&mut self) -> (r: CodecResult<u64>) {
        if self.len() == 0 {
            return Err(CodecError::Needed(1));
        }
        let n = varint::len(self[0]);
        match extract_impl(self, n) {
            Ok(data) => {
                proof {
                    crate::varint::lemma_decode_prefix(old(self)@, data@);
                }
                Ok(varint::decode(data))
            },
            Err(e) => Err(e),
        }
    }

    fn skip(&mut self, len: usize) -> (r: CodecResult<()>) {
        match extract_impl(self, len) {
            Ok(_) => Ok(()),
            Err(e) => Err(e),
        }
    }
}

/// What the insertion of `n` bytes into room for `space` bytes gives, and
/// the room that it leaves: all bytes are taken where there is room for
/// them; else none is taken and the deficit is reported.
pub open spec fn spec_inserted(space: nat, n: nat, r: CodecResult<()>, left: nat) -> bool {
    if n <= space {
        r is Ok && left == space - n
    } else {
        r == Err::<(), CodecError>(CodecError::Needed((n - space) as usize)) && left == space
    }
}

/// What a checked insertion of `n` bytes into room for `space` bytes
/// gives, and the room that it leaves.
pub open spec fn spec_inserted_checked(
    space: nat,
    n: nat,
    r: Result<(), usize>,
    left: nat,
) -> bool {
    if n <= space {
        r is Ok && left == space - n
    } else {
        r == Err::<(), usize>((n - space) as usize) && left == space
    }
}

/// A cursor over room for bytes to be written.
///
/// The trait speaks of the room only. The cursor over a byte slice says in
/// addition which bytes the slice holds once the cursor is done with it.
pub trait MutByteStream {
    /// The number of bytes for which there is room.
    spec fn space(&self) -> nat;

    /// Writes all of `data`, or none of it and reports the deficit.
    fn insert_checked(&mut self, data: &[u8]) -> (r: Result<(), usize>)
        ensures
            spec_inserted_checked(old(self).space(), data@.len(), r, final(self).space()),
    ;

    /// Writes all of `data` where there is room for it.
    fn insert_slice(&mut self, data: &[u8])
        requires
            data.len() <= old(self).space(),
        ensures
            final(self).space() == old(self).space() - data.len(),
    ;

    /// Writes the bytes of an array, or none of them and reports the deficit.
    fn insert_array_checked<const N: usize>(&mut self, data: [u8; N]) -> (r: Result<(), usize>)
        ensures
            spec_inserted_checked(old(self).space(), N as nat, r, final(self).space()),
    ;

    /// Writes the bytes of an array, or none of them and reports the deficit.
    fn insert<const N: usize>(&mut self, data: [u8; N]) -> (r: CodecResult<()>)
        ensures
            spec_inserted(old(self).space(), N as nat, r, final(self).space()),
    ;

    /// Writes the encoding of `data` as a varint.
    fn insert_varint(&mut self, data: u64) -> (r: CodecResult<()>)
        ensures
            spec_inserted(old(self).space(), varint::spec_size(data), r, final(self).space()),
    ;

    fn insert_u8(&mut self, data: u8) -> (r: CodecResult<()>)
        ensures
            spec_inserted(old(self).space(), 1, r, final(self).space()),
    {
        self.insert([data])
    }

    fn insert_u16(&mut self, data: u16) -> (r: CodecResult<()>)
        ensures
            spec_inserted(old(self).space(), 2, r, final(self).space()),
    {
        self.insert(u16_to_le(data))
    }

    fn insert_u32(&mut self, data: u32) -> (r: CodecResult<()>)
        ensures
            spec_inserted(old(self).space(), 4, r, final(self).space()),
    {
        self.insert(u32_to_le(data))
    }

    fn insert_u64(&mut self, data: u64) -> (r: CodecResult<()>)
        ensures
            spec_inserted(old(self).space(), 8, r, final(self).space()),
    {
        self.insert(u64_to_le(data))
    }
}

impl<'a> MutByteStream for &'a mut [u8] {
    open spec fn space(&self) -> nat {
        (**self)@.len()
    }

    fn insert_checked(&mut self, data: &[u8]) -> (r: Result<(), usize>)
        ensures
            r is Ok ==> final(*old(self))@ == data@ + final(*final(self))@,
            r is Ok ==> (*final(self))@ == (*old(self))@.skip(data@.len() as int),
            r is Err ==> *final(self) == *old(self),
    {
        match insert_impl(self, data) {
            Ok(_) => Ok(()),
            Err(_) => Err(data.len() - self.len()),
        }
    }

    fn insert_slice(&mut self, data: &[u8])
        ensures
            final(*old(self))@ == data@ + final(*final(self))@,
            (*final(self))@ == (*old(self))@.skip(data@.len() as int),
    {
        let _ = insert_impl(self, data);
    }

    fn insert_array_checked<const N: usize>(&mut self, data: [u8; N]) -> (r: Result<(), usize>)
        ensures
            r is Ok ==> final(*old(self))@ == data@ + final(*final(self))@,
            r is Ok ==> (*final(self))@ == (*old(self))@.skip(data@.len() as int),
            r is Err ==> *final(self) == *old(self),
    {
        self.insert_checked(data.as_slice())
    }

    fn insert<const N: usize>(&mut self, data: [u8; N]) -> (r: CodecResult<()>)
        ensures
            r is Ok ==> final(*old(self))@ == data@ + final(*final(self))@,
            r is Ok ==> (*final(self))@ == (*old(self))@.skip(data@.len() as int),
            r is Err ==> *final(self) == *old(self),
    {
        insert_impl(self, data.as_slice())
    }

    fn insert_varint(&mut self, data: u64) -> (r: CodecResult<()>)
        ensures
            r is Ok ==> final(*old(self))@ == varint::spec_encode(data) + final(*final(self))@,
            r is Ok ==> (*final(self))@ == (*old(self))@.skip(varint::spec_size(data) as int),
            r is Err ==> *final(self) == *old(self),
    {
        let mut buf = [0u8; 9];
        let len = varint::encode(&mut buf, data);
        insert_impl(self, vstd::slice::slice_subrange(buf.as_slice(), 0, len))
    }

    fn insert_u8(&mut self, data: u8) -> (r: CodecResult<()>)
        ensures
            r is Ok ==> final(*old(self))@ == seq![data] + final(*final(self))@,
            r is Ok ==> (*final(self))@ == (*old(self))@.skip(1),
            r is Err ==> *final(self) == *old(self),
    {
        let a = [data];
        assert(a@ =~= seq![data]);
        self.insert(a)
    }

    fn insert_u16(&mut self, data: u16) -> (r: CodecResult<()>)
        ensures
            r is Ok ==> final(*old(self))@ == spec_u16_to_le(data) + final(*final(self))@,
            r is Ok ==> (*final(self))@ == (*old(self))@.skip(2),
            r is Err ==> *final(self) == *old(self),
    {
        self.insert(u16_to_le(data))
    }

    fn insert_u32(&mut self, data: u32) -> (r: CodecResult<()>)
        ensures
            r is Ok ==> final(*old(self))@ == spec_u32_to_le(data) + final(*final(self))@,
            r is Ok ==> (*final(self))@ == (*old(self))@.skip(4),
            r is Err ==> *final(self) == *old(self),
    {
        self.insert(u32_to_le(data))
    }

    fn insert_u64(&mut self, data: u64) -> (r: CodecResult<()>)
        ensures
            r is Ok ==> final(*old(self))@ == spec_u64_to_le(data) + final(*final(self))@,
            r is Ok ==> (*final(self))@ == (*old(self))@.skip(8),
            r is Err ==> *final(self) == *old(self),
    {
        self.insert(u64_to_le(data))
    }
}

/// Taking bytes off the front of a byte slice.
pub trait TakeExt {
    /// The bytes that have not been taken yet.
    spec fn rest(&self) -> Seq<u8>;

    /// The next `len` bytes, or `None` where fewer are left.
    fn take_slice(&mut self, len: usize) -> (r: Option<&[u8]>)
        ensures
            match r {
                Some(out) => {
                    &&& len <= old(self).rest().len()
                    &&& out@ == old(self).rest().take(len as int)
                    &&& final(self).rest() == old(self).rest().skip(len as int)
                },
                None => len > old(self).rest().len() && final(self).rest() == old(self).rest(),
            },
    ;

    /// The next `N` bytes, or `None` where fewer are left.
    fn take_chunk<const N: usize>(&mut self) -> (r: Option<[u8; N]>)
        ensures
            match r {
                Some(out) => {
                    &&& N <= old(self).rest().len()
                    &&& out@ == old(self).rest().take(N as int)
                    &&& final(self).rest() == old(self).rest().skip(N as int)
                },
                None => N > old(self).rest().len() && final(self).rest() == old(self).rest(),
            },
    ;
}

impl<'a> TakeExt for &'a [u8] {
    open spec fn rest(&self) -> Seq<u8> {
        (*self)@
    }

    fn take_slice(&mut self, len: usize) -> (r: Option<&[u8]>) {
        match extract_impl(self, len) {
            Ok(out) => Some(out),
            Err(_) => None,
        }
    }

    fn take_chunk<const N: usize>(&mut self) -> (r: Option<[u8; N]>) {
        match extract_impl(self, N) {
            Ok(out) => Some(array_from::<N>(out)),
            Err(_) => None,
        }
    }
}

/// The sum of a count and a number of bytes, held at the largest count
/// where it would pass it.
pub open spec fn spec_counted(count: usize, n: nat) -> usize {
    if count + n > usize::MAX {
        usize::MAX
    } else {
        (count + n) as usize
    }
}

/// A stream that counts the bytes that pass through it.
pub struct IoCounter<T> {
    pub(crate) inner: T,
    pub(crate) bytes: usize,
}

impl<T> IoCounter<T> {
    /// The stream that is counted.
    pub open(crate) spec fn spec_inner(&self) -> T {
        self.inner
    }

    /// The number of bytes that have passed.
    pub open(crate) spec fn spec_count(&self) -> usize {
        self.bytes
    }

    pub fn new(inner: T) -> (c: Self)
        ensures
            c.spec_inner() == inner,
            c.spec_count() == 0,
    {
        IoCounter { inner, bytes: 0 }
    }

    pub fn count(&self) -> (n: usize)
        ensures
            n == self.spec_count(),
    {
        self.bytes
    }

    pub fn into_inner(self) -> (inner: T)
        ensures
            inner == self.spec_inner(),
    {
        self.inner
    }
}

impl<T: ByteStream> ByteStream for IoCounter<T> {
    open spec fn remaining(&self) -> Seq<u8> {
        self.spec_inner().remaining()
    }

    fn available(&self) -> (n: usize) {
        self.inner.available()
    }

    fn extract<const N: usize>(&mut self) -> (r: CodecResult<[u8; N]>)
        ensures
            final(self).spec_count() == (if r is Ok {
                spec_counted(old(self).spec_count(), N as nat)
            } else {
                old(self).spec_count()
            }),
    {
        let r = self.inner.extract::<N>();
        if r.is_ok() {
            self.bytes = self.bytes.saturating_add(N);
        }
        r
    }

    fn extract_varint(&mut self) -> (r: CodecResult<u64>)
        ensures
            final(self).spec_count() == (if r is Ok {
                spec_counted(
                    old(self).spec_count(),
                    varint::spec_len(old(self).remaining()[0]),
                )
            } else {
                old(self).spec_count()
            }),
    {
        let before = self.inner.available();
        let r = self.inner.extract_varint();
        if r.is_ok() {
            let after = self.inner.available();
            self.bytes = self.bytes.saturating_add(before - after);
        }
        r
    }

    fn skip(&mut self, len: usize) -> (r: CodecResult<()>)
        ensures
            final(self).spec_count() == (if r is Ok {
                spec_counted(old(self).spec_count(), len as nat)
            } else {
                old(self).spec_count()
            }),
    {
        let r = self.inner.skip(len);
        if r.is_ok() {
            self.bytes = self.bytes.saturating_add(len);
        }
        r
    }
}

impl<T: MutByteStream> MutByteStream for IoCounter<T> {
    open spec fn space(&self) -> nat {
        self.spec_inner().space()
    }

    fn insert_checked(&mut self, data: &[u8]) -> (r: Result<(), usize>)
        ensures
            final(self).spec_count() == (if r is Ok {
                spec_counted(old(self).spec_count(), data@.len())
            } else {
                old(self).spec_count()
            }),
    {
        let r = self.inner.insert_checked(data);
        if r.is_ok() {
            self.bytes = self.bytes.saturating_add(data.len());
        }
        r
    }

    fn insert_slice(&mut self, data: &[u8])
        ensures
            final(self).spec_count() == spec_counted(old(self).spec_count(), data@.len()),
    {
        self.inner.insert_slice(data);
        self.bytes = self.bytes.saturating_add(data.len());
    }

    fn insert_array_checked<const N: usize>(&mut self, data: [u8; N]) -> (r: Result<(), usize>)
        ensures
            final(self).spec_count() == (if r is Ok {
                spec_counted(old(self).spec_count(), N as nat)
            } else {
                old(self).spec_count()
            }),
    {
        let r = self.inner.insert_array_checked(data);
        if r.is_ok() {
            self.bytes = self.bytes.saturating_add(N);
        }
        r
    }

    fn insert<const N: usize>(&mut self, data: [u8; N]) -> (r: CodecResult<()>)
        ensures
            final(self).spec_count() == (if r is Ok {
                spec_counted(old(self).spec_count(), N as nat)
            } else {
                old(self).spec_count()
            }),
    {
        let r = self.inner.insert(data);
        if r.is_ok() {
            self.bytes = self.bytes.saturating_add(N);
        }
        r
    }

    fn insert_varint(&mut self, data: u64) -> (r: CodecResult<()>)
        ensures
            final(self).spec_count() == (if r is Ok {
                spec_counted(old(self).spec_count(), varint::spec_size(data))
            } else {
                old(self).spec_count()
            }),
    {
        let r = self.inner.insert_varint(data);
        if r.is_ok() {
            self.bytes = self.bytes.saturating_add(varint::size(data));
        }
        r
    }
}

} // verus!
