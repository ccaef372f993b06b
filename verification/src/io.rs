//! Record sub-streams: the bounded handles through which one payload is read
//! or written, and the varint as a value.
//!
//! A `RecordChunk` never delivers bytes past the end of its payload. A
//! `RecordSink` clips what is written past the declared length and, when it
//! is finished, pads what is missing with zero bytes and closes the frame
//! with the guard byte. Both borrow the state of their stream, so nothing
//! else can touch the stream while one of them is alive; the stream's owner
//! completes a frame whose handle was let go early.
use crate::error::{CodecError, CodecResult, IoKind};
use crate::stream::{array_from, ByteStream, MutByteStream};
use crate::varint;
use vstd::prelude::*;

verus! {

/// The guard byte that follows every payload.
pub const GUARD: u8 = 0x00;

/// A varint in its encoded form, in a buffer of the longest length.
#[derive(Debug, Clone, Copy, PartialEq, Eq)]
pub struct PVarint(pub(crate) [u8; 9]);

impl View for PVarint {
    type V = Seq<u8>;

    open(crate) spec fn view(&self) -> Seq<u8> {
        self.0@
    }
}

impl PVarint {
    /// The length of the encoding in the buffer, which its tag tells.
    pub open spec fn spec_len(&self) -> nat {
        varint::spec_len(self@[0])
    }

    /// The value that the buffer encodes.
    pub open spec fn spec_value(&self) -> u64 {
        varint::spec_decode(self@)
    }

    #[must_use]
    pub fn new(data: [u8; 9]) -> (pv: Self)
        ensures
            pv@ == data@,
    {
        PVarint(data)
    }

    #[must_use]
    pub fn encode(val: u64) -> (pv: Self)
        ensures
            pv@.len() == 9,
            pv@.take(varint::spec_size(val) as int) == varint::spec_encode(val),
            forall|i: int| varint::spec_size(val) <= i < 9 ==> pv@[i] == 0,
            pv.spec_len() == varint::spec_size(val),
            pv.spec_value() == val,
    {
        let buf = varint::to_le_bytes(val);
        proof {
            varint::lemma_roundtrip(val);
            let n = varint::spec_size(val) as int;
            assert(buf@.take(n)[0] == buf@[0]);
            varint::lemma_decode_prefix(buf@, varint::spec_encode(val));
        }
        PVarint(buf)
    }

    #[must_use]
    pub fn decode(&self) -> (v: u64)
        ensures
            v == self.spec_value(),
    {
        varint::from_le_bytes(self.0.as_slice())
    }

    /// The value that the buffer encodes.
    #[must_use]
    pub fn get(&self) -> (v: u64)
        ensures
            v == self.spec_value(),
    {
        self.decode()
    }

    /// The bytes of the encoding, without the unused rest of the buffer.
    #[must_use]
    pub fn as_slice(&self) -> (s: &[u8])
        ensures
            s@ == self@.take(self.spec_len() as int),
    {
        let len = self.len();
        vstd::slice::slice_subrange(self.0.as_slice(), 0, len)
    }

    #[must_use]
    pub fn len(&self) -> (n: usize)
        ensures
            n == self.spec_len(),
            1 <= n <= 9,
    {
        Self::len_from_tag(self.0[0])
    }

    #[must_use]
    pub fn len_from_tag(tag: u8) -> (n: usize)
        ensures
            n == varint::spec_len(tag),
            1 <= n <= 9,
    {
        varint::len(tag)
    }
}

impl From<PVarint> for u64 {
    fn from(pv: PVarint) -> (v: Self) {
        pv.decode()
    }
}

impl vstd::std_specs::convert::FromSpecImpl<PVarint> for u64 {
    open spec fn obeys_from_spec() -> bool {
        true
    }

    open spec fn from_spec(pv: PVarint) -> Self {
        pv.spec_value()
    }
}

/// The smaller of a byte count and a limit.
pub open spec fn spec_clip(n: nat, limit: u64) -> nat {
    if n <= limit {
        n
    } else {
        limit as nat
    }
}

/// The smaller of a byte count and a limit.
pub fn clip(n: usize, limit: u64) -> (k: usize)
    ensures
        k == spec_clip(n as nat, limit),
{
    if limit >= usize::MAX as u64 || n as u64 <= limit {
        n
    } else {
        limit as usize
    }
}

/// A byte source under a limit, as a value.
pub struct BoundedReaderView {
    /// The bytes of the stream that have not been read.
    pub remaining: Seq<u8>,
    /// The number of bytes that may still be read.
    pub limit: u64,
}

impl BoundedReaderView {
    /// The bytes that can still be delivered: those of the stream, up to
    /// the limit.
    pub open spec fn visible(self) -> Seq<u8> {
        self.remaining.take(spec_clip(self.remaining.len(), self.limit) as int)
    }

    /// The source after `k` of its visible bytes were read.
    pub open spec fn advance(self, k: nat) -> Self {
        BoundedReaderView {
            remaining: self.remaining.skip(k as int),
            limit: (self.limit - k) as u64,
        }
    }
}

/// Reading `k` of the visible bytes leaves the visible bytes behind them;
/// reading none changes nothing.
pub proof fn lemma_advance(v: BoundedReaderView, k: nat)
    requires
        k <= v.visible().len(),
    ensures
        v.advance(k).visible() == v.visible().skip(k as int),
        v.advance(0) == v,
{
    assert(v.advance(k).visible() =~= v.visible().skip(k as int));
    assert(v.remaining.skip(0) =~= v.remaining);
}

/// Reading twice is reading once what both reads took.
pub proof fn lemma_advance_twice(v: BoundedReaderView, a: nat, b: nat)
    requires
        a + b <= v.visible().len(),
    ensures
        v.advance(a).advance(b) == v.advance(a + b),
{
    assert(v.remaining.skip(a as int).skip(b as int) =~= v.remaining.skip((a + b) as int));
}

/// A byte source under a limit: a cursor into the stream and the number of
/// payload bytes that may still be read from it.
pub struct BoundedReader<'a> {
    pub(crate) rdr: &'a [u8],
    pub(crate) limit: u64,
}

impl<'a> View for BoundedReader<'a> {
    type V = BoundedReaderView;

    open(crate) spec fn view(&self) -> BoundedReaderView {
        BoundedReaderView { remaining: self.rdr@, limit: self.limit }
    }
}

impl<'a> BoundedReader<'a> {
    pub fn new(rdr: &'a [u8], limit: u64) -> (b: Self)
        ensures
            b@ == (BoundedReaderView { remaining: rdr@, limit }),
    {
        BoundedReader { rdr, limit }
    }

    #[must_use]
    pub fn limit(&self) -> (n: u64)
        ensures
            n == self@.limit,
    {
        self.limit
    }

    /// The stream behind the limit, at its present position.
    #[must_use]
    pub fn into_inner(self) -> (rdr: &'a [u8])
        ensures
            rdr@ == self@.remaining,
    {
        self.rdr
    }

    /// The number of bytes that can still be delivered.
    #[must_use]
    pub fn available(&self) -> (k: usize)
        ensures
            k == self@.visible().len(),
            k == spec_clip(self@.remaining.len(), self@.limit),
    {
        clip(self.rdr.len(), self.limit)
    }

    /// Delivers the next bytes: `n` of them, or as many as the limit and
    /// the stream still allow.
    pub fn read(&mut self, n: usize) -> (out: &'a [u8])
        ensures
            out@ == old(self)@.visible().take(out@.len() as int),
            out@.len() == spec_clip(n as nat, old(self)@.visible().len() as u64),
            final(self)@ == old(self)@.advance(out@.len()),
    {
        let avail = self.available();
        let k = if n <= avail {
            n
        } else {
            avail
        };
        let (out, rem) = self.rdr.split_at(k);
        self.rdr = rem;
        self.limit = self.limit - k as u64;
        assert(out@ =~= old(self)@.visible().take(k as int));
        out
    }

    /// Reads and discards what the limit and the stream still allow.
    /// Returns the number of bytes discarded.
    pub fn drain(&mut self) -> (k: usize)
        ensures
            k == old(self)@.visible().len(),
            final(self)@ == old(self)@.advance(k as nat),
    {
        let avail = self.available();
        let out = self.read(avail);
        out.len()
    }
}

/// The bounded reader of one record's payload.
///
/// It holds the stream of its reader exclusively and delivers at most the
/// payload's bytes. What it leaves unread is discarded when the frame is
/// completed.
pub struct RecordChunk<'r, 'a>(pub &'r mut BoundedReader<'a>);

impl<'r, 'a> RecordChunk<'r, 'a> {
    /// The source as it stands.
    pub open spec fn now(&self) -> BoundedReaderView {
        (*self.0)@
    }

    pub fn new(src: &'r mut BoundedReader<'a>) -> (chunk: Self)
        ensures
            *chunk.0 == *old(src),
            *final(chunk.0) == *final(src),
    {
        RecordChunk(src)
    }

    /// The number of payload bytes that have not been read.
    #[must_use]
    pub fn len(&self) -> (n: u64)
        ensures
            n == self.now().limit,
    {
        self.0.limit()
    }

    #[must_use]
    pub fn is_empty(&self) -> (b: bool)
        ensures
            b == (self.now().limit == 0),
    {
        self.0.limit() == 0
    }

    /// Delivers the next bytes of the payload: `n` of them, or as many as
    /// are left of the payload and of the stream.
    pub fn read(&mut self, n: usize) -> (out: &'a [u8])
        ensures
            out@ == old(self).now().visible().take(out@.len() as int),
            out@.len() == spec_clip(n as nat, old(self).now().visible().len() as u64),
            final(self).now() == old(self).now().advance(out@.len()),
            *final(final(self).0) == *final(old(self).0),
    {
        self.0.read(n)
    }

    /// Delivers all that is left of the payload.
    pub fn read_to_end(&mut self) -> (out: &'a [u8])
        ensures
            out@ == old(self).now().visible(),
            final(self).now() == old(self).now().advance(out@.len()),
            *final(final(self).0) == *final(old(self).0),
    {
        let avail = self.0.available();
        self.0.read(avail)
    }

    /// Discards what is left of the payload, so that the stream stands at
    /// the frame's guard byte.
    pub fn drain(&mut self) -> (r: Result<(), IoKind>)
        ensures
            r is Ok,
            final(self).now() == old(self).now().advance(old(self).now().visible().len()),
            *final(final(self).0) == *final(old(self).0),
    {
        let _ = self.0.drain();
        Ok(())
    }
}

impl<'r, 'a> ByteStream for RecordChunk<'r, 'a> {
    open spec fn remaining(&self) -> Seq<u8> {
        self.now().visible()
    }

    fn available(&self) -> (n: usize) {
        self.0.available()
    }

    fn extract<const N: usize>(&mut self) -> (r: CodecResult<[u8; N]>)
        ensures
            r is Ok ==> final(self).now() == old(self).now().advance(N as nat),
            r is Err ==> final(self).now() == old(self).now(),
            *final(final(self).0) == *final(old(self).0),
    {
        let avail = self.0.available();
        if N <= avail {
            let out = self.0.read(N);
            assert(final(self).now().visible() =~= old(self).now().visible().skip(N as int));
            Ok(array_from::<N>(out))
        } else {
            Err(CodecError::Needed(N - avail))
        }
    }

    fn extract_varint(&mut self) -> (r: CodecResult<u64>)
        ensures
            r is Ok ==> final(self).now() == old(self).now().advance(
                varint::spec_len(old(self).now().visible()[0]),
            ),
            r is Err ==> final(self).now() == old(self).now(),
            *final(final(self).0) == *final(old(self).0),
    {
        let avail = self.0.available();
        if avail == 0 {
            return Err(CodecError::Needed(1));
        }
        let n = varint::len(self.0.rdr[0]);
        if n <= avail {
            let out = self.0.read(n);
            proof {
                varint::lemma_decode_prefix(old(self).now().visible(), out@);
                assert(final(self).now().visible() =~= old(self).now().visible().skip(n as int));
            }
            Ok(varint::decode(out))
        } else {
            Err(CodecError::Needed(n - avail))
        }
    }

    fn skip(&mut self, len: usize) -> (r: CodecResult<()>)
        ensures
            r is Ok ==> final(self).now() == old(self).now().advance(len as nat),
            r is Err ==> final(self).now() == old(self).now(),
            *final(final(self).0) == *final(old(self).0),
    {
        let avail = self.0.available();
        if len <= avail {
            let _ = self.0.read(len);
            assert(final(self).now().visible() =~= old(self).now().visible().skip(len as int));
            Ok(())
        } else {
            Err(CodecError::Needed(len - avail))
        }
    }
}

/// A byte sink under a limit, as a value.
pub struct BoundedWriterView {
    /// The bytes written so far.
    pub written: Seq<u8>,
    /// The number of payload bytes that the open frame still owes.
    pub limit: u64,
    /// Whether a frame is open: its guard byte has not been written.
    pub open: bool,
}

impl BoundedWriterView {
    /// What has been written once the open frame is completed: the payload
    /// bytes that are missing as zero bytes, then the guard byte.
    pub open spec fn closed(self) -> Seq<u8> {
        if self.open {
            self.written + Seq::new(self.limit as nat, |i: int| 0u8) + seq![GUARD]
        } else {
            self.written
        }
    }
}

/// A byte sink under a limit: the bytes of the stream written so far and
/// what the frame that is open still owes.
pub struct BoundedWriter {
    pub(crate) wtr: Vec<u8>,
    pub(crate) limit: u64,
    pub(crate) open: bool,
}

impl View for BoundedWriter {
    type V = BoundedWriterView;

    open(crate) spec fn view(&self) -> BoundedWriterView {
        BoundedWriterView { written: self.wtr@, limit: self.limit, open: self.open }
    }
}

impl BoundedWriter {
    /// A sink that appends to `wtr`, with no frame open.
    pub fn new(wtr: Vec<u8>) -> (b: Self)
        ensures
            b@ == (BoundedWriterView { written: wtr@, limit: 0, open: false }),
    {
        BoundedWriter { wtr, limit: 0, open: false }
    }

    /// The bytes written so far.
    #[must_use]
    pub fn into_inner(self) -> (wtr: Vec<u8>)
        ensures
            wtr@ == self@.written,
    {
        self.wtr
    }

    /// The bytes written so far.
    #[must_use]
    pub fn as_bytes(&self) -> (s: &[u8])
        ensures
            s@ == self@.written,
    {
        self.wtr.as_slice()
    }

    /// Opens a frame whose payload has `limit` bytes. A frame that is still
    /// open is completed first.
    pub fn begin(&mut self, limit: u64)
        ensures
            final(self)@ == (BoundedWriterView {
                written: old(self)@.closed(),
                limit,
                open: true,
            }),
    {
        let _ = self.finish();
        self.limit = limit;
        self.open = true;
    }

    /// Appends bytes outside any payload. A frame that is still open is
    /// completed first.
    pub fn put(&mut self, data: &[u8])
        ensures
            final(self)@ == (BoundedWriterView {
                written: old(self)@.closed() + data@,
                limit: 0,
                open: false,
            }),
    {
        let _ = self.finish();
        push_all(&mut self.wtr, data);
    }

    /// Appends payload bytes of the open frame, clipped to what the frame
    /// still owes. Returns the number of bytes appended.
    pub fn write(&mut self, buf: &[u8]) -> (n: usize)
        ensures
            n == spec_clip(buf@.len(), old(self)@.limit),
            final(self)@ == (BoundedWriterView {
                written: old(self)@.written + buf@.take(n as int),
                limit: (old(self)@.limit - n) as u64,
                open: old(self)@.open,
            }),
    {
        let n = clip(buf.len(), self.limit);
        push_all(&mut self.wtr, vstd::slice::slice_subrange(buf, 0, n));
        self.limit = self.limit - n as u64;
        n
    }

    /// Completes the open frame: pads the payload bytes that are missing
    /// with zero bytes and writes the guard byte. Returns the number of
    /// padding bytes. Without an open frame nothing is written.
    pub fn finish(&mut self) -> (blanked: u64)
        ensures
            blanked == (if old(self)@.open {
                old(self)@.limit
            } else {
                0
            }),
            final(self)@ == (BoundedWriterView {
                written: old(self)@.closed(),
                limit: 0,
                open: false,
            }),
    {
        if !self.open {
            self.limit = 0;
            return 0;
        }
        let blanked = self.limit;
        let mut left = self.limit;
        while left > 0
            invariant
                left <= blanked,
                self.wtr@ == old(self)@.written + Seq::new(
                    (blanked - left) as nat,
                    |i: int| 0u8,
                ),
            decreases left,
        {
            self.wtr.push(0);
            left = left - 1;
            assert(self.wtr@ =~= old(self)@.written + Seq::new(
                (blanked - left) as nat,
                |i: int| 0u8,
            ));
        }
        self.wtr.push(GUARD);
        self.limit = 0;
        self.open = false;
        assert(self.wtr@ =~= old(self)@.closed());
        blanked
    }
}

/// Appends all bytes of `data` to `out`.
pub fn push_all(out: &mut Vec<u8>, data: &[u8])
    ensures
        final(out)@ == old(out)@ + data@,
{
    let mut i: usize = 0;
    while i < data.len()
        invariant
            i <= data.len(),
            out@ == old(out)@ + data@.take(i as int),
        decreases data.len() - i,
    {
        out.push(data[i]);
        i = i + 1;
        assert(out@ =~= old(out)@ + data@.take(i as int));
    }
    assert(data@.take(data.len() as int) =~= data@);
}

/// The bounded writer of one record's payload.
///
/// It holds the sink of its writer exclusively. Bytes past the declared
/// length are clipped; `finish` pads what is missing and writes the guard.
pub struct RecordSink<'r>(pub &'r mut BoundedWriter);

impl<'r> RecordSink<'r> {
    /// The sink as it stands.
    pub open spec fn now(&self) -> BoundedWriterView {
        (*self.0)@
    }

    pub fn new(dst: &'r mut BoundedWriter) -> (sink: Self)
        ensures
            *sink.0 == *old(dst),
            *final(sink.0) == *final(dst),
    {
        RecordSink(dst)
    }

    /// The number of payload bytes that are still owed.
    #[must_use]
    pub fn limit(&self) -> (n: u64)
        ensures
            n == self.now().limit,
    {
        self.0.limit
    }

    #[must_use]
    pub fn is_finished(&self) -> (b: bool)
        ensures
            b == (self.now().limit == 0),
    {
        self.0.limit == 0
    }

    /// Writes payload bytes, clipped to what is still owed. Returns the
    /// number of bytes written.
    pub fn write(&mut self, buf: &[u8]) -> (n: usize)
        ensures
            n == spec_clip(buf@.len(), old(self).now().limit),
            final(self).now() == (BoundedWriterView {
                written: old(self).now().written + buf@.take(n as int),
                limit: (old(self).now().limit - n) as u64,
                open: old(self).now().open,
            }),
            *final(final(self).0) == *final(old(self).0),
    {
        self.0.write(buf)
    }

    /// Completes the frame: exactly the payload bytes that were not written
    /// are padded with zero bytes, then one guard byte is written. Returns
    /// the number of padding bytes.
    pub fn finish(self) -> (r: Result<u64, IoKind>)
        ensures
            r == Ok::<u64, IoKind>(
                if self.now().open {
                    self.now().limit
                } else {
                    0
                },
            ),
            final(self.0)@ == (BoundedWriterView {
                written: self.now().closed(),
                limit: 0,
                open: false,
            }),
    {
        Ok(self.0.finish())
    }
}

impl<'r> MutByteStream for RecordSink<'r> {
    open spec fn space(&self) -> nat {
        self.now().limit as nat
    }

    fn insert_checked(&mut self, data: &[u8]) -> (r: Result<(), usize>)
        ensures
            r is Ok ==> final(self).now().written == old(self).now().written + data@,
            r is Err ==> final(self).now() == old(self).now(),
            final(self).now().open == old(self).now().open,
            *final(final(self).0) == *final(old(self).0),
    {
        if data.len() as u64 <= self.0.limit {
            let n = self.0.write(data);
            assert(data@.take(n as int) =~= data@);
            Ok(())
        } else {
            Err(data.len() - self.0.limit as usize)
        }
    }

    fn insert_slice(&mut self, data: &[u8])
        ensures
            final(self).now().written == old(self).now().written + data@,
            final(self).now().open == old(self).now().open,
            *final(final(self).0) == *final(old(self).0),
    {
        let n = self.0.write(data);
        assert(data@.take(n as int) =~= data@);
    }

    fn insert_array_checked<const N: usize>(&mut self, data: [u8; N]) -> (r: Result<(), usize>)
        ensures
            r is Ok ==> final(self).now().written == old(self).now().written + data@,
            r is Err ==> final(self).now() == old(self).now(),
            final(self).now().open == old(self).now().open,
            *final(final(self).0) == *final(old(self).0),
    {
        self.insert_checked(data.as_slice())
    }

    fn insert<const N: usize>(&mut self, data: [u8; N]) -> (r: CodecResult<()>)
        ensures
            r is Ok ==> final(self).now().written == old(self).now().written + data@,
            r is Err ==> final(self).now() == old(self).now(),
            final(self).now().open == old(self).now().open,
            *final(final(self).0) == *final(old(self).0),
    {
        match self.insert_checked(data.as_slice()) {
            Ok(_) => Ok(()),
            Err(n) => Err(CodecError::Needed(n)),
        }
    }

    fn insert_varint(&mut self, data: u64) -> (r: CodecResult<()>)
        ensures
            r is Ok ==> final(self).now().written == old(self).now().written + varint::spec_encode(
                data,
            ),
            r is Err ==> final(self).now() == old(self).now(),
            final(self).now().open == old(self).now().open,
            *final(final(self).0) == *final(old(self).0),
    {
        let mut buf = [0u8; 9];
        let len = varint::encode(&mut buf, data);
        match self.insert_checked(vstd::slice::slice_subrange(buf.as_slice(), 0, len)) {
            Ok(_) => Ok(()),
            Err(n) => Err(CodecError::Needed(n)),
        }
    }
}

/// A record whose encoded payload length is known without encoding it.
pub trait SizedRecord<S> {
    /// The length of the record's payload. An implementation says what it
    /// is; where it says nothing, nothing is known of it.
    open spec fn spec_encoded_len(&self, ser: &S) -> usize {
        arbitrary()
    }

    fn encoded_len(&self, ser: &S) -> (n: usize)
        ensures
            n == self.spec_encoded_len(ser),
    ;
}

} // verus!
