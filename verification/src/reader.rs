//! The stream reader: a state machine that yields one record after the
//! other, each with a bounded reader for its payload.
//!
//! ```text
//! Uninitialised -- read header --> Active -- read EOS --> Finished
//! ```
//!
//! The reader keeps the stack of containers that are still owed children.
//! A record's ancestors are the containers on that stack when the record
//! arrives; at the end of the stream there are none. The frame of a record
//! is completed when the next record is asked for: what is left of the
//! payload is discarded and the guard byte is checked.
use crate::codec::{
    read_header, spec_header_ok, spec_magic, AnyDeserialiser, DesOptions, RawDeserialiser,
    UnknownSerdes,
};
use crate::endian::spec_u16_from_le;
use crate::error::{IoError, IoKind, ParserError};
use crate::io::{spec_clip, BoundedReader, BoundedReaderView, RecordChunk, GUARD};
use crate::nesting::{child_done, ids_of, innermost_first, spec_ids, spec_update};
use crate::stream::{extract_impl, ByteStream};
use crate::{Header, RecordId, RecordMeta, CURRENT_VERSION};
use vstd::prelude::*;

verus! {

/// The state of a reader, as a value.
pub struct ReaderView {
    /// The bytes of the stream that have not been read.
    pub remaining: Seq<u8>,
    /// The payload bytes of the open frame that have not been read.
    pub pending: u64,
    /// Whether a frame is open: its guard byte has not been consumed.
    pub in_frame: bool,
    /// Whether the stream has ended, by its marker or by a protocol error.
    pub finished: bool,
    /// The containers that are still owed children, outermost first, each
    /// with the number of children it is owed.
    pub open: Seq<(u16, RecordId)>,
    /// The ancestors of the record that was read last, outermost first;
    /// none once the end of the stream was read.
    pub ancestors: Seq<RecordId>,
}

/// A reader's state after an operation, and what the operation gave.
pub struct ReadStep {
    pub next: ReaderView,
    pub result: Result<Option<RecordId>, IoError<ParserError>>,
}

impl ReaderView {
    /// The state after a protocol error: the reader is terminal.
    pub open spec fn failed(self, remaining: Seq<u8>, pending: u64, e: ParserError) -> ReadStep {
        ReadStep {
            next: ReaderView { remaining, pending, finished: true, ..self },
            result: Err(IoError::Parser(e)),
        }
    }

    /// The state after a failure of the stream.
    pub open spec fn short(self, remaining: Seq<u8>, pending: u64, k: IoKind) -> ReadStep {
        ReadStep { next: ReaderView { remaining, pending, ..self }, result: Err(IoError::Io(k)) }
    }

    /// Completing the open frame: what is left of the payload is discarded,
    /// then the guard byte is consumed and checked. `Ok(None)` stands for a
    /// completed frame.
    pub open spec fn close_frame(self) -> ReadStep {
        if !self.in_frame {
            ReadStep { next: self, result: Ok(None) }
        } else {
            let k = spec_clip(self.remaining.len(), self.pending);
            let rest = self.remaining.skip(k as int);
            let owed = (self.pending - k) as u64;
            if owed > 0 {
                self.short(
                    rest,
                    owed,
                    IoKind::UnexpectedEof(spec_clip(usize::MAX as nat, owed) as usize),
                )
            } else if rest.len() == 0 {
                self.short(rest, 0, IoKind::UnexpectedEof(1))
            } else if rest[0] != GUARD {
                ReaderView { in_frame: false, ..self }.failed(
                    rest.skip(1),
                    0,
                    ParserError::Guard(rest[0]),
                )
            } else {
                ReadStep {
                    next: ReaderView {
                        remaining: rest.skip(1),
                        pending: 0,
                        in_frame: false,
                        ..self
                    },
                    result: Ok(None),
                }
            }
        }
    }

    /// Reading the next record with the deserialiser `des`, from a state in
    /// which no frame is open.
    pub open spec fn read_meta<D: RawDeserialiser>(self, des: D) -> ReadStep {
        let (r, rest) = des.spec_read_meta(self.remaining);
        match r {
            Err(IoError::Io(k)) => self.short(rest, self.pending, k),
            Err(IoError::Parser(e)) => self.failed(rest, self.pending, e),
            Ok(meta) => if meta.spec_is_eos() {
                if self.open.len() > 0 {
                    self.failed(rest, self.pending, ParserError::UnexpectedEos)
                } else {
                    ReadStep {
                        next: ReaderView {
                            remaining: rest,
                            finished: true,
                            ancestors: Seq::empty(),
                            ..self
                        },
                        result: Ok(None),
                    }
                }
            } else {
                ReadStep {
                    next: ReaderView {
                        remaining: rest,
                        pending: meta.length,
                        in_frame: true,
                        finished: false,
                        open: spec_update(self.open, meta),
                        ancestors: spec_ids(self.open),
                    },
                    result: Ok(Some(RecordId { source_id: meta.source_id, type_id: meta.type_id })),
                }
            },
        }
    }

    /// One `read_record`: on a finished stream it fails; else the open frame
    /// is completed and the next record is read.
    pub open spec fn read_record<D: RawDeserialiser>(self, des: D) -> ReadStep {
        if self.finished {
            ReadStep { next: self, result: Err(IoError::Parser(ParserError::IsEos)) }
        } else {
            let closed = self.close_frame();
            if closed.result is Err {
                closed
            } else {
                closed.next.read_meta(des)
            }
        }
    }
}

/// Builds a reader for a framing version.
#[derive(Debug, Clone, Copy, PartialEq, Eq, Structural)]
pub struct MsrfReaderBuilder {
    pub version: Option<u16>,
}

impl Default for MsrfReaderBuilder {
    fn default() -> (b: Self)
        ensures
            b.version is None,
    {
        MsrfReaderBuilder { version: None }
    }
}

impl MsrfReaderBuilder {
    #[must_use]
    pub fn new() -> (b: Self)
        ensures
            b.version is None,
    {
        MsrfReaderBuilder { version: None }
    }

    #[must_use]
    pub fn version(self, version: u16) -> (b: MsrfReaderBuilder)
        ensures
            b.version == Some(version),
    {
        MsrfReaderBuilder { version: Some(version) }
    }

    /// A reader of the records of a stream in the builder's version, or in
    /// the current one where none was set. `None` for a version that has no
    /// codec.
    pub fn build<'a>(self, rdr: &'a [u8]) -> (r: Option<MsrfReader<'a, AnyDeserialiser>>)
        ensures
            r is Some <==> (self.version matches Some(v) ==> v <= CURRENT_VERSION),
            r matches Some(reader) ==> reader@ == MsrfReader::<AnyDeserialiser>::spec_fresh(rdr@)
                && reader.spec_des() == AnyDeserialiser::V0(
                crate::codec::v0::Deserialiser { options: DesOptions },
            ),
    {
        let version = match self.version {
            Some(v) => v,
            None => CURRENT_VERSION,
        };
        match AnyDeserialiser::new_default(version) {
            Some(des) => Some(MsrfReader::new(rdr, des)),
            None => None,
        }
    }

    /// A reader that begins at the header.
    pub fn build_with_unknown<'a>(self, rdr: &'a [u8]) -> (reader: MsrfReader<'a, UnknownSerdes>)
        ensures
            reader@ == MsrfReader::<UnknownSerdes>::spec_fresh(rdr@),
    {
        MsrfReader::new_unknown(rdr)
    }

    /// A reader of the records of a stream with a deserialiser of the
    /// caller's choice.
    pub fn build_with<'a, D: RawDeserialiser>(self, rdr: &'a [u8], des: D) -> (reader: MsrfReader<
        'a,
        D,
    >)
        ensures
            reader@ == MsrfReader::<D>::spec_fresh(rdr@),
            reader.spec_des() == des,
    {
        MsrfReader::new(rdr, des)
    }
}

/// A reader of a stream in memory.
pub struct MsrfReader<'a, D> {
    pub(crate) is_finished: bool,
    pub(crate) in_frame: bool,
    pub(crate) src: BoundedReader<'a>,
    pub(crate) des: D,
    pub(crate) depth: Vec<(u16, RecordId)>,
    pub(crate) parents: Vec<RecordId>,
}

impl<'a, D> View for MsrfReader<'a, D> {
    type V = ReaderView;

    open(crate) spec fn view(&self) -> ReaderView {
        ReaderView {
            remaining: self.src@.remaining,
            pending: self.src@.limit,
            in_frame: self.in_frame,
            finished: self.is_finished,
            open: self.depth@,
            ancestors: self.parents@,
        }
    }
}

impl<'a, D> MsrfReader<'a, D> {
    /// The deserialiser of this reader.
    pub open(crate) spec fn spec_des(&self) -> D {
        self.des
    }

    /// The state of a reader that has read nothing of the bytes `s`.
    pub open spec fn spec_fresh(s: Seq<u8>) -> ReaderView {
        ReaderView {
            remaining: s,
            pending: 0,
            in_frame: false,
            finished: false,
            open: Seq::empty(),
            ancestors: Seq::empty(),
        }
    }

    /// The innermost ancestor of the record that was read last, or `None`
    /// where that record is in no container or the end of the stream was
    /// read.
    pub fn current_parent(&self) -> (p: Option<RecordId>)
        ensures
            p == (if self@.ancestors.len() > 0 {
                Some(self@.ancestors.last())
            } else {
                None
            }),
    {
        if self.parents.len() > 0 {
            Some(self.parents[self.parents.len() - 1])
        } else {
            None
        }
    }

    /// The ancestors of the record that was read last, innermost first;
    /// none once the end of the stream was read.
    pub fn parents(&self) -> (p: Vec<RecordId>)
        ensures
            p@ == self@.ancestors.reverse(),
    {
        innermost_first(&self.parents)
    }

    /// The deserialiser of this reader.
    pub fn deserialiser(&self) -> (des: &D)
        ensures
            *des == self.spec_des(),
    {
        &self.des
    }

    /// Whether the stream has ended.
    pub fn is_finished(&self) -> (b: bool)
        ensures
            b == self@.finished,
    {
        self.is_finished
    }

    /// The stream, at its present position.
    pub fn into_inner(self) -> (rdr: &'a [u8])
        ensures
            rdr@ == self@.remaining,
    {
        self.src.into_inner()
    }
}

impl<'a> MsrfReader<'a, UnknownSerdes> {
    pub fn new_unknown(rdr: &'a [u8]) -> (reader: MsrfReader<'a, UnknownSerdes>)
        ensures
            reader@ == Self::spec_fresh(rdr@),
    {
        MsrfReader {
            is_finished: false,
            in_frame: false,
            src: BoundedReader::new(rdr, 0),
            des: UnknownSerdes,
            depth: Vec::new(),
            parents: Vec::new(),
        }
    }

    /// Reads and validates the header and gives the reader of the records
    /// behind it.
    ///
    /// A stream shorter than a header is a failure of the stream. Then the
    /// magic bytes are checked, then the guard byte, then the version.
    pub fn initialise(self) -> (r: Result<MsrfReader<'a, AnyDeserialiser>, IoError<ParserError>>)
        ensures
            match r {
                Ok(reader) => {
                    &&& self@.remaining.len() >= 7
                    &&& spec_header_ok(self@.remaining.take(7))
                    &&& spec_u16_from_le(self@.remaining.subrange(4, 6)) <= CURRENT_VERSION
                    &&& reader@ == Self::spec_fresh(self@.remaining.skip(7))
                    &&& reader.spec_des() == AnyDeserialiser::V0(
                        crate::codec::v0::Deserialiser { options: DesOptions },
                    )
                },
                Err(IoError::Io(k)) => self@.remaining.len() < 7 && k == IoKind::UnexpectedEof(
                    (7 - self@.remaining.len()) as usize,
                ),
                Err(IoError::Parser(ParserError::MagicBytes(found))) => {
                    &&& self@.remaining.len() >= 7
                    &&& self@.remaining.take(4) != spec_magic()
                    &&& found@ == self@.remaining.take(4)
                },
                Err(IoError::Parser(ParserError::Guard(g))) => {
                    &&& self@.remaining.len() >= 7
                    &&& self@.remaining.take(4) == spec_magic()
                    &&& g == self@.remaining[6]
                    &&& g != GUARD
                },
                Err(IoError::Parser(ParserError::Unsupported(v))) => {
                    &&& self@.remaining.len() >= 7
                    &&& spec_header_ok(self@.remaining.take(7))
                    &&& v == spec_u16_from_le(self@.remaining.subrange(4, 6))
                    &&& v > CURRENT_VERSION
                },
                Err(_) => false,
            },
    {
        let mut rdr = self.src.into_inner();
        let buf: [u8; 7] = match rdr.extract::<7>() {
            Ok(buf) => buf,
            Err(e) => return Err(IoError::Io(e.io_kind())),
        };
        proof {
            let s = self@.remaining;
            assert(s.take(7).take(4) =~= s.take(4));
            assert(s.take(7).subrange(4, 6) =~= s.subrange(4, 6));
        }
        let header = match read_header(&buf) {
            Ok(h) => h,
            Err(e) => return Err(IoError::Parser(e)),
        };
        match AnyDeserialiser::new_default(header.version) {
            Some(des) => Ok(MsrfReader::new(rdr, des)),
            None => Err(IoError::Parser(ParserError::Unsupported(header.version))),
        }
    }
}

impl<'a, D: RawDeserialiser> MsrfReader<'a, D> {
    pub fn new(rdr: &'a [u8], des: D) -> (reader: MsrfReader<'a, D>)
        ensures
            reader@ == Self::spec_fresh(rdr@),
            reader.spec_des() == des,
    {
        MsrfReader {
            is_finished: false,
            in_frame: false,
            src: BoundedReader::new(rdr, 0),
            des,
            depth: Vec::new(),
            parents: Vec::new(),
        }
    }

    /// Notes the ancestors of a record that has arrived and brings the
    /// container stack up to date with it.
    fn update(&mut self, meta: &RecordMeta)
        ensures
            final(self)@ == (ReaderView {
                open: spec_update(old(self)@.open, *meta),
                ancestors: spec_ids(old(self)@.open),
                ..old(self)@
            }),
            final(self).spec_des() == old(self).spec_des(),
    {
        self.parents = ids_of(&self.depth);
        match meta.contained() {
            Some(count) if count > 0 => {
                self.depth.push((count, RecordId::new(meta.source_id, meta.type_id)));
            },
            _ => {
                child_done(&mut self.depth);
            },
        }
    }

    /// Completes the open frame, if there is one.
    fn close_frame(&mut self) -> (r: Result<(), IoError<ParserError>>)
        ensures
            final(self)@ == old(self)@.close_frame().next,
            final(self).spec_des() == old(self).spec_des(),
            match r {
                Ok(_) => old(self)@.close_frame().result is Ok,
                Err(e) => old(self)@.close_frame().result == Err::<
                    Option<RecordId>,
                    IoError<ParserError>,
                >(e),
            },
    {
        if !self.in_frame {
            return Ok(());
        }
        let _ = self.src.drain();
        let owed = self.src.limit();
        if owed > 0 {
            return Err(IoError::Io(IoKind::UnexpectedEof(crate::io::clip(usize::MAX, owed))));
        }
        let guard = match self.src.rdr.extract_u8() {
            Ok(g) => g,
            Err(e) => return Err(IoError::Io(e.io_kind())),
        };
        self.in_frame = false;
        if guard != GUARD {
            self.is_finished = true;
            return Err(IoError::Parser(ParserError::Guard(guard)));
        }
        Ok(())
    }

    /// Reads the next record.
    ///
    /// Gives the record's identity and the bounded reader of its payload,
    /// or `None` at the end of the stream. The frame of the record before
    /// is completed first. An end-of-stream marker inside a container that
    /// is still owed children is an error; so is any call after the end of
    /// the stream. A protocol error ends the stream.
    pub fn read_record(&mut self) -> (r: Result<
        Option<(RecordId, RecordChunk<'_, 'a>)>,
        IoError<ParserError>,
    >)
        ensures
            final(self).spec_des() == old(self).spec_des(),
            match r {
                Ok(Some((id, chunk))) => {
                    let step = old(self)@.read_record(old(self).spec_des());
                    &&& step.result == Ok::<Option<RecordId>, IoError<ParserError>>(Some(id))
                    &&& chunk.now() == (BoundedReaderView {
                        remaining: step.next.remaining,
                        limit: step.next.pending,
                    })
                    &&& final(self)@ == (ReaderView {
                        remaining: final(chunk.0)@.remaining,
                        pending: final(chunk.0)@.limit,
                        ..step.next
                    })
                },
                Ok(None) => {
                    let step = old(self)@.read_record(old(self).spec_des());
                    &&& step.result == Ok::<Option<RecordId>, IoError<ParserError>>(None)
                    &&& final(self)@ == step.next
                },
                Err(e) => {
                    let step = old(self)@.read_record(old(self).spec_des());
                    &&& step.result == Err::<Option<RecordId>, IoError<ParserError>>(e)
                    &&& final(self)@ == step.next
                },
            },
    {
        if self.is_finished {
            return Err(IoError::Parser(ParserError::IsEos));
        }
        match self.close_frame() {
            Ok(_) => {},
            Err(e) => return Err(e),
        }
        let record = match self.des.read_meta(&mut self.src.rdr) {
            Ok(m) => m,
            Err(IoError::Io(k)) => return Err(IoError::Io(k)),
            Err(IoError::Parser(e)) => {
                self.is_finished = true;
                return Err(IoError::Parser(e));
            },
        };
        if record.is_eos() {
            self.is_finished = true;
            return if self.depth.len() > 0 {
                Err(IoError::Parser(ParserError::UnexpectedEos))
            } else {
                self.parents = Vec::new();
                Ok(None)
            };
        }
        self.update(&record);
        self.src.limit = record.length;
        self.in_frame = true;
        let id = RecordId::new(record.source_id, record.type_id);
        Ok(Some((id, RecordChunk::new(&mut self.src))))
    }
}

/// What reading one whole record from the bytes `s` gives, and the bytes
/// left behind it: the metadata, then the payload of the declared length,
/// then the guard byte, which is checked. An end-of-stream marker has
/// neither payload nor guard. A length beyond what memory can hold is
/// impossible.
pub open spec fn spec_parse_record(s: Seq<u8>) -> (
    Result<(RecordMeta, Seq<u8>), IoError<ParserError>>,
    Seq<u8>,
) {
    let (r, s1) = crate::codec::v0::spec_read_meta(s);
    match r {
        Err(e) => (Err(e), s1),
        Ok(meta) => if meta.spec_is_eos() {
            (Ok((meta, Seq::<u8>::empty())), s1)
        } else if meta.length > usize::MAX {
            (Err(IoError::Parser(ParserError::Length(meta.length))), s1)
        } else if s1.len() < meta.length {
            (
                Err(IoError::Io(IoKind::UnexpectedEof((meta.length - s1.len()) as usize))),
                s1,
            )
        } else {
            let payload = s1.take(meta.length as int);
            let s2 = s1.skip(meta.length as int);
            if s2.len() == 0 {
                (Err(IoError::Io(IoKind::UnexpectedEof(1))), s2)
            } else if s2[0] != GUARD {
                (Err(IoError::Parser(ParserError::Guard(s2[0]))), s2.skip(1))
            } else {
                (Ok((meta, payload)), s2.skip(1))
            }
        },
    }
}

/// Reads a header from a stream and checks its magic bytes and its guard
/// byte. The version is not judged.
pub fn parse_header(rdr: &mut &[u8]) -> (r: Result<Header, IoError<ParserError>>)
    ensures
        match r {
            Ok(h) => {
                &&& old(rdr)@.len() >= 7
                &&& spec_header_ok(old(rdr)@.take(7))
                &&& h.version == spec_u16_from_le(old(rdr)@.subrange(4, 6))
                &&& final(rdr)@ == old(rdr)@.skip(7)
            },
            Err(IoError::Io(k)) => {
                &&& old(rdr)@.len() < 7
                &&& k == IoKind::UnexpectedEof((7 - old(rdr)@.len()) as usize)
                &&& final(rdr)@ == old(rdr)@
            },
            Err(IoError::Parser(ParserError::MagicBytes(found))) => {
                &&& old(rdr)@.len() >= 7
                &&& old(rdr)@.take(4) != spec_magic()
                &&& found@ == old(rdr)@.take(4)
                &&& final(rdr)@ == old(rdr)@.skip(7)
            },
            Err(IoError::Parser(ParserError::Guard(g))) => {
                &&& old(rdr)@.len() >= 7
                &&& old(rdr)@.take(4) == spec_magic()
                &&& g == old(rdr)@[6]
                &&& g != GUARD
                &&& final(rdr)@ == old(rdr)@.skip(7)
            },
            Err(_) => false,
        },
{
    let buf: [u8; 7] = match rdr.extract::<7>() {
        Ok(buf) => buf,
        Err(e) => return Err(IoError::Io(e.io_kind())),
    };
    proof {
        let s = old(rdr)@;
        assert(s.take(7).take(4) =~= s.take(4));
        assert(s.take(7).subrange(4, 6) =~= s.subrange(4, 6));
    }
    match read_header(&buf) {
        Ok(h) => Ok(h),
        Err(e) => Err(IoError::Parser(e)),
    }
}

/// Reads the metadata of one record from a stream.
pub fn parse_record_prefix(rdr: &mut &[u8]) -> (r: Result<RecordMeta, IoError<ParserError>>)
    ensures
        (r, final(rdr)@) == crate::codec::v0::spec_read_meta(old(rdr)@),
{
    let des = crate::codec::v0::Deserialiser { options: DesOptions };
    des.read_meta(rdr)
}

/// Reads one whole record from a stream: its metadata and its payload.
/// The guard byte is consumed and checked.
pub fn parse_record<'a>(rdr: &mut &'a [u8]) -> (r: Result<
    (RecordMeta, &'a [u8]),
    IoError<ParserError>,
>)
    ensures
        final(rdr)@ == spec_parse_record(old(rdr)@).1,
        match r {
            Ok((meta, payload)) => spec_parse_record(old(rdr)@).0 == Ok::<
                (RecordMeta, Seq<u8>),
                IoError<ParserError>,
            >((meta, payload@)),
            Err(e) => spec_parse_record(old(rdr)@).0 == Err::<
                (RecordMeta, Seq<u8>),
                IoError<ParserError>,
            >(e),
        },
{
    let meta = match parse_record_prefix(rdr) {
        Ok(meta) => meta,
        Err(e) => return Err(e),
    };
    if meta.is_eos() {
        let (none, _) = rdr.split_at(0);
        assert(none@ =~= Seq::<u8>::empty());
        return Ok((meta, none));
    }
    if meta.length > usize::MAX as u64 {
        return Err(IoError::Parser(ParserError::Length(meta.length)));
    }
    let payload = match extract_impl(rdr, meta.length as usize) {
        Ok(payload) => payload,
        Err(e) => return Err(IoError::Io(e.io_kind())),
    };
    let guard = match rdr.extract_u8() {
        Ok(guard) => guard,
        Err(e) => return Err(IoError::Io(e.io_kind())),
    };
    if guard != GUARD {
        return Err(IoError::Parser(ParserError::Guard(guard)));
    }
    Ok((meta, payload))
}

} // verus!
