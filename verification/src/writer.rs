//! The stream writer: the mirror of the reader.
//!
//! ```text
//! Uninitialised -- write header --> Active -- write EOS --> Finished
//! ```
//!
//! A record is written as its metadata, then its payload through a bounded
//! sink, then the guard byte. A frame whose sink was let go before it was
//! finished is completed when the writer is used next.
use crate::codec::{
    spec_header_bytes, write_header, AnySerialiser, RawSerialiser, SerOptions,
};
use crate::error::{IoError, ParserError};
use crate::io::{BoundedWriter, BoundedWriterView, RecordSink, SizedRecord};
use crate::nesting::{child_done, ids_of, innermost_first, spec_ids, spec_update};
use crate::{Header, IntoMetadata, RecordId, RecordMeta, CURRENT_VERSION};
use core::marker::PhantomData;
use vstd::prelude::*;

verus! {

/// A typed record that can write its own payload.
pub trait IntoData<S> {
    /// The payload of the record. An implementation says what it is; where
    /// it says nothing, nothing is known of it.
    open spec fn spec_data(&self, ser: &S, source_id: u16) -> Seq<u8> {
        arbitrary()
    }

    /// Why the record refuses to write its payload, if it does: the error
    /// with which `encode_into` fails. It depends on the record, the
    /// serialiser and the source id alone. An implementation says what it
    /// is; where it says nothing, nothing is known of it.
    open spec fn spec_data_error(&self, ser: &S, source_id: u16) -> Option<IoError<ParserError>> {
        arbitrary()
    }

    /// Appends the payload of the record to `wtr`, or fails with the error
    /// for which the record refuses.
    fn encode_into(&self, wtr: &mut Vec<u8>, ser: &S, source_id: u16) -> (r: Result<
        (),
        IoError<ParserError>,
    >)
        ensures
            match r {
                Ok(_) => {
                    &&& self.spec_data_error(ser, source_id) is None
                    &&& final(wtr)@ == old(wtr)@ + self.spec_data(ser, source_id)
                },
                Err(e) => self.spec_data_error(ser, source_id) == Some(e),
            },
    ;
}

/// The state of a writer, as a value.
pub struct WriterView {
    /// The bytes written so far.
    pub written: Seq<u8>,
    /// The payload bytes that the open frame still owes.
    pub owed: u64,
    /// Whether a frame is open: its guard byte has not been written.
    pub in_frame: bool,
    /// Whether the end-of-stream marker has been written.
    pub finished: bool,
    /// The containers that are still owed children, outermost first, each
    /// with the number of children it is owed.
    pub open: Seq<(u16, RecordId)>,
}

impl WriterView {
    /// The sink of the writer.
    pub open spec fn sink(self) -> BoundedWriterView {
        BoundedWriterView { written: self.written, limit: self.owed, open: self.in_frame }
    }

    /// What has been written once the open frame is completed.
    pub open spec fn closed(self) -> Seq<u8> {
        self.sink().closed()
    }

    /// The state of a writer that has written nothing but the bytes `s`.
    pub open spec fn fresh(s: Seq<u8>) -> Self {
        WriterView {
            written: s,
            owed: 0,
            in_frame: false,
            finished: false,
            open: Seq::empty(),
        }
    }

    /// Why a record with the metadata `meta` is refused, if it is: the
    /// stream has ended, or the record is an end-of-stream marker.
    pub open spec fn refusal(self, meta: RecordMeta) -> Option<ParserError> {
        if self.finished {
            Some(ParserError::IsEos)
        } else if meta.spec_is_eos() {
            Some(ParserError::UnexpectedEos)
        } else {
            None
        }
    }

    /// The state after the metadata of an accepted record was written with
    /// the serialiser `ser`: the frame before is complete and the record's
    /// frame is open.
    pub open spec fn begin<S: RawSerialiser>(self, ser: S, meta: RecordMeta) -> Self {
        WriterView {
            written: self.closed() + ser.spec_meta_bytes(meta),
            owed: meta.length,
            in_frame: true,
            finished: false,
            open: spec_update(self.open, meta),
        }
    }

    /// The state after the end-of-stream marker was written with the
    /// serialiser `ser`.
    pub open spec fn end<S: RawSerialiser>(self, ser: S) -> Self {
        WriterView {
            written: self.closed() + ser.spec_meta_bytes(RecordMeta::spec_new_eos()),
            owed: 0,
            in_frame: false,
            finished: true,
            ..self
        }
    }
}

/// The payload `data` as a frame of declared length `len` holds it: clipped
/// to `len` bytes, or padded to it with zero bytes.
pub open spec fn spec_fitted(data: Seq<u8>, len: u64) -> Seq<u8> {
    if data.len() >= len {
        data.take(len as int)
    } else {
        data + Seq::new((len - data.len()) as nat, |i: int| 0u8)
    }
}

/// Builds a writer for a framing version.
#[derive(Debug, Clone, Copy, PartialEq, Eq, Structural)]
pub struct MsrfWriterBuilder {
    pub version: u16,
}

impl Default for MsrfWriterBuilder {
    fn default() -> (b: Self)
        ensures
            b.version == CURRENT_VERSION,
    {
        Self { version: CURRENT_VERSION }
    }
}

impl MsrfWriterBuilder {
    pub fn new() -> (b: Self)
        ensures
            b.version == CURRENT_VERSION,
    {
        Self { version: CURRENT_VERSION }
    }

    /// Sets the framing version. `None` for a version that has no codec.
    pub fn version(self, version: u16) -> (r: Option<MsrfWriterBuilder>)
        ensures
            r == (if version > CURRENT_VERSION {
                None
            } else {
                Some(MsrfWriterBuilder { version })
            }),
    {
        if version > CURRENT_VERSION {
            return None;
        }
        Some(MsrfWriterBuilder { version })
    }

    /// A writer that appends a stream in the builder's version to `wtr`.
    pub fn build(self, wtr: Vec<u8>) -> (r: Result<MsrfWriter<AnySerialiser, HeaderUninit>, ()>)
        ensures
            r is Ok <==> self.version <= CURRENT_VERSION,
            r matches Ok(w) ==> w@ == WriterView::fresh(wtr@) && w.spec_ser() == AnySerialiser::V0(
                crate::codec::v0::Serialiser { options: SerOptions },
            ),
    {
        match AnySerialiser::new_default(self.version) {
            Some(ser) => Ok(MsrfWriter::new(wtr, ser)),
            None => Err(()),
        }
    }

    /// A writer that appends a stream to `wtr` with a serialiser of the
    /// caller's choice.
    pub fn build_with<S: RawSerialiser>(self, wtr: Vec<u8>, ser: S) -> (w: MsrfWriter<
        S,
        HeaderUninit,
    >)
        ensures
            w@ == WriterView::fresh(wtr@),
            w.spec_ser() == ser,
    {
        MsrfWriter::new(wtr, ser)
    }
}

/// The state of a writer whose header has been written.
pub struct HeaderInit;

/// The state of a writer whose header has not been written.
pub struct HeaderUninit;

/// A writer of a stream in memory.
pub struct MsrfWriter<S, H> {
    pub(crate) is_finished: bool,
    pub(crate) dst: BoundedWriter,
    pub(crate) ser: S,
    pub(crate) header_state: PhantomData<H>,
    pub(crate) depth: Vec<(u16, RecordId)>,
}

impl<S, H> View for MsrfWriter<S, H> {
    type V = WriterView;

    open(crate) spec fn view(&self) -> WriterView {
        WriterView {
            written: self.dst@.written,
            owed: self.dst@.limit,
            in_frame: self.dst@.open,
            finished: self.is_finished,
            open: self.depth@,
        }
    }
}

impl<S, H> MsrfWriter<S, H> {
    /// The serialiser of this writer.
    pub open(crate) spec fn spec_ser(&self) -> S {
        self.ser
    }

    pub fn builder() -> (b: MsrfWriterBuilder)
        ensures
            b.version == CURRENT_VERSION,
    {
        MsrfWriterBuilder::new()
    }

    /// The serialiser of this writer.
    pub fn serialiser(&self) -> (ser: &S)
        ensures
            *ser == self.spec_ser(),
    {
        &self.ser
    }

    /// Whether the end-of-stream marker has been written.
    pub fn is_finished(&self) -> (b: bool)
        ensures
            b == self@.finished,
    {
        self.is_finished
    }

    /// The bytes written so far.
    pub fn as_bytes(&self) -> (s: &[u8])
        ensures
            s@ == self@.written,
    {
        self.dst.as_bytes()
    }

    /// The bytes written, with the open frame completed.
    pub fn into_inner(self) -> (wtr: Vec<u8>)
        ensures
            wtr@ == self@.closed(),
    {
        let mut dst = self.dst;
        let _ = dst.finish();
        dst.into_inner()
    }
}

impl<S: RawSerialiser> MsrfWriter<S, HeaderUninit> {
    fn new(wtr: Vec<u8>, ser: S) -> (w: MsrfWriter<S, HeaderUninit>)
        ensures
            w@ == WriterView::fresh(wtr@),
            w.spec_ser() == ser,
    {
        MsrfWriter {
            is_finished: false,
            dst: BoundedWriter::new(wtr),
            ser,
            header_state: PhantomData,
            depth: Vec::new(),
        }
    }

    /// Writes the header of the current version and gives the writer of the
    /// records behind it.
    pub fn initialise(self) -> (r: Result<MsrfWriter<S, HeaderInit>, IoError<ParserError>>)
        ensures
            r matches Ok(w) && w@ == WriterView::fresh(
                self@.closed() + spec_header_bytes(Header { version: CURRENT_VERSION }),
            ) && w.spec_ser() == self.spec_ser(),
    {
        let header = Header::new(CURRENT_VERSION);
        let mut dst = self.dst;
        let _ = dst.finish();
        if let Err(e) = write_header(&mut dst.wtr, header) {
            return Err(e);
        }
        Ok(
            MsrfWriter {
                is_finished: false,
                dst,
                ser: self.ser,
                header_state: PhantomData,
                depth: Vec::new(),
            },
        )
    }
}

impl<S: RawSerialiser> MsrfWriter<S, HeaderInit> {
    /// Brings the container stack up to date with a record that is
    /// written.
    fn update(&mut self, meta: &RecordMeta)
        ensures
            final(self)@ == (WriterView {
                open: spec_update(old(self)@.open, *meta),
                ..old(self)@
            }),
            final(self).spec_ser() == old(self).spec_ser(),
    {
        match meta.contained() {
            Some(count) if count > 0 => {
                self.depth.push((count, RecordId::new(meta.source_id, meta.type_id)));
            },
            _ => {
                child_done(&mut self.depth);
            },
        }
    }

    /// Begins a record: completes the frame before, writes the metadata and
    /// gives the bounded sink for the payload.
    ///
    /// Refused on a finished stream (`IsEos`) and for an end-of-stream
    /// marker (`UnexpectedEos`); a refusal writes nothing.
    pub fn write_record<'a>(&'a mut self, meta: RecordMeta) -> (r: Result<
        RecordSink<'a>,
        IoError<ParserError>,
    >)
        ensures
            final(self).spec_ser() == old(self).spec_ser(),
            match r {
                Ok(sink) => {
                    let begun = old(self)@.begin(old(self).spec_ser(), meta);
                    &&& old(self)@.refusal(meta) is None
                    &&& sink.now() == begun.sink()
                    &&& final(self)@ == (WriterView {
                        written: final(sink.0)@.written,
                        owed: final(sink.0)@.limit,
                        in_frame: final(sink.0)@.open,
                        ..begun
                    })
                },
                Err(e) => {
                    &&& old(self)@.refusal(meta) matches Some(p)
                    &&& e == IoError::Parser(p)
                    &&& final(self)@ == old(self)@
                },
            },
    {
        if self.is_finished {
            return Err(IoError::Parser(ParserError::IsEos));
        } else if meta.is_eos() {
            return Err(IoError::Parser(ParserError::UnexpectedEos));
        }
        self.update(&meta);
        let _ = self.dst.finish();
        if let Err(e) = self.ser.write_meta(meta, &mut self.dst.wtr) {
            return Err(e);
        }
        self.dst.limit = meta.length;
        self.dst.open = true;
        Ok(RecordSink::new(&mut self.dst))
    }

    /// Begins a record whose payload length is the length that `data`
    /// reports of its own encoding.
    pub fn write_record_with<'a, T: SizedRecord<S>>(&'a mut self, data: &T, id: RecordId) -> (r:
        Result<RecordSink<'a>, IoError<ParserError>>)
        ensures
            final(self).spec_ser() == old(self).spec_ser(),
            match r {
                Ok(sink) => {
                    let meta = RecordMeta::spec_new(
                        id.source_id,
                        id.type_id,
                        data.spec_encoded_len(&old(self).spec_ser()) as u64,
                    );
                    let begun = old(self)@.begin(old(self).spec_ser(), meta);
                    &&& old(self)@.refusal(meta) is None
                    &&& sink.now() == begun.sink()
                    &&& final(self)@ == (WriterView {
                        written: final(sink.0)@.written,
                        owed: final(sink.0)@.limit,
                        in_frame: final(sink.0)@.open,
                        ..begun
                    })
                },
                Err(e) => {
                    let meta = RecordMeta::spec_new(id.source_id, id.type_id, 0);
                    &&& old(self)@.refusal(meta) matches Some(p)
                    &&& e == IoError::Parser(p)
                    &&& final(self)@ == old(self)@
                },
            },
    {
        let len = data.encoded_len(&self.ser) as u64;
        self.write_record(id.into_meta(len))
    }

    /// Begins a container record that announces `child_count` children:
    /// the metadata is composed from `data`, with the container flag and
    /// the count.
    pub fn write_container<'a, T: IntoMetadata<S>>(
        &'a mut self,
        data: &T,
        source_id: u16,
        child_count: u16,
    ) -> (r: Result<RecordSink<'a>, IoError<ParserError>>)
        ensures
            final(self).spec_ser() == old(self).spec_ser(),
            match r {
                Ok(sink) => {
                    let meta = RecordMeta {
                        source_id,
                        type_id: data.spec_typ_id(),
                        length: data.spec_encoded_len(&old(self).spec_ser()) as u64,
                        contained: Some(child_count),
                    };
                    let begun = old(self)@.begin(old(self).spec_ser(), meta);
                    &&& old(self)@.refusal(meta) is None
                    &&& sink.now() == begun.sink()
                    &&& final(self)@ == (WriterView {
                        written: final(sink.0)@.written,
                        owed: final(sink.0)@.limit,
                        in_frame: final(sink.0)@.open,
                        ..begun
                    })
                },
                Err(e) => {
                    let meta = RecordMeta::spec_new(source_id, 0, 0);
                    &&& old(self)@.refusal(meta) matches Some(p)
                    &&& e == IoError::Parser(p)
                    &&& final(self)@ == old(self)@
                },
            },
    {
        let plain = data.meta(&self.ser, source_id);
        let meta = RecordMeta::new_container(
            plain.source_id,
            plain.type_id,
            plain.length,
            child_count,
        );
        self.write_record(meta)
    }

    /// Writes a record in one call: the metadata, the payload and the guard
    /// byte. The payload goes through the bounded sink, so the frame has
    /// the length that the metadata declares whatever `payload` holds.
    /// Refused like `write_record`.
    pub fn write_record_bytes(&mut self, meta: RecordMeta, payload: &[u8]) -> (r: Result<
        (),
        IoError<ParserError>,
    >)
        ensures
            final(self).spec_ser() == old(self).spec_ser(),
            match r {
                Ok(_) => {
                    let begun = old(self)@.begin(old(self).spec_ser(), meta);
                    &&& old(self)@.refusal(meta) is None
                    &&& final(self)@ == (WriterView {
                        written: begun.written + spec_fitted(payload@, meta.length) + seq![
                            crate::io::GUARD,
                        ],
                        owed: 0,
                        in_frame: false,
                        ..begun
                    })
                },
                Err(e) => {
                    &&& old(self)@.refusal(meta) matches Some(p)
                    &&& e == IoError::Parser(p)
                    &&& final(self)@ == old(self)@
                },
            },
    {
        let length = meta.length;
        let ghost begun = self@.begin(self.spec_ser(), meta);
        match self.write_record(meta) {
            Ok(mut sink) => {
                let n = sink.write(payload);
                let ghost mid = sink.now();
                let _ = sink.finish();
                proof {
                    let zeros = Seq::new((length - n) as nat, |i: int| 0u8);
                    assert(payload@.take(n as int) + zeros =~= spec_fitted(payload@, length));
                    assert(mid.closed() =~= begun.written + spec_fitted(payload@, length)
                        + seq![crate::io::GUARD]);
                }
                Ok(())
            },
            Err(e) => Err(e),
        }
    }

    /// Writes a typed record in one call: the metadata composed from the
    /// record, its payload and the guard byte.
    ///
    /// Refused like `write_record`, before the record is asked for its
    /// payload. Else the record's own encoder decides: its error is passed
    /// on. The call succeeds exactly when neither the writer nor the record
    /// refuses; a call that fails writes nothing.
    pub fn write_record_from<T: IntoData<S> + IntoMetadata<S>>(
        &mut self,
        record: &T,
        source_id: u16,
    ) -> (r: Result<(), IoError<ParserError>>)
        ensures
            final(self).spec_ser() == old(self).spec_ser(),
            match r {
                Ok(_) => {
                    let meta = RecordMeta::spec_new(
                        source_id,
                        record.spec_typ_id(),
                        record.spec_encoded_len(&old(self).spec_ser()) as u64,
                    );
                    let begun = old(self)@.begin(old(self).spec_ser(), meta);
                    &&& old(self)@.refusal(meta) is None
                    &&& record.spec_data_error(&old(self).spec_ser(), source_id) is None
                    &&& final(self)@ == (WriterView {
                        written: begun.written + spec_fitted(
                            record.spec_data(&old(self).spec_ser(), source_id),
                            meta.length,
                        ) + seq![crate::io::GUARD],
                        owed: 0,
                        in_frame: false,
                        ..begun
                    })
                },
                Err(e) => {
                    &&& final(self)@ == old(self)@
                    &&& match old(self)@.refusal(RecordMeta::spec_new(source_id, 0, 0)) {
                        Some(p) => e == IoError::Parser(p),
                        None => record.spec_data_error(&old(self).spec_ser(), source_id) == Some(
                            e,
                        ),
                    }
                },
            },
    {
        let meta = record.meta(&self.ser, source_id);
        if self.is_finished {
            return Err(IoError::Parser(ParserError::IsEos));
        } else if meta.is_eos() {
            return Err(IoError::Parser(ParserError::UnexpectedEos));
        }
        let mut payload: Vec<u8> = Vec::new();
        match record.encode_into(&mut payload, &self.ser, source_id) {
            Ok(_) => self.write_record_bytes(meta, payload.as_slice()),
            Err(e) => Err(e),
        }
    }

    /// Ends the stream: completes the open frame and writes the
    /// end-of-stream marker. Refused on a finished stream (`IsEos`).
    pub fn finish(&mut self) -> (r: Result<(), IoError<ParserError>>)
        ensures
            final(self).spec_ser() == old(self).spec_ser(),
            match r {
                Ok(_) => !old(self)@.finished && final(self)@ == old(self)@.end(
                    old(self).spec_ser(),
                ),
                Err(e) => old(self)@.finished && e == IoError::<ParserError>::Parser(
                    ParserError::IsEos,
                ) && final(self)@ == old(self)@,
            },
    {
        if self.is_finished {
            return Err(IoError::Parser(ParserError::IsEos));
        }
        let _ = self.dst.finish();
        if let Err(e) = self.ser.write_meta(RecordMeta::new_eos(), &mut self.dst.wtr) {
            return Err(e);
        }
        self.is_finished = true;
        Ok(())
    }

    /// The innermost container that is still owed children, or `None`
    /// where no container is open. A container that was just written is
    /// itself open; the last child of a container closes it.
    pub fn current_parent(&self) -> (p: Option<RecordId>)
        ensures
            p == (if self@.open.len() > 0 {
                Some(self@.open.last().1)
            } else {
                None
            }),
    {
        if self.depth.len() > 0 {
            Some(self.depth[self.depth.len() - 1].1)
        } else {
            None
        }
    }

    /// The containers that are still owed children, innermost first.
    pub fn parents(&self) -> (p: Vec<RecordId>)
        ensures
            p@ == spec_ids(self@.open).reverse(),
    {
        let ids = ids_of(&self.depth);
        innermost_first(&ids)
    }
}

/// A whole record on the wire: its metadata, its payload fitted to the
/// declared length and the guard byte. An end-of-stream marker is its
/// metadata alone.
pub open spec fn spec_record_bytes(meta: RecordMeta, payload: Seq<u8>) -> Seq<u8> {
    if meta.spec_is_eos() {
        crate::codec::v0::spec_meta_bytes(meta)
    } else {
        crate::codec::v0::spec_meta_bytes(meta) + spec_fitted(payload, meta.length) + seq![
            crate::io::GUARD,
        ]
    }
}

/// Appends one whole record to `wtr`: the metadata, the payload and the
/// guard byte. The payload is clipped or padded to the length that the
/// metadata declares.
pub fn write_record(wtr: &mut Vec<u8>, meta: RecordMeta, payload: &[u8]) -> (r: Result<
    (),
    IoError<ParserError>,
>)
    ensures
        r is Ok,
        final(wtr)@ == old(wtr)@ + spec_record_bytes(meta, payload@),
{
    let ser = crate::codec::v0::Serialiser { options: SerOptions };
    if let Err(e) = ser.write_meta(meta, wtr) {
        return Err(e);
    }
    if !meta.is_eos() {
        let n = crate::io::clip(payload.len(), meta.length);
        crate::io::push_all(wtr, vstd::slice::slice_subrange(payload, 0, n));
        let ghost written = wtr@;
        let mut left = meta.length - n as u64;
        while left > 0
            invariant
                left <= meta.length - n,
                wtr@ == written + Seq::new((meta.length - n - left) as nat, |i: int| 0u8),
            decreases left,
        {
            wtr.push(0);
            left = left - 1;
            assert(wtr@ =~= written + Seq::new((meta.length - n - left) as nat, |i: int| 0u8));
        }
        wtr.push(crate::io::GUARD);
        proof {
            let zeros = Seq::new((meta.length - n) as nat, |i: int| 0u8);
            assert(payload@.take(n as int) + zeros =~= spec_fitted(payload@, meta.length));
            assert(wtr@ =~= old(wtr)@ + spec_record_bytes(meta, payload@));
        }
    }
    Ok(())
}

} // verus!
