//! What holds of the format as a whole: a frame that is written is read
//! back, a stream of frames is read to its end, and the children of a
//! container are found one level below it, however they nest.
use crate::codec::v0::{spec_meta_bytes, spec_read_meta, spec_wire_type, Deserialiser};
use crate::codec::{spec_header_bytes, spec_header_ok, spec_magic, DesOptions, RawDeserialiser};
use crate::endian::{lemma_u16_roundtrip, spec_u16_from_le, spec_u16_to_le};
use crate::error::{IoError, ParserError};
use crate::io::{spec_clip, BoundedWriterView, GUARD};
use crate::nesting::{spec_child_done, spec_ids, spec_update};
use crate::reader::ReaderView;
use crate::stream::{spec_after_varint, spec_extract_varint};
use crate::varint;
use crate::writer::{spec_fitted, WriterView};
use crate::{Header, RecordId, RecordMeta, RECORD_EOS};
use vstd::prelude::*;

verus! {

/// One record on the wire: its metadata, its payload, the guard byte.
pub open spec fn spec_frame(meta: RecordMeta, payload: Seq<u8>) -> Seq<u8> {
    spec_meta_bytes(meta) + payload + seq![GUARD]
}

/// The end-of-stream marker on the wire.
pub open spec fn spec_eos() -> Seq<u8> {
    spec_meta_bytes(RecordMeta::spec_new_eos())
}

/// The identity of the record with the metadata `meta`.
pub open spec fn spec_id(meta: RecordMeta) -> RecordId {
    RecordId { source_id: meta.source_id, type_id: meta.type_id }
}

/// A two-byte integer at the start of a stream is read back.
pub proof fn lemma_read_u16(v: u16, rest: Seq<u8>)
    ensures
        (spec_u16_to_le(v) + rest).len() >= 2,
        spec_u16_from_le((spec_u16_to_le(v) + rest).take(2)) == v,
        (spec_u16_to_le(v) + rest).skip(2) == rest,
{
    let s = spec_u16_to_le(v) + rest;
    lemma_u16_roundtrip(v);
    assert(s.take(2) =~= spec_u16_to_le(v));
    assert(s.skip(2) =~= rest);
}

/// A varint at the start of a stream is read back, and the read consumes
/// exactly its encoding.
pub proof fn lemma_read_varint(v: u64, rest: Seq<u8>)
    ensures
        spec_extract_varint(varint::spec_encode(v) + rest) == Ok::<u64, crate::error::CodecError>(
            v,
        ),
        spec_after_varint(varint::spec_encode(v) + rest) == rest,
{
    let e = varint::spec_encode(v);
    let s = e + rest;
    varint::lemma_roundtrip(v);
    assert(s[0] == e[0]);
    assert(s.take(e.len() as int) =~= e);
    varint::lemma_decode_prefix(s, e);
    assert(s.skip(e.len() as int) =~= rest);
}

/// The metadata of a well-formed record, followed by anything, is read
/// back as it was written, and the read consumes exactly the metadata.
pub proof fn lemma_meta_roundtrip(meta: RecordMeta, rest: Seq<u8>)
    requires
        meta.well_formed(),
    ensures
        spec_read_meta(spec_meta_bytes(meta) + rest) == (
            Ok::<RecordMeta, IoError<ParserError>>(meta),
            rest,
        ),
{
    let wire = spec_wire_type(meta);
    let t = meta.type_id;
    let tail = match meta.contained {
        Some(c) => spec_u16_to_le(c),
        None => Seq::<u8>::empty(),
    };
    let s = spec_meta_bytes(meta) + rest;
    let s1 = spec_u16_to_le(wire) + varint::spec_encode(meta.length) + tail + rest;
    let s2 = varint::spec_encode(meta.length) + (tail + rest);
    let s3 = tail + rest;
    assert(s =~= spec_u16_to_le(meta.source_id) + s1);
    assert(s1 =~= spec_u16_to_le(wire) + s2);
    lemma_read_u16(meta.source_id, s1);
    lemma_read_u16(wire, s2);
    lemma_read_varint(meta.length, s3);
    assert(t & 0x8000 == 0 ==> ((t & 0x7FFF) | 0x8000) & 0x8000 != 0 && ((t & 0x7FFF) | 0x8000)
        & 0x7FFF == t && (t & 0x7FFF) & 0x8000 == 0 && (t & 0x7FFF) & 0x7FFF == t)
        by (bit_vector);
    match meta.contained {
        Some(c) => {
            lemma_read_u16(c, rest);
        },
        None => {
            assert(s3 =~= rest);
        },
    }
}

/// The end-of-stream marker, followed by anything, is read as the
/// end-of-stream marker, and the read consumes exactly the marker.
pub proof fn lemma_eos_roundtrip(rest: Seq<u8>)
    ensures
        spec_read_meta(spec_eos() + rest) == (
            Ok::<RecordMeta, IoError<ParserError>>(RecordMeta::spec_new_eos()),
            rest,
        ),
        spec_eos().len() == 2,
{
    lemma_read_u16(RECORD_EOS, rest);
}

/// A reader stands before the bytes `rest`: either no frame is open and
/// `rest` is what is left of the stream, or a frame is open and what is left
/// of its payload, its guard byte and then `rest` are what is left of the
/// stream.
pub open spec fn spec_before(v: ReaderView, rest: Seq<u8>) -> bool {
    if v.in_frame {
        &&& v.remaining.len() >= v.pending + 1
        &&& v.remaining[v.pending as int] == GUARD
        &&& v.remaining.skip(v.pending + 1) == rest
    } else {
        v.remaining == rest
    }
}

/// A reader's state after `k` bytes were read through the chunk of the open
/// frame.
pub open spec fn spec_taken(v: ReaderView, k: nat) -> ReaderView {
    ReaderView { remaining: v.remaining.skip(k as int), pending: (v.pending - k) as u64, ..v }
}

/// Completing a frame leaves the reader at the byte behind the frame's
/// guard, however much of the payload was read before.
pub proof fn lemma_close_frame(v: ReaderView, rest: Seq<u8>)
    requires
        spec_before(v, rest),
    ensures
        v.close_frame().result is Ok,
        v.close_frame().next.remaining == rest,
        !v.close_frame().next.in_frame,
        v.close_frame().next.finished == v.finished,
        v.close_frame().next.open == v.open,
        v.close_frame().next.ancestors == v.ancestors,
{
    if v.in_frame {
        let k = spec_clip(v.remaining.len(), v.pending);
        assert(k == v.pending);
        let tail = v.remaining.skip(k as int);
        assert(tail[0] == v.remaining[v.pending as int]);
        assert(tail.skip(1) =~= v.remaining.skip(v.pending + 1));
    }
}

/// Reading one frame: a reader that stands before the frame of a
/// well-formed record gives the record's identity and a chunk of the
/// payload's length, and knows the record's ancestors. Whatever part of the
/// payload is then read through the chunk, the reader stands before the
/// bytes behind the frame.
pub proof fn lemma_read_frame(
    v: ReaderView,
    meta: RecordMeta,
    payload: Seq<u8>,
    rest: Seq<u8>,
    k: nat,
)
    requires
        !v.finished,
        meta.well_formed(),
        payload.len() == meta.length,
        spec_before(v, spec_frame(meta, payload) + rest),
        k <= meta.length,
    ensures
        ({
            let step = v.read_record(Deserialiser { options: DesOptions });
            &&& step.result == Ok::<Option<RecordId>, IoError<ParserError>>(Some(spec_id(meta)))
            &&& step.next == (ReaderView {
                remaining: payload + seq![GUARD] + rest,
                pending: meta.length,
                in_frame: true,
                finished: false,
                open: spec_update(v.open, meta),
                ancestors: spec_ids(v.open),
            })
            &&& step.next.remaining.take(meta.length as int) == payload
            &&& spec_before(spec_taken(step.next, k), rest)
        }),
{
    let des = Deserialiser { options: DesOptions };
    let frame = spec_frame(meta, payload) + rest;
    lemma_close_frame(v, frame);
    let closed = v.close_frame().next;
    let body = payload + seq![GUARD] + rest;
    assert(frame =~= spec_meta_bytes(meta) + body);
    lemma_meta_roundtrip(meta, body);
    let step = v.read_record(des);
    assert(step == closed.read_meta(des));
    assert(des.spec_read_meta(closed.remaining) == spec_read_meta(closed.remaining));
    assert(body.take(meta.length as int) =~= payload);
    let after = spec_taken(step.next, k);
    assert(after.remaining.len() >= after.pending + 1);
    assert(after.remaining[after.pending as int] == body[meta.length as int]);
    assert(after.remaining.skip(after.pending + 1) =~= rest);
}

/// Reading the end of a stream: a reader that stands before the
/// end-of-stream marker, outside any container, gives `None`, consumes
/// exactly the marker, is finished and reports no ancestors; asked again,
/// it fails with `IsEos` and consumes nothing.
pub proof fn lemma_read_eos(v: ReaderView, rest: Seq<u8>)
    requires
        !v.finished,
        v.open.len() == 0,
        spec_before(v, spec_eos() + rest),
    ensures
        ({
            let des = Deserialiser { options: DesOptions };
            let step = v.read_record(des);
            &&& step.result == Ok::<Option<RecordId>, IoError<ParserError>>(None)
            &&& step.next.finished
            &&& step.next.remaining == rest
            &&& step.next.ancestors == Seq::<RecordId>::empty()
            &&& step.next.read_record(des).result == Err::<
                Option<RecordId>,
                IoError<ParserError>,
            >(IoError::Parser(ParserError::IsEos))
            &&& step.next.read_record(des).next == step.next
        }),
{
    let des = Deserialiser { options: DesOptions };
    lemma_close_frame(v, spec_eos() + rest);
    lemma_eos_roundtrip(rest);
    let closed = v.close_frame().next;
    assert(des.spec_read_meta(closed.remaining) == spec_read_meta(closed.remaining));
}

/// A premature end of a stream: a reader that stands before the
/// end-of-stream marker while a container is still owed children fails with
/// `UnexpectedEos`.
pub proof fn lemma_read_premature_eos(v: ReaderView, rest: Seq<u8>)
    requires
        !v.finished,
        v.open.len() > 0,
        spec_before(v, spec_eos() + rest),
    ensures
        v.read_record(Deserialiser { options: DesOptions }).result == Err::<
            Option<RecordId>,
            IoError<ParserError>,
        >(IoError::Parser(ParserError::UnexpectedEos)),
{
    let des = Deserialiser { options: DesOptions };
    lemma_close_frame(v, spec_eos() + rest);
    lemma_eos_roundtrip(rest);
    let closed = v.close_frame().next;
    assert(des.spec_read_meta(closed.remaining) == spec_read_meta(closed.remaining));
}

/// A whole record that was written is read back: behind the frame of a
/// well-formed record with a payload of the declared length, reading one
/// whole record gives the metadata and the payload and consumes exactly the
/// frame.
pub proof fn lemma_record_roundtrip(meta: RecordMeta, payload: Seq<u8>, rest: Seq<u8>)
    requires
        meta.well_formed(),
        payload.len() == meta.length,
        meta.length <= usize::MAX,
    ensures
        crate::reader::spec_parse_record(crate::writer::spec_record_bytes(meta, payload) + rest)
            == (Ok::<(RecordMeta, Seq<u8>), IoError<ParserError>>((meta, payload)), rest),
        crate::writer::spec_record_bytes(meta, payload) == spec_frame(meta, payload),
{
    let body = payload + seq![GUARD] + rest;
    assert(spec_fitted(payload, meta.length) =~= payload);
    assert(crate::writer::spec_record_bytes(meta, payload) + rest =~= spec_meta_bytes(meta)
        + body);
    lemma_meta_roundtrip(meta, body);
    assert(body.take(meta.length as int) =~= payload);
    let s2 = body.skip(meta.length as int);
    assert(s2[0] == GUARD);
    assert(s2.skip(1) =~= rest);
}

/// A record of a stream: its metadata and its payload.
pub struct Framed {
    pub meta: RecordMeta,
    pub payload: Seq<u8>,
}

/// The frames of a sequence of records, one behind the other.
pub open spec fn spec_frames(records: Seq<Framed>) -> Seq<u8>
    decreases records.len(),
{
    if records.len() == 0 {
        Seq::empty()
    } else {
        spec_frame(records[0].meta, records[0].payload) + spec_frames(records.skip(1))
    }
}

/// A stream on the wire: the header, the frames of its records, the
/// end-of-stream marker.
pub open spec fn spec_stream(header: Header, records: Seq<Framed>) -> Seq<u8> {
    spec_header_bytes(header) + spec_frames(records) + spec_eos()
}

/// The records are well formed and each payload has the length that its
/// metadata declares.
pub open spec fn spec_conforming(records: Seq<Framed>) -> bool {
    forall|i: int|
        0 <= i < records.len() ==> (#[trigger] records[i]).meta.well_formed()
            && records[i].payload.len() == records[i].meta.length
}

/// The container stack after a sequence of records.
pub open spec fn spec_nesting(stack: Seq<(u16, RecordId)>, records: Seq<Framed>) -> Seq<
    (u16, RecordId),
>
    decreases records.len(),
{
    if records.len() == 0 {
        stack
    } else {
        spec_nesting(spec_update(stack, records[0].meta), records.skip(1))
    }
}

/// Reading the records `records` one after the other gives each record's
/// identity, a chunk with exactly its payload, and its ancestors, where
/// `takes[i]` bytes are read through the chunk of record `i`.
pub open spec fn spec_reads(v: ReaderView, records: Seq<Framed>, takes: Seq<nat>) -> bool
    decreases records.len(),
{
    if records.len() == 0 {
        true
    } else {
        let step = v.read_record(Deserialiser { options: DesOptions });
        let first = records[0];
        &&& step.result == Ok::<Option<RecordId>, IoError<ParserError>>(Some(spec_id(first.meta)))
        &&& step.next.pending == first.meta.length
        &&& step.next.remaining.take(first.meta.length as int) == first.payload
        &&& step.next.ancestors == spec_ids(v.open)
        &&& spec_reads(spec_taken(step.next, takes[0]), records.skip(1), takes.skip(1))
    }
}

/// The reader's state after the records `records` were read, where
/// `takes[i]` bytes were read through the chunk of record `i`.
pub open spec fn spec_read_all(v: ReaderView, records: Seq<Framed>, takes: Seq<nat>) -> ReaderView
    decreases records.len(),
{
    if records.len() == 0 {
        v
    } else {
        let step = v.read_record(Deserialiser { options: DesOptions });
        spec_read_all(spec_taken(step.next, takes[0]), records.skip(1), takes.skip(1))
    }
}

/// No read takes more than the payload it reads from.
pub open spec fn spec_takes_fit(records: Seq<Framed>, takes: Seq<nat>) -> bool {
    &&& takes.len() == records.len()
    &&& forall|i: int| 0 <= i < records.len() ==> #[trigger] takes[i] <= records[i].meta.length
}

/// Reading a run of frames: a reader that stands before the frames of
/// conforming records reads them all, whatever part of each payload its
/// user reads, and then stands before the bytes behind the frames with the
/// container stack that the records leave.
pub proof fn lemma_read_frames(
    v: ReaderView,
    records: Seq<Framed>,
    takes: Seq<nat>,
    rest: Seq<u8>,
)
    requires
        !v.finished,
        spec_conforming(records),
        spec_takes_fit(records, takes),
        spec_before(v, spec_frames(records) + rest),
    ensures
        spec_reads(v, records, takes),
        !spec_read_all(v, records, takes).finished,
        spec_before(spec_read_all(v, records, takes), rest),
        spec_read_all(v, records, takes).open == spec_nesting(v.open, records),
    decreases records.len(),
{
    if records.len() > 0 {
        let first = records[0];
        let tail = records.skip(1);
        let behind = spec_frames(tail) + rest;
        assert(spec_frames(records) + rest =~= spec_frame(first.meta, first.payload) + behind);
        lemma_read_frame(v, first.meta, first.payload, behind, takes[0]);
        let step = v.read_record(Deserialiser { options: DesOptions });
        let next = spec_taken(step.next, takes[0]);
        assert forall|i: int| 0 <= i < tail.len() implies (#[trigger] tail[i]).meta.well_formed()
            && tail[i].payload.len() == tail[i].meta.length by {
            assert(tail[i] == records[i + 1]);
        }
        assert forall|i: int| 0 <= i < tail.len() implies #[trigger] takes.skip(1)[i]
            <= tail[i].meta.length by {
            assert(takes.skip(1)[i] == takes[i + 1]);
            assert(tail[i] == records[i + 1]);
        }
        lemma_read_frames(next, tail, takes.skip(1), rest);
    } else {
        assert(spec_frames(records) + rest =~= rest);
    }
}

/// The frames of a sequence of records are the frames of its first `i`
/// records and behind them the frames of the others.
pub proof fn lemma_frames_split(records: Seq<Framed>, i: int)
    requires
        0 <= i <= records.len(),
    ensures
        spec_frames(records) == spec_frames(records.take(i)) + spec_frames(records.skip(i)),
    decreases i,
{
    if i == 0 {
        assert(records.skip(0) =~= records);
        assert(spec_frames(records.take(0)) =~= Seq::<u8>::empty());
        assert(spec_frames(records) =~= spec_frames(records.take(0)) + spec_frames(records));
    } else {
        let head = records.take(i);
        let tail = records.skip(1);
        lemma_frames_split(tail, i - 1);
        assert(head[0] == records[0]);
        assert(head.skip(1) =~= tail.take(i - 1));
        assert(tail.skip(i - 1) =~= records.skip(i));
        assert(spec_frames(records) =~= spec_frames(head) + spec_frames(records.skip(i)));
    }
}

/// The ancestors that a reader reports. A reader that stands before the
/// frames of conforming records has read the first `i` of them, whatever
/// part of each payload its user read. It then gives record `i`, and the
/// ancestors that it reports for this record are the containers that are
/// open when the record arrives: those that the records before it leave
/// open, outermost first.
pub proof fn lemma_read_ancestors(
    v: ReaderView,
    records: Seq<Framed>,
    takes: Seq<nat>,
    rest: Seq<u8>,
    i: int,
)
    requires
        !v.finished,
        spec_conforming(records),
        spec_takes_fit(records, takes),
        spec_before(v, spec_frames(records) + rest),
        0 <= i < records.len(),
    ensures
        ({
            let at = spec_read_all(v, records.take(i), takes.take(i));
            let step = at.read_record(Deserialiser { options: DesOptions });
            &&& step.result == Ok::<Option<RecordId>, IoError<ParserError>>(
                Some(spec_id(records[i].meta)),
            )
            &&& step.next.ancestors == spec_ids(spec_nesting(v.open, records.take(i)))
        }),
{
    let head = records.take(i);
    let tail = records.skip(i);
    let first = records[i];
    let behind = spec_frames(tail.skip(1)) + rest;
    let at = spec_read_all(v, head, takes.take(i));
    assert(!at.finished && at.open == spec_nesting(v.open, head) && spec_before(
        at,
        spec_frames(tail) + rest,
    )) by {
        lemma_frames_split(records, i);
        assert(spec_frames(records) + rest =~= spec_frames(head) + (spec_frames(tail) + rest));
        assert forall|j: int| 0 <= j < head.len() implies (#[trigger] head[j]).meta.well_formed()
            && head[j].payload.len() == head[j].meta.length by {
            assert(head[j] == records[j]);
        }
        assert forall|j: int| 0 <= j < head.len() implies #[trigger] takes.take(i)[j]
            <= head[j].meta.length by {
            assert(takes.take(i)[j] == takes[j]);
            assert(head[j] == records[j]);
        }
        lemma_read_frames(v, head, takes.take(i), spec_frames(tail) + rest);
    }
    assert(spec_frames(tail) + rest == spec_frame(first.meta, first.payload) + behind) by {
        assert(tail[0] == first);
        assert(spec_frames(tail) + rest =~= spec_frame(first.meta, first.payload) + behind);
    }
    assert(first.meta.well_formed() && first.payload.len() == first.meta.length);
    lemma_read_frame(at, first.meta, first.payload, behind, 0);
}

/// A header is read back: its bytes pass the checks of the magic bytes and
/// of the guard byte, and hold the version.
pub proof fn lemma_header_roundtrip(header: Header)
    ensures
        spec_header_bytes(header).len() == 7,
        spec_header_ok(spec_header_bytes(header)),
        spec_u16_from_le(spec_header_bytes(header).subrange(4, 6)) == header.version,
{
    let s = spec_header_bytes(header);
    lemma_u16_roundtrip(header.version);
    assert(s.take(4) =~= spec_magic());
    assert(s.subrange(4, 6) =~= spec_u16_to_le(header.version));
}

/// A whole stream is read to its end. Behind the header of a stream of
/// conforming records that leave no container open, a reader gives every
/// record in order, whatever part of each payload its user reads; then it
/// gives the end of the stream once, having consumed exactly the bytes of
/// the stream, and reports no ancestors; asked again, it fails with
/// `IsEos`.
pub proof fn lemma_read_stream(header: Header, records: Seq<Framed>, takes: Seq<nat>)
    requires
        spec_conforming(records),
        spec_takes_fit(records, takes),
        spec_nesting(Seq::empty(), records).len() == 0,
    ensures
        ({
            let des = Deserialiser { options: DesOptions };
            let stream = spec_stream(header, records);
            let start = crate::reader::MsrfReader::<Deserialiser>::spec_fresh(stream.skip(7));
            let end = spec_read_all(start, records, takes);
            &&& stream.len() >= 7
            &&& spec_header_ok(stream.take(7))
            &&& spec_u16_from_le(stream.subrange(4, 6)) == header.version
            &&& spec_reads(start, records, takes)
            &&& end.read_record(des).result == Ok::<Option<RecordId>, IoError<ParserError>>(None)
            &&& end.read_record(des).next.remaining.len() == 0
            &&& end.read_record(des).next.finished
            &&& end.read_record(des).next.ancestors.len() == 0
            &&& end.read_record(des).next.read_record(des).result == Err::<
                Option<RecordId>,
                IoError<ParserError>,
            >(IoError::Parser(ParserError::IsEos))
        }),
{
    let stream = spec_stream(header, records);
    let head = spec_header_bytes(header);
    lemma_header_roundtrip(header);
    assert(stream.take(7) =~= head);
    assert(stream.subrange(4, 6) =~= head.subrange(4, 6));
    assert(stream.skip(7) =~= spec_frames(records) + spec_eos());
    let start = crate::reader::MsrfReader::<Deserialiser>::spec_fresh(stream.skip(7));
    lemma_read_frames(start, records, takes, spec_eos());
    let end = spec_read_all(start, records, takes);
    assert(spec_eos() =~= spec_eos() + Seq::<u8>::empty());
    lemma_read_eos(end, Seq::empty());
}

/// What a writer has written once a frame is complete. Whatever payload
/// bytes `data` went through the sink of a record, no more than its
/// metadata declares, the completed frame is the record's metadata, a
/// payload of exactly the declared length and the guard byte, behind what
/// was written before.
pub proof fn lemma_written_frame(w: WriterView, meta: RecordMeta, data: Seq<u8>)
    requires
        w.refusal(meta) is None,
        data.len() <= meta.length,
    ensures
        ({
            let ser = crate::codec::v0::Serialiser { options: crate::codec::SerOptions };
            let begun = w.begin(ser, meta);
            let sink = BoundedWriterView {
                written: begun.written + data,
                limit: (meta.length - data.len()) as u64,
                open: true,
            };
            &&& sink.closed() == w.closed() + spec_frame(meta, spec_fitted(data, meta.length))
            &&& spec_fitted(data, meta.length).len() == meta.length
        }),
{
    let ser = crate::codec::v0::Serialiser { options: crate::codec::SerOptions };
    let begun = w.begin(ser, meta);
    let sink = BoundedWriterView {
        written: begun.written + data,
        limit: (meta.length - data.len()) as u64,
        open: true,
    };
    let zeros = Seq::new((meta.length - data.len()) as nat, |i: int| 0u8);
    if data.len() == meta.length {
        assert(data.take(meta.length as int) =~= data);
        assert(data + zeros =~= data);
    }
    assert(sink.closed() =~= w.closed() + spec_frame(meta, spec_fitted(data, meta.length)));
}

/// A writer's state after the record `record` was written in one call.
pub open spec fn spec_write_one(w: WriterView, record: Framed) -> WriterView {
    let ser = crate::codec::v0::Serialiser { options: crate::codec::SerOptions };
    let begun = w.begin(ser, record.meta);
    WriterView {
        written: begun.written + spec_fitted(record.payload, record.meta.length) + seq![GUARD],
        owed: 0,
        in_frame: false,
        ..begun
    }
}

/// A writer's state after the records `records` were written, each in one
/// call.
pub open spec fn spec_write_all(w: WriterView, records: Seq<Framed>) -> WriterView
    decreases records.len(),
{
    if records.len() == 0 {
        w
    } else {
        spec_write_all(spec_write_one(w, records[0]), records.skip(1))
    }
}

/// Writing a run of records: a writer that is given conforming records
/// accepts them all and writes their frames, one behind the other, behind
/// what it had written, and keeps the container stack that the records
/// leave.
pub proof fn lemma_write_frames(w: WriterView, records: Seq<Framed>)
    requires
        !w.finished,
        spec_conforming(records),
    ensures
        forall|i: int| 0 <= i < records.len() ==> w.refusal((#[trigger] records[i]).meta) is None,
        spec_write_all(w, records).closed() == w.closed() + spec_frames(records),
        !spec_write_all(w, records).finished,
        spec_write_all(w, records).open == spec_nesting(w.open, records),
    decreases records.len(),
{
    if records.len() > 0 {
        let first = records[0];
        let tail = records.skip(1);
        let next = spec_write_one(w, first);
        assert(spec_fitted(first.payload, first.meta.length) =~= first.payload);
        assert forall|i: int| 0 <= i < tail.len() implies (#[trigger] tail[i]).meta.well_formed()
            && tail[i].payload.len() == tail[i].meta.length by {
            assert(tail[i] == records[i + 1]);
        }
        lemma_write_frames(next, tail);
        assert(next.closed() == next.written);
        assert(spec_write_all(w, records).closed() =~= w.closed() + spec_frames(records));
    } else {
        assert(w.closed() + spec_frames(records) =~= w.closed());
    }
}

/// What a writer writes, a reader reads. A writer that writes the header,
/// conforming records that leave no container open, and the end of the
/// stream has written exactly the stream of these records; and a reader of
/// that stream gives these records and then the end of the stream, as
/// `lemma_read_stream` says.
pub proof fn lemma_write_stream(records: Seq<Framed>)
    requires
        spec_conforming(records),
    ensures
        ({
            let ser = crate::codec::v0::Serialiser { options: crate::codec::SerOptions };
            let header = Header { version: crate::CURRENT_VERSION };
            let start = WriterView::fresh(spec_header_bytes(header));
            let end = spec_write_all(start, records).end(ser);
            &&& end.written == spec_stream(header, records)
            &&& end.finished
            &&& !end.in_frame
        }),
{
    let ser = crate::codec::v0::Serialiser { options: crate::codec::SerOptions };
    let header = Header { version: crate::CURRENT_VERSION };
    let start = WriterView::fresh(spec_header_bytes(header));
    lemma_write_frames(start, records);
    assert(start.closed() == start.written);
}

/// Whether a record opens no container: it is no container, or one
/// without children.
pub open spec fn spec_leaf(meta: RecordMeta) -> bool {
    !(meta.contained matches Some(c) && c > 0)
}

/// The children of a container are found one level below it. Behind a
/// container that states `k` children on the stack `stack`, each of the
/// next `k` records arrives with the container as its innermost ancestor,
/// one level deeper than the container itself, provided that none of these
/// records but the last opens a container of its own.
pub proof fn lemma_children_depth(
    stack: Seq<(u16, RecordId)>,
    container: RecordMeta,
    children: Seq<Framed>,
)
    requires
        container.contained matches Some(k) && k > 0 && children.len() == k,
        forall|j: int| 0 <= j < children.len() - 1 ==> spec_leaf((#[trigger] children[j]).meta),
    ensures
        forall|i: int|
            0 <= i < children.len() ==> {
                let arrival = #[trigger] spec_nesting(
                    spec_update(stack, container),
                    children.take(i),
                );
                &&& spec_ids(arrival).len() == spec_ids(stack).len() + 1
                &&& spec_ids(arrival).last() == spec_id(container)
                &&& spec_ids(arrival).drop_last() == spec_ids(stack)
            },
{
    let k = container.contained->0;
    assert forall|i: int| 0 <= i < children.len() implies {
        let arrival = #[trigger] spec_nesting(spec_update(stack, container), children.take(i));
        &&& spec_ids(arrival).len() == spec_ids(stack).len() + 1
        &&& spec_ids(arrival).last() == spec_id(container)
        &&& spec_ids(arrival).drop_last() == spec_ids(stack)
    } by {
        lemma_children_stack(stack, container, children, i);
        let arrival = spec_nesting(spec_update(stack, container), children.take(i));
        assert(arrival == stack.push(((k - i) as u16, spec_id(container))));
        assert(spec_ids(arrival).drop_last() =~= spec_ids(stack));
    }
}

/// A container closes behind its last child. Behind a container that
/// states `k` children, `k` records that open no containers of their own
/// leave the stack as one finished child leaves the stack around the
/// container: the container is one child of the container around it.
pub proof fn lemma_children_close(
    stack: Seq<(u16, RecordId)>,
    container: RecordMeta,
    children: Seq<Framed>,
)
    requires
        container.contained matches Some(k) && k > 0 && children.len() == k,
        forall|j: int| 0 <= j < children.len() ==> spec_leaf((#[trigger] children[j]).meta),
    ensures
        spec_nesting(spec_update(stack, container), children) == spec_child_done(stack),
{
    let k = container.contained->0 as int;
    let opened = spec_update(stack, container);
    lemma_children_stack(stack, container, children, k - 1);
    lemma_nesting_push(opened, children.take(k - 1), children[k - 1]);
    assert(children.take(k - 1).push(children[k - 1]) =~= children);
    let before = stack.push((1u16, spec_id(container)));
    assert(before.drop_last() =~= stack);
    assert(spec_update(before, children[k - 1].meta) == spec_child_done(before));
}

/// The container stack while the children of a container arrive: the
/// container is on top, owed the children that have not arrived.
pub proof fn lemma_children_stack(
    stack: Seq<(u16, RecordId)>,
    container: RecordMeta,
    children: Seq<Framed>,
    i: int,
)
    requires
        container.contained matches Some(k) && k > 0 && children.len() == k,
        0 <= i < children.len(),
        forall|j: int| 0 <= j < i ==> spec_leaf((#[trigger] children[j]).meta),
    ensures
        spec_nesting(spec_update(stack, container), children.take(i)) == stack.push(
            ((container.contained->0 - i) as u16, spec_id(container)),
        ),
    decreases i,
{
    let k = container.contained->0;
    let opened = spec_update(stack, container);
    if i == 0 {
        assert(children.take(0) =~= Seq::<Framed>::empty());
    } else {
        lemma_children_stack(stack, container, children, i - 1);
        lemma_nesting_push(opened, children.take(i - 1), children[i - 1]);
        assert(children.take(i - 1).push(children[i - 1]) =~= children.take(i));
        let before = stack.push(((k - (i - 1)) as u16, spec_id(container)));
        assert(before.drop_last() =~= stack);
        assert(spec_update(before, children[i - 1].meta) == spec_child_done(before));
    }
}

/// The container stack after a sequence of records and one more.
pub proof fn lemma_nesting_push(stack: Seq<(u16, RecordId)>, records: Seq<Framed>, last: Framed)
    ensures
        spec_nesting(stack, records.push(last)) == spec_update(
            spec_nesting(stack, records),
            last.meta,
        ),
    decreases records.len(),
{
    let all = records.push(last);
    if records.len() == 0 {
        assert(all.skip(1) =~= Seq::<Framed>::empty());
        assert(all[0] == last);
        assert(spec_nesting(spec_update(stack, last.meta), all.skip(1)) == spec_update(
            stack,
            last.meta,
        ));
        assert(spec_nesting(stack, all) == spec_update(stack, last.meta));
    } else {
        assert(all.skip(1) =~= records.skip(1).push(last));
        assert(all[0] == records[0]);
        lemma_nesting_push(spec_update(stack, records[0].meta), records.skip(1), last);
        assert(spec_nesting(stack, all) == spec_nesting(
            spec_update(stack, records[0].meta),
            all.skip(1),
        ));
    }
}

/// How many of the records `records`, read from the stack `stack` on,
/// arrive at the depth `depth`: with exactly `depth` containers open.
pub open spec fn spec_arrivals(stack: Seq<(u16, RecordId)>, records: Seq<Framed>, depth: nat) -> nat
    decreases records.len(),
{
    if records.len() == 0 {
        0
    } else {
        let before = records.drop_last();
        spec_arrivals(stack, before, depth) + if spec_nesting(stack, before).len() == depth {
            1nat
        } else {
            0nat
        }
    }
}

/// Whether more than `depth` containers are open all the while the records
/// `records` are read from the stack `stack` on: when each of them arrives
/// and behind the last.
pub open spec fn spec_open_throughout(
    stack: Seq<(u16, RecordId)>,
    records: Seq<Framed>,
    depth: nat,
) -> bool {
    forall|i: int|
        0 <= i <= records.len() ==> (#[trigger] spec_nesting(stack, records.take(i))).len() > depth
}

/// The children of a container, however they nest. A container that states
/// `k` children arrives on the stack `stack`, at the depth `d`, and any
/// records follow it. A record arrives on the stack that the records before
/// it leave, and the containers on that stack are the ancestors that a
/// reader reports for it, as `lemma_read_ancestors` says.
///
/// While the container is open, every record is inside it: its ancestors
/// begin with those of the container and the container itself. A record
/// that arrives at the depth `d + 1` is a child of the container and has it
/// as its innermost ancestor; what arrives deeper is inside a child. No more
/// than `k` children arrive, and where the next record is a child, fewer
/// than `k` have arrived before it.
///
/// When the container closes, exactly `k` children have arrived, and the
/// stack is what one finished child leaves of the stack around the
/// container: the record behind the last child arrives no deeper than the
/// container did.
pub proof fn lemma_children_nested(
    stack: Seq<(u16, RecordId)>,
    container: RecordMeta,
    records: Seq<Framed>,
)
    requires
        container.contained matches Some(k) && k > 0,
    ensures
        ({
            let d = stack.len();
            let k = container.contained->0;
            let opened = spec_update(stack, container);
            let arrival = spec_nesting(opened, records);
            let children = spec_arrivals(opened, records, d + 1);
            &&& spec_open_throughout(opened, records, d) ==> {
                &&& spec_ids(arrival).len() > d
                &&& spec_ids(arrival).take(d as int) == spec_ids(stack)
                &&& spec_ids(arrival)[d as int] == spec_id(container)
                &&& children <= k
                &&& spec_ids(arrival).len() == d + 1 ==> children < k && spec_ids(arrival).last()
                    == spec_id(container)
            }
            &&& records.len() > 0 && spec_open_throughout(opened, records.drop_last(), d)
                && arrival.len() <= d ==> {
                &&& children == k
                &&& arrival == spec_child_done(stack)
                &&& spec_child_done(stack).len() <= d
            }
        }),
{
    let d = stack.len();
    let opened = spec_update(stack, container);
    let arrival = spec_nesting(opened, records);
    if spec_open_throughout(opened, records, d) {
        lemma_children_open(stack, container, records);
        assert(spec_ids(arrival).take(d as int) =~= spec_ids(arrival.take(d as int)));
    }
    if records.len() > 0 && spec_open_throughout(opened, records.drop_last(), d) && arrival.len()
        <= d {
        let before = spec_nesting(opened, records.drop_last());
        lemma_children_open(stack, container, records.drop_last());
        lemma_nesting_push(opened, records.drop_last(), records.last());
        assert(records.drop_last().push(records.last()) =~= records);
        lemma_child_done_above(before, d);
    }
}

/// The container stack while a container is open: the stack around the
/// container is untouched, and the container is owed the children that
/// have not arrived, and one more while a child is itself open.
pub proof fn lemma_children_open(
    stack: Seq<(u16, RecordId)>,
    container: RecordMeta,
    records: Seq<Framed>,
)
    requires
        container.contained matches Some(k) && k > 0,
        spec_open_throughout(spec_update(stack, container), records, stack.len()),
    ensures
        ({
            let d = stack.len() as int;
            let arrival = spec_nesting(spec_update(stack, container), records);
            let children = spec_arrivals(spec_update(stack, container), records, stack.len() + 1);
            &&& arrival.len() > d
            &&& arrival.take(d) == stack
            &&& arrival[d].1 == spec_id(container)
            &&& arrival[d].0 >= 1
            &&& arrival[d].0 + children == container.contained->0 + if arrival.len() > d + 1 {
                1int
            } else {
                0int
            }
        }),
    decreases records.len(),
{
    let d = stack.len() as int;
    let opened = spec_update(stack, container);
    let arrival = spec_nesting(opened, records);
    assert(records.take(records.len() as int) =~= records);
    assert(arrival.len() > d);
    if records.len() == 0 {
        assert(arrival.take(d) =~= stack);
    } else {
        let earlier = records.drop_last();
        let last = records.last();
        assert forall|i: int| 0 <= i <= earlier.len() implies (#[trigger] spec_nesting(
            opened,
            earlier.take(i),
        )).len() > d by {
            assert(earlier.take(i) =~= records.take(i));
        }
        lemma_children_open(stack, container, earlier);
        lemma_nesting_push(opened, earlier, last);
        assert(earlier.push(last) =~= records);
        let before = spec_nesting(opened, earlier);
        assert(arrival == spec_update(before, last.meta));
        if spec_leaf(last.meta) {
            lemma_child_done_above(before, stack.len());
            if arrival.len() > d + 1 {
                assert(arrival.take(d) =~= arrival.take(d + 1).take(d));
                assert(before.take(d) =~= before.take(d + 1).take(d));
                assert(arrival[d] == arrival.take(d + 1)[d]);
                assert(before[d] == before.take(d + 1)[d]);
            } else {
                assert(arrival.take(d) =~= before.take(d));
            }
        } else {
            assert(arrival.take(d) =~= before.take(d));
        }
    }
}

/// One finished child on a stack that is deeper than `depth`: either the
/// stack stays deeper than `depth + 1` and is untouched up to that depth,
/// or the entry at `depth` is owed one child less, or that entry was owed
/// its last child and is closed like a finished child of the stack below.
pub proof fn lemma_child_done_above(stack: Seq<(u16, RecordId)>, depth: nat)
    requires
        stack.len() > depth,
    ensures
        ({
            let d = depth as int;
            let done = spec_child_done(stack);
            &&& done.len() <= stack.len()
            &&& done.len() > d + 1 ==> stack.len() > d + 1 && done.take(d + 1) == stack.take(d + 1)
            &&& done.len() == d + 1 ==> stack[d].0 > 1 && done == stack.take(d).push(
                ((stack[d].0 - 1) as u16, stack[d].1),
            )
            &&& done.len() <= d ==> stack[d].0 <= 1 && done == spec_child_done(stack.take(d))
        }),
    decreases stack.len(),
{
    let d = depth as int;
    let done = spec_child_done(stack);
    let below = stack.drop_last();
    lemma_child_done_len(stack);
    if stack.len() == d + 1 {
        assert(below =~= stack.take(d));
        lemma_child_done_len(below);
    } else if stack.last().0 <= 1 {
        lemma_child_done_above(below, depth);
        assert(below.take(d + 1) =~= stack.take(d + 1));
        assert(below.take(d) =~= stack.take(d));
    } else {
        assert(done.take(d + 1) =~= stack.take(d + 1));
    }
}

/// One finished child opens no container.
pub proof fn lemma_child_done_len(stack: Seq<(u16, RecordId)>)
    ensures
        spec_child_done(stack).len() <= stack.len(),
    decreases stack.len(),
{
    if stack.len() > 0 && stack.last().0 <= 1 {
        lemma_child_done_len(stack.drop_last());
    }
}

} // verus!
