use msrf::codec::v0::{Deserialiser, Serialiser};
use msrf::codec::AnySerialiser;
use msrf::error::{IoError, IoKind, ParserError};
use msrf::ext::{SourceAdd, SourceRemove};
use msrf::io::{BoundedWriter, RecordSink, SizedRecord};
use msrf::reader::MsrfReader;
use msrf::stream::MutByteStream;
use msrf::writer::{HeaderInit, IntoData, MsrfWriter, MsrfWriterBuilder};
use msrf::{AssignedId, IntoMetadata, RecordId, RecordMeta};

const HEADER: [u8; 7] = [b'M', b'S', b'R', b'F', 0x00, 0x00, 0x00];

fn writer() -> MsrfWriter<AnySerialiser, HeaderInit> {
    MsrfWriterBuilder::new()
        .build(Vec::new())
        .unwrap()
        .initialise()
        .unwrap()
}

#[test]
fn writer_writes_header_frames_and_eos() {
    let mut w = writer();
    assert_eq!(w.as_bytes(), &HEADER);
    {
        let mut sink = w.write_record(RecordMeta::new(1, 2, 3)).unwrap();
        assert_eq!(sink.limit(), 3);
        assert!(!sink.is_finished());
        assert_eq!(sink.write(&[0xA1, 0xA2, 0xA3]), 3);
        assert!(sink.is_finished());
        assert_eq!(sink.finish(), Ok(0));
    }
    w.finish().unwrap();
    assert!(w.is_finished());
    let mut expected = HEADER.to_vec();
    expected.extend_from_slice(&[0x01, 0x00, 0x02, 0x00, 0x07, 0xA1, 0xA2, 0xA3, 0x00]);
    expected.extend_from_slice(&[0xFF, 0xFF]);
    assert_eq!(w.into_inner(), expected);
}

#[test]
fn sink_pads_what_was_not_written_and_writes_the_guard() {
    let mut w = writer();
    {
        let mut sink = w.write_record(RecordMeta::new(1, 2, 5)).unwrap();
        assert_eq!(sink.write(&[0xA1, 0xA2]), 2);
        assert_eq!(sink.limit(), 3);
        // exactly declared_length - written zero bytes, then one guard byte
        assert_eq!(sink.finish(), Ok(3));
    }
    assert_eq!(
        &w.as_bytes()[7..],
        &[0x01, 0x00, 0x02, 0x00, 0x0B, 0xA1, 0xA2, 0x00, 0x00, 0x00, 0x00]
    );
}

#[test]
fn sink_clips_what_is_written_past_the_declared_length() {
    let mut w = writer();
    {
        let mut sink = w.write_record(RecordMeta::new(1, 2, 2)).unwrap();
        assert_eq!(sink.write(&[0xA1, 0xA2, 0xA3, 0xA4]), 2);
        assert_eq!(sink.write(&[0xA5]), 0);
        assert_eq!(sink.insert_u8(1), Err(msrf::error::CodecError::Needed(1)));
        assert_eq!(sink.insert_checked(&[1, 2]), Err(2));
        assert_eq!(sink.finish(), Ok(0));
    }
    assert_eq!(&w.as_bytes()[7..], &[0x01, 0x00, 0x02, 0x00, 0x05, 0xA1, 0xA2, 0x00]);
}

#[test]
fn a_sink_that_is_let_go_is_completed_by_the_writer() {
    let mut w = writer();
    {
        let mut sink = w.write_record(RecordMeta::new(1, 2, 4)).unwrap();
        assert_eq!(sink.write(&[0xA1]), 1);
        // let go without finish
    }
    {
        let _ = w.write_record(RecordMeta::new(3, 4, 0)).unwrap();
    }
    w.finish().unwrap();
    assert_eq!(
        &w.as_bytes()[7..],
        &[
            0x01, 0x00, 0x02, 0x00, 0x09, 0xA1, 0x00, 0x00, 0x00, 0x00, // padded, guard
            0x03, 0x00, 0x04, 0x00, 0x01, 0x00, // empty payload, guard
            0xFF, 0xFF,
        ]
    );
}

#[test]
fn sink_takes_bytes_through_the_stream_interface() {
    let mut dst = BoundedWriter::new(vec![0xEE]);
    dst.begin(7);
    {
        let mut sink = RecordSink::new(&mut dst);
        sink.insert_u16(0x0201).unwrap();
        sink.insert([3u8, 4]).unwrap();
        sink.insert_varint(0xFF).unwrap();
        sink.insert_slice(&[7]);
        assert_eq!(sink.insert_array_checked([8u8]), Err(1));
        assert_eq!(sink.limit(), 0);
        assert_eq!(sink.finish(), Ok(0));
    }
    assert_eq!(dst.as_bytes(), &[0xEE, 1, 2, 3, 4, 0xFE, 0x03, 7, 0x00]);
    // without an open frame nothing is written
    assert_eq!(dst.finish(), 0);
    dst.put(&[0x55]);
    assert_eq!(dst.write(&[1, 2, 3]), 0);
    assert_eq!(dst.into_inner(), [0xEE, 1, 2, 3, 4, 0xFE, 0x03, 7, 0x00, 0x55]);
}

#[test]
fn writer_refuses_eos_records_and_writes_after_finish() {
    let mut w = writer();
    assert_eq!(
        w.write_record(RecordMeta::new_eos()).err(),
        Some(IoError::Parser(ParserError::UnexpectedEos))
    );
    assert_eq!(
        w.write_record(RecordMeta::new(0xFFFF, 1, 1)).err(),
        Some(IoError::Parser(ParserError::UnexpectedEos))
    );
    assert_eq!(w.as_bytes(), &HEADER);
    assert_eq!(w.finish(), Ok(()));
    assert_eq!(w.finish(), Err(IoError::Parser(ParserError::IsEos)));
    assert_eq!(
        w.write_record(RecordMeta::new(1, 1, 1)).err(),
        Some(IoError::Parser(ParserError::IsEos))
    );
    assert_eq!(
        w.write_record_bytes(RecordMeta::new(1, 1, 1), &[1]),
        Err(IoError::Parser(ParserError::IsEos))
    );
    assert_eq!(
        w.write_record_from(&SourceRemove::new(1), 1),
        Err(IoError::Parser(ParserError::IsEos))
    );
    assert_eq!(w.into_inner().len(), 9);
}

#[test]
fn writer_builder_knows_the_versions() {
    assert!(MsrfWriterBuilder::new().version(0).is_some());
    assert!(MsrfWriterBuilder::new().version(1).is_none());
    assert!(MsrfWriterBuilder::default().version(u16::MAX).is_none());
    assert!(MsrfWriter::<AnySerialiser, HeaderInit>::builder().build(Vec::new()).is_ok());
    let w = MsrfWriterBuilder::new().build_with(vec![1, 2], Serialiser::default());
    assert_eq!(w.serialiser(), &Serialiser::default());
    let w = w.initialise().unwrap();
    assert_eq!(&w.as_bytes()[..2], &[1, 2]);
    assert_eq!(&w.as_bytes()[2..], &HEADER);
}

#[test]
fn write_record_bytes_fits_the_payload_to_the_declared_length() {
    let mut w = writer();
    w.write_record_bytes(RecordMeta::new(1, 2, 3), &[0xA1]).unwrap();
    w.write_record_bytes(RecordMeta::new(1, 2, 1), &[0xB1, 0xB2]).unwrap();
    w.write_record_bytes(RecordMeta::new(1, 2, 2), &[0xC1, 0xC2]).unwrap();
    assert_eq!(
        &w.as_bytes()[7..],
        &[
            0x01, 0x00, 0x02, 0x00, 0x07, 0xA1, 0x00, 0x00, 0x00, //
            0x01, 0x00, 0x02, 0x00, 0x03, 0xB1, 0x00, //
            0x01, 0x00, 0x02, 0x00, 0x05, 0xC1, 0xC2, 0x00,
        ]
    );
}

struct Liar;

impl AssignedId for Liar {
    fn typ_id(&self) -> u16 {
        9
    }
}

impl SizedRecord<AnySerialiser> for Liar {
    fn encoded_len(&self, _ser: &AnySerialiser) -> usize {
        2
    }
}

impl IntoMetadata<AnySerialiser> for Liar {}

impl IntoData<AnySerialiser> for Liar {
    fn encode_into(
        &self,
        wtr: &mut Vec<u8>,
        _ser: &AnySerialiser,
        source_id: u16,
    ) -> Result<(), IoError<ParserError>> {
        if source_id == 13 {
            return Err(IoError::Io(IoKind::InvalidData));
        }
        wtr.extend_from_slice(&[1, 2, 3, 4, 5]);
        Ok(())
    }
}

#[test]
fn a_record_that_reports_a_wrong_length_is_framed_all_the_same() {
    let mut w = writer();
    w.write_record_from(&Liar, 1).unwrap();
    assert_eq!(&w.as_bytes()[7..], &[0x01, 0x00, 0x09, 0x00, 0x05, 1, 2, 0x00]);
    // an error of the record's own encoder is passed on and writes nothing
    assert_eq!(w.write_record_from(&Liar, 13), Err(IoError::Io(IoKind::InvalidData)));
    assert_eq!(w.as_bytes().len(), 7 + 8);
    w.finish().unwrap();

    let bytes = w.into_inner();
    let mut reader = MsrfReader::new(&bytes[7..], Deserialiser::default());
    let (id, mut chunk) = reader.read_record().unwrap().unwrap();
    assert_eq!(id, RecordId::new(1, 9));
    assert_eq!(chunk.read_to_end(), &[1, 2]);
    assert!(reader.read_record().unwrap().is_none());
}

#[test]
fn writer_reports_the_containers_that_are_open() {
    let mut w = writer();
    assert_eq!(w.current_parent(), None);
    assert_eq!(w.parents(), vec![]);
    {
        let sink = w.write_record(RecordMeta::new_container(3, 7, 0, 2)).unwrap();
        assert_eq!(sink.limit(), 0);
    }
    // a container that was just written is open
    assert_eq!(w.current_parent(), Some(RecordId::new(3, 7)));
    assert_eq!(w.parents(), vec![RecordId::new(3, 7)]);
    drop(w.write_record(RecordMeta::new_container(3, 8, 0, 1)).unwrap());
    assert_eq!(w.current_parent(), Some(RecordId::new(3, 8)));
    assert_eq!(w.parents(), vec![RecordId::new(3, 8), RecordId::new(3, 7)]);
    // the only child of the inner container closes it, and with it the
    // first child of the outer one is done
    w.write_record_from(&SourceRemove::new(1), 3).unwrap();
    assert_eq!(w.current_parent(), Some(RecordId::new(3, 7)));
    assert_eq!(w.parents(), vec![RecordId::new(3, 7)]);
    w.write_record_from(&SourceRemove::new(2), 3).unwrap();
    assert_eq!(w.current_parent(), None);
    assert_eq!(w.parents(), vec![]);
    // outside any container a record opens and closes nothing
    w.write_record_from(&SourceRemove::new(3), 3).unwrap();
    assert_eq!(w.current_parent(), None);
    w.finish().unwrap();
    assert_eq!(w.current_parent(), None);
}

#[test]
fn writer_top_level_container_is_the_current_parent() {
    let mut w = writer();
    drop(w.write_record(RecordMeta::new_container(3, 7, 0, 2)).unwrap());
    assert_eq!(w.current_parent(), Some(RecordId::new(3, 7)));
    let bytes = w.into_inner();
    assert_eq!(&bytes[7..], &[0x03, 0x00, 0x07, 0x80, 0x01, 0x02, 0x00, 0x00]);
}

#[test]
fn writer_empty_container_opens_nothing() {
    let mut w = writer();
    drop(w.write_record(RecordMeta::new_container(3, 7, 0, 0)).unwrap());
    assert_eq!(w.current_parent(), None);
    assert_eq!(w.parents(), vec![]);
}

#[test]
fn typed_write_succeeds_unless_the_writer_or_the_record_refuses() {
    let mut w = writer();
    assert_eq!(w.write_record_from(&SourceAdd::new(32, 1, "pxls.space"), 1), Ok(()));
    assert_eq!(w.as_bytes().len(), 7 + 20);
    assert_eq!(w.write_record_from(&SourceRemove::new(32), 1), Ok(()));
    assert_eq!(&w.as_bytes()[27..], &[0x01, 0x00, 0x01, 0x00, 0x05, 0x20, 0x00, 0x00]);
    // the record refuses
    assert_eq!(w.write_record_from(&Liar, 13), Err(IoError::Io(IoKind::InvalidData)));
    // the writer refuses: an end-of-stream source id, then a finished stream
    assert_eq!(
        w.write_record_from(&SourceRemove::new(32), 0xFFFF),
        Err(IoError::Parser(ParserError::UnexpectedEos))
    );
    w.finish().unwrap();
    assert_eq!(
        w.write_record_from(&SourceRemove::new(32), 1),
        Err(IoError::Parser(ParserError::IsEos))
    );
    assert_eq!(w.as_bytes().len(), 7 + 20 + 8 + 2);
}

#[test]
fn write_record_with_and_write_container_compose_the_metadata() {
    let mut w = writer();
    let add = SourceAdd::new(32, 1, "pxls.space");
    {
        let sink = w.write_container(&add, 3, 1).unwrap();
        assert_eq!(sink.limit(), 14);
        assert_eq!(sink.finish(), Ok(14));
    }
    {
        let sink = w.write_record_with(&SourceRemove::new(1), RecordId::new(3, 1)).unwrap();
        assert_eq!(sink.limit(), 2);
    }
    w.finish().unwrap();
    let bytes = w.into_inner();
    assert_eq!(&bytes[7..14], &[0x03, 0x00, 0x00, 0x80, 0x1D, 0x01, 0x00]);
    assert_eq!(&bytes[14..29], &[0u8; 15]);
    assert_eq!(&bytes[29..], &[0x03, 0x00, 0x01, 0x00, 0x05, 0x00, 0x00, 0x00, 0xFF, 0xFF]);

    let mut w = writer();
    w.finish().unwrap();
    assert_eq!(
        w.write_record_with(&add, RecordId::new(1, 0)).err(),
        Some(IoError::Parser(ParserError::IsEos))
    );
    assert_eq!(
        w.write_container(&add, 1, 1).err(),
        Some(IoError::Parser(ParserError::IsEos))
    );
}

#[test]
fn what_the_writer_writes_the_reader_reads() {
    let payloads: [&[u8]; 4] = [&[], &[1], &[2, 3, 4], &[5; 200]];
    let mut w = writer();
    for (i, p) in payloads.iter().enumerate() {
        w.write_record_bytes(RecordMeta::new(i as u16, 100 + i as u16, p.len() as u64), p)
            .unwrap();
    }
    w.finish().unwrap();
    let bytes = w.into_inner();

    let mut reader = MsrfReader::new_unknown(&bytes).initialise().unwrap();
    for (i, p) in payloads.iter().enumerate() {
        let (id, mut chunk) = reader.read_record().unwrap().unwrap();
        assert_eq!(id, RecordId::new(i as u16, 100 + i as u16));
        assert_eq!(chunk.len(), p.len() as u64);
        assert_eq!(chunk.read_to_end(), *p);
    }
    assert!(reader.read_record().unwrap().is_none());
    // the reader has consumed exactly the stream
    assert_eq!(reader.into_inner().len(), 0);
}
