use msrf::codec::v0::Deserialiser;
use msrf::codec::{read_header, write_header, AnySerialiser};
use msrf::error::{IoError, ParserError};
use msrf::ext::codec::v0::Deserialiser as ExtDeserialiser;
use msrf::ext::codec::RawDeserialiser;
use msrf::ext::{Source, SourceAdd, SourceRegistrar, SourceRemove};
use msrf::reader::MsrfReader;
use msrf::writer::{HeaderInit, MsrfWriter, MsrfWriterBuilder};
use msrf::{Header, RecordId, RecordMeta};

fn writer() -> MsrfWriter<AnySerialiser, HeaderInit> {
    MsrfWriterBuilder::new()
        .build(Vec::new())
        .unwrap()
        .initialise()
        .unwrap()
}

#[test]
fn scenario_header_round_trip() {
    let mut bytes = Vec::new();
    write_header(&mut bytes, Header { version: 3 }).unwrap();
    assert_eq!(bytes, [0x4D, 0x53, 0x52, 0x46, 0x03, 0x00, 0x00]);
    let array: [u8; 7] = bytes.as_slice().try_into().unwrap();
    assert_eq!(read_header(&array), Ok(Header { version: 3 }));
}

#[test]
fn scenario_single_source_add() {
    let mut w = writer();
    w.write_record_from(&SourceAdd::new(32, 1, "pxls.space"), 1).unwrap();
    let mut frame = vec![0x01, 0x00, 0x00, 0x00, 0x1D, 0x20, 0x00, 0x01, 0x00];
    frame.extend_from_slice(b"pxls.space");
    frame.push(0x00);
    assert_eq!(&w.as_bytes()[7..], frame.as_slice());

    frame.extend_from_slice(&[0xFF, 0xFF]);
    let mut reader = MsrfReader::new(&frame, Deserialiser::default());
    {
        let (id, mut chunk) = reader.read_record().unwrap().unwrap();
        assert_eq!(id, RecordId::new(1, 0));
        assert_eq!(chunk.len(), 14);
        assert_eq!(
            ExtDeserialiser.read_source_add(&mut chunk),
            Ok(SourceAdd::new(32, 1, "pxls.space"))
        );
        assert_eq!(chunk.len(), 0);
    }
    // the next reader operation consumes the guard
    assert!(reader.read_record().unwrap().is_none());
    assert_eq!(reader.into_inner().len(), 0);
}

#[test]
fn scenario_source_remove() {
    let mut w = writer();
    w.write_record_from(&SourceRemove::new(32), 1).unwrap();
    let frame = [0x01, 0x00, 0x01, 0x00, 0x05, 0x20, 0x00, 0x00];
    assert_eq!(&w.as_bytes()[7..], &frame);

    let mut reader = MsrfReader::new(&frame, Deserialiser::default());
    let (id, mut chunk) = reader.read_record().unwrap().unwrap();
    assert_eq!(id, RecordId::new(1, 1));
    assert_eq!(chunk.len(), 2);
    assert_eq!(ExtDeserialiser.read_source_remove(&mut chunk), Ok(SourceRemove::new(32)));
}

#[test]
fn scenario_container_of_two_children() {
    let mut w = writer();
    drop(w.write_record(RecordMeta::new_container(3, 0x8000 | 7, 0, 2)).unwrap());
    assert_eq!(w.current_parent(), Some(RecordId::new(3, 0x8000 | 7)));
    w.write_record_from(&SourceAdd::new(1, 1, "a"), 3).unwrap();
    w.write_record_from(&SourceAdd::new(2, 1, "b"), 3).unwrap();
    w.finish().unwrap();
    let bytes = w.into_inner();
    assert_eq!(&bytes[7..15], &[0x03, 0x00, 0x07, 0x80, 0x01, 0x02, 0x00, 0x00]);

    let container = RecordId::new(3, 7);
    let mut reader = MsrfReader::new_unknown(&bytes).initialise().unwrap();

    assert_eq!(reader.read_record().unwrap().unwrap().0, container);
    // the container itself is outside the container
    assert_eq!(reader.current_parent(), None);

    let mut children = 0;
    loop {
        let id = match reader.read_record().unwrap() {
            Some((id, _)) => id,
            None => break,
        };
        assert_eq!(id, RecordId::new(3, 0));
        assert_eq!(reader.parents(), vec![container]);
        assert_eq!(reader.current_parent(), Some(container));
        children += 1;
    }
    // the end of the stream is reached after exactly two children
    assert_eq!(children, 2);
    assert!(reader.is_finished());
    // at the end of the stream no container is open
    assert_eq!(reader.parents(), vec![]);
    assert_eq!(reader.current_parent(), None);
}

#[test]
fn scenario_records_outside_a_container_have_no_parent() {
    let mut w = writer();
    w.write_record_from(&SourceRemove::new(1), 3).unwrap();
    drop(w.write_record(RecordMeta::new_container(3, 7, 0, 1)).unwrap());
    w.write_record_from(&SourceRemove::new(2), 3).unwrap();
    w.write_record_from(&SourceRemove::new(3), 3).unwrap();
    w.finish().unwrap();
    let bytes = w.into_inner();

    let mut reader = MsrfReader::new_unknown(&bytes).initialise().unwrap();
    assert!(reader.read_record().unwrap().is_some());
    assert_eq!(reader.current_parent(), None);
    assert!(reader.read_record().unwrap().is_some());
    assert_eq!(reader.current_parent(), None);
    assert!(reader.read_record().unwrap().is_some());
    assert_eq!(reader.current_parent(), Some(RecordId::new(3, 7)));
    assert!(reader.read_record().unwrap().is_some());
    assert_eq!(reader.current_parent(), None);
    assert!(reader.read_record().unwrap().is_none());
}

#[test]
fn scenario_registrar_id_reuse() {
    let mut registrar = SourceRegistrar::new();
    assert_eq!(registrar.register("a", 1), Ok(1));
    assert_eq!(registrar.register("b", 2), Ok(2));
    assert_eq!(registrar.remove_by_id(1), Some(Source::new("a", 1)));
    assert_eq!(registrar.register("c", 3), Ok(1));
    assert_eq!(registrar.get_by_id(1), Some(&Source::new("c", 3)));
    assert_eq!(registrar.get_by_id(2), Some(&Source::new("b", 2)));
}

#[test]
fn scenario_premature_eos_inside_a_container() {
    let mut w = writer();
    drop(w.write_record(RecordMeta::new_container(3, 7, 0, 2)).unwrap());
    w.write_record_from(&SourceRemove::new(1), 3).unwrap();
    w.finish().unwrap();
    let bytes = w.into_inner();

    let mut reader = MsrfReader::new_unknown(&bytes).initialise().unwrap();
    assert_eq!(reader.read_record().unwrap().unwrap().0, RecordId::new(3, 7));
    assert_eq!(reader.read_record().unwrap().unwrap().0, RecordId::new(3, 1));
    assert_eq!(
        reader.read_record().err(),
        Some(IoError::Parser(ParserError::UnexpectedEos))
    );
}
