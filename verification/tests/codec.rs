use msrf::codec::v0::{Deserialiser, Serialiser};
use msrf::codec::{
    read_header, write_header, AnyDeserialiser, AnySerialiser, DesOptions, RawDeserialiser,
    RawSerialiser, SerOptions, HEADER_LEN, MAGIC_BYTES,
};
use msrf::error::{IoError, IoKind, ParserError};
use msrf::{Header, RecordMeta, RECORD_EOS, TYPE_CONTAINER_MASK};

const REF_HEADER: Header = Header { version: 3 };

fn ref_header_bytes() -> [u8; HEADER_LEN] {
    let mut bytes = [0u8; HEADER_LEN];
    bytes[..4].copy_from_slice(&MAGIC_BYTES); // Magic bytes
    bytes[4..6].copy_from_slice(&[3_u8, 0_u8]); // Version
    bytes[6] = 0x00; // Guard
    bytes
}

const REF_RECORD_META: RecordMeta = RecordMeta {
    source_id: 16,
    type_id: 32,
    length: 6,
    contained: None,
};

const REF_RECORD_META_CONTAINER: RecordMeta = RecordMeta {
    source_id: 16,
    type_id: 32,
    length: 6,
    contained: Some(5),
};

fn ref_record_meta_bytes() -> Vec<u8> {
    let mut bytes = Vec::new();
    bytes.extend_from_slice(&16_u16.to_le_bytes()); // Source ID
    bytes.extend_from_slice(&32_u16.to_le_bytes()); // Type ID
    bytes.extend_from_slice(&[0b1101_u8]); // Length: PV(6)
    bytes
}

fn ref_record_meta_container_bytes() -> Vec<u8> {
    let mut bytes = Vec::new();
    bytes.extend_from_slice(&16_u16.to_le_bytes()); // Source ID
    bytes.extend_from_slice(&(32_u16 | TYPE_CONTAINER_MASK).to_le_bytes()); // Type ID
    bytes.extend_from_slice(&[0b1101_u8]); // Length: PV(6)
    bytes.extend_from_slice(&5_u16.to_le_bytes()); // Contained
    bytes
}

#[test]
fn des_header() {
    let header = read_header(&ref_header_bytes()).expect("failed parse");
    assert_eq!(header, REF_HEADER);
}

#[test]
fn des_header_invalid_magic() {
    let mut invalid_bytes = ref_header_bytes();
    let invalid_magic = b"BAD!";
    invalid_bytes[..4].copy_from_slice(invalid_magic);

    let header = read_header(&invalid_bytes).expect_err("succeeded parse");
    assert_eq!(header, ParserError::MagicBytes(*invalid_magic));
}

#[test]
fn des_header_invalid_guard() {
    let mut invalid_bytes = ref_header_bytes();
    let invalid_guard = 42;
    invalid_bytes[6] = invalid_guard;

    let header = read_header(&invalid_bytes).expect_err("succeeded parse");
    assert_eq!(header, ParserError::Guard(invalid_guard));
}

#[test]
fn serdes_record() {
    let des = Deserialiser::default();
    let ser = Serialiser::default();
    let mut buf = Vec::new();

    ser.write_meta(REF_RECORD_META, &mut buf).expect("ser fail");
    assert_eq!(buf, ref_record_meta_bytes());
    assert_eq!(buf.len(), 5);

    let mut rdr = buf.as_slice();
    let meta = des.read_meta(&mut rdr).expect("des fail");
    assert_eq!(meta, REF_RECORD_META);
    assert_eq!(buf.len() - rdr.len(), buf.len());
}

#[test]
fn serdes_record_eos() {
    let des = Deserialiser::default();
    let ser = Serialiser::default();
    let mut buf = Vec::new();

    ser.write_meta(RecordMeta::new_eos(), &mut buf).expect("ser fail");
    assert_eq!(&buf, &RECORD_EOS.to_le_bytes());
    assert_eq!(buf.len(), 2);

    let mut rdr = buf.as_slice();
    let meta = des.read_meta(&mut rdr).expect("des fail");
    assert_eq!(meta, RecordMeta::new_eos());
    assert_eq!(buf.len() - rdr.len(), buf.len());
}

#[test]
fn serdes_record_container() {
    let des = Deserialiser::default();
    let ser = Serialiser::default();
    let mut buf = Vec::new();

    ser.write_meta(REF_RECORD_META_CONTAINER, &mut buf).expect("ser fail");
    assert_eq!(buf, ref_record_meta_container_bytes());
    assert_eq!(buf.len(), 7);

    let mut rdr = buf.as_slice();
    let meta = des.read_meta(&mut rdr).expect("des fail");
    assert_eq!(meta, REF_RECORD_META_CONTAINER);
    assert_eq!(buf.len() - rdr.len(), buf.len());
}

#[test]
fn header_checks_the_magic_before_the_guard() {
    let mut bytes = ref_header_bytes();
    bytes[0] = b'X';
    bytes[6] = 9;
    assert_eq!(read_header(&bytes), Err(ParserError::MagicBytes(*b"XSRF")));
}

#[test]
fn header_is_written_as_magic_version_guard() {
    let mut out = vec![0xEE];
    write_header(&mut out, Header::new(0x0102)).unwrap();
    assert_eq!(out, [0xEE, b'M', b'S', b'R', b'F', 0x02, 0x01, 0x00]);
}

#[test]
fn meta_with_a_long_length_uses_a_long_varint() {
    let ser = Serialiser::default();
    let des = Deserialiser::default();
    let meta = RecordMeta::new(0x0102, 0x0304, u64::MAX);
    let mut buf = Vec::new();
    ser.write_meta(meta, &mut buf).unwrap();
    assert_eq!(
        buf,
        [0x02, 0x01, 0x04, 0x03, 0x00, 0xFF, 0xFF, 0xFF, 0xFF, 0xFF, 0xFF, 0xFF, 0xFF]
    );
    let mut rdr = buf.as_slice();
    assert_eq!(des.read_meta(&mut rdr), Ok(meta));
    assert!(rdr.is_empty());
}

#[test]
fn container_flag_on_the_wire_follows_the_child_count() {
    let ser = Serialiser::default();
    let des = Deserialiser::default();

    // the flag in the type id of a record without a child count is not written
    let mut buf = Vec::new();
    ser.write_meta(RecordMeta::new(1, 0x8007, 0), &mut buf).unwrap();
    assert_eq!(buf, [0x01, 0x00, 0x07, 0x00, 0x01]);
    let mut rdr = buf.as_slice();
    assert_eq!(des.read_meta(&mut rdr), Ok(RecordMeta::new(1, 7, 0)));

    // a child count sets the flag, also for an empty container
    let mut buf = Vec::new();
    ser.write_meta(RecordMeta::new_container(1, 7, 0, 0), &mut buf).unwrap();
    assert_eq!(buf, [0x01, 0x00, 0x07, 0x80, 0x01, 0x00, 0x00]);
    let mut rdr = buf.as_slice();
    assert_eq!(des.read_meta(&mut rdr), Ok(RecordMeta::new_container(1, 7, 0, 0)));
}

#[test]
fn short_metadata_is_a_short_read() {
    let des = Deserialiser::default();
    let short = |k| Err(IoError::Io(IoKind::UnexpectedEof(k)));

    let mut rdr: &[u8] = &[];
    assert_eq!(des.read_meta(&mut rdr), short(2));
    let mut rdr: &[u8] = &[0x01];
    assert_eq!(des.read_meta(&mut rdr), short(1));
    let mut rdr: &[u8] = &[0x01, 0x00, 0x07];
    assert_eq!(des.read_meta(&mut rdr), short(1));
    assert_eq!(rdr, &[0x07]);
    let mut rdr: &[u8] = &[0x01, 0x00, 0x07, 0x00];
    assert_eq!(des.read_meta(&mut rdr), short(1));
    // the varint announces 3 bytes
    let mut rdr: &[u8] = &[0x01, 0x00, 0x07, 0x00, 0x04];
    assert_eq!(des.read_meta(&mut rdr), short(2));
    // the child count of a container is missing
    let mut rdr: &[u8] = &[0x01, 0x00, 0x07, 0x80, 0x01, 0x02];
    assert_eq!(des.read_meta(&mut rdr), short(1));
}

#[test]
fn eos_is_its_source_id_alone() {
    let des = Deserialiser::default();
    let mut rdr: &[u8] = &[0xFF, 0xFF, 0x55, 0x66];
    assert_eq!(des.read_meta(&mut rdr), Ok(RecordMeta::new_eos()));
    assert_eq!(rdr, &[0x55, 0x66]);

    // an end-of-stream marker carries nothing of the metadata
    let ser = Serialiser::default();
    let mut buf = Vec::new();
    ser.write_meta(RecordMeta::new(RECORD_EOS, 5, 9), &mut buf).unwrap();
    assert_eq!(buf, [0xFF, 0xFF]);
}

#[test]
fn any_codec_dispatches_by_version() {
    assert_eq!(
        AnySerialiser::new(0, SerOptions),
        Some(AnySerialiser::V0(Serialiser::default()))
    );
    assert_eq!(AnySerialiser::new(1, SerOptions), None);
    assert_eq!(
        AnySerialiser::new_default(0),
        Some(AnySerialiser::V0(Serialiser::from(SerOptions)))
    );
    assert_eq!(AnySerialiser::new_default(u16::MAX), None);
    assert_eq!(
        AnyDeserialiser::new(0, DesOptions),
        Some(AnyDeserialiser::V0(Deserialiser::default()))
    );
    assert_eq!(AnyDeserialiser::new(1, DesOptions), None);
    assert_eq!(
        AnyDeserialiser::new_default(0),
        Some(AnyDeserialiser::V0(Deserialiser::from(DesOptions)))
    );
    assert_eq!(AnyDeserialiser::new_default(7), None);

    let ser = AnySerialiser::new_default(0).unwrap();
    let des = AnyDeserialiser::new_default(0).unwrap();
    let mut buf = Vec::new();
    ser.write_meta(REF_RECORD_META_CONTAINER, &mut buf).unwrap();
    assert_eq!(buf, ref_record_meta_container_bytes());
    let mut rdr = buf.as_slice();
    assert_eq!(des.read_meta(&mut rdr), Ok(REF_RECORD_META_CONTAINER));
}

#[test]
fn encoded_meta_len_counts_ids_and_varint() {
    let ser = Serialiser::default();
    assert_eq!(ser.encoded_meta_len(0), 5);
    assert_eq!(ser.encoded_meta_len(127), 5);
    assert_eq!(ser.encoded_meta_len(128), 6);
    assert_eq!(AnySerialiser::new_default(0).unwrap().encoded_meta_len(16384), 7);
}
