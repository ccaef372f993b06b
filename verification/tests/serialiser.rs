use msrf::error::CodecError;
use msrf::serialiser::{Serialiser, SerialiserBuilder};
use msrf::stream::{ByteStream, IoCounter, MutByteStream};
use msrf::{Header, RecordMeta};

const VERSION_TABLE: &[(u8, u8)] = &[(0, 0)];
const CURRENT_VERSION: (u8, u8) = (0, 0);

#[test]
fn serialiser_invalid_major() {
    let invalid_major = CURRENT_VERSION.0 + 1;
    let res = Serialiser::builder()
        .with_version(invalid_major.into())
        .build();
    assert!(res.is_none());
}

#[test]
fn serialiser_build() {
    for version in VERSION_TABLE {
        let major = version.0;
        let res = Serialiser::builder().with_version(major.into()).build();
        assert!(
            res.is_some(),
            "expected serialiser for version `{}.{}`",
            version.0,
            version.1
        );
    }
}

fn serialiser() -> Serialiser {
    SerialiserBuilder::default().build().unwrap()
}

#[test]
fn buffer_header_round_trip() {
    let ser = serialiser();
    let mut buf = [0xEE; 9];
    assert_eq!(ser.serialise_header(&mut buf, &Header::new(3)), Ok(7));
    assert_eq!(buf, [0x4D, 0x53, 0x52, 0x46, 0x03, 0x00, 0x00, 0xEE, 0xEE]);
    assert_eq!(ser.deserialise_header(&buf), Ok((Header::new(3), 7)));
}

#[test]
fn buffer_header_errors() {
    let ser = serialiser();
    let mut small = [0xEE; 5];
    assert_eq!(
        ser.serialise_header(&mut small, &Header::new(3)),
        Err(CodecError::Needed(2))
    );
    assert_eq!(small, [0xEE; 5]);
    assert_eq!(ser.deserialise_header(&small), Err(CodecError::Needed(2)));

    let bad_magic = *b"BAD!\0\0\0";
    assert_eq!(
        ser.deserialise_header(&bad_magic),
        Err(CodecError::MagicByte(*b"BAD!"))
    );
    let bad_guard = *b"MSRF\0\0\x2a";
    assert_eq!(ser.deserialise_header(&bad_guard), Err(CodecError::Guard(0x2A)));
}

#[test]
fn buffer_meta_round_trip() {
    let ser = serialiser();
    let metas = [
        RecordMeta::new(16, 32, 6),
        RecordMeta::new_container(16, 32, 6, 5),
        RecordMeta::new(1, 2, u64::MAX),
        RecordMeta::new_container(1, 2, 300, 0),
    ];
    let lens = [5, 7, 13, 8];
    for (meta, len) in metas.iter().zip(lens) {
        let mut buf = [0xEE; 16];
        assert_eq!(ser.serialise_record_meta(&mut buf, meta), Ok(len));
        assert_eq!(&buf[len..], &[0xEE; 16][len..]);
        assert_eq!(ser.deserialise_record_meta(&buf), Ok((*meta, len)));

        // a buffer that is one byte short is left alone
        let mut short = vec![0xEE; len - 1];
        assert_eq!(
            ser.serialise_record_meta(&mut short, meta),
            Err(CodecError::Needed(1))
        );
        assert_eq!(short, vec![0xEE; len - 1]);
    }
    let mut buf = [0xEE; 5];
    assert_eq!(ser.serialise_record_meta(&mut buf, &metas[0]), Ok(5));
    assert_eq!(buf, [0x10, 0x00, 0x20, 0x00, 0x0D]);
}

#[test]
fn buffer_eos() {
    let ser = serialiser();
    let mut buf = [0xEE; 3];
    assert_eq!(ser.serialise_record_eos(&mut buf), Ok(2));
    assert_eq!(buf, [0xFF, 0xFF, 0xEE]);
    assert_eq!(ser.deserialise_record_meta(&buf), Ok((RecordMeta::new_eos(), 2)));
    let mut small = [0xEE; 1];
    assert_eq!(ser.serialise_record_eos(&mut small), Err(CodecError::Needed(1)));
    assert_eq!(ser.deserialise_record_meta(&small), Err(CodecError::Needed(1)));
}

#[test]
fn buffer_meta_reports_what_is_missing() {
    let ser = serialiser();
    // a varint that announces 3 bytes and has 1
    assert_eq!(
        ser.deserialise_record_meta(&[0x01, 0x00, 0x02, 0x00, 0x04]),
        Err(CodecError::Needed(2))
    );
    assert_eq!(ser.deserialise_record_meta(&[]), Err(CodecError::Needed(2)));
}

#[test]
fn counter_counts_what_passes() {
    let data = [0x01, 0x02, 0x03, 0xFE, 0x03, 0x09, 0x09];
    let mut rdr = IoCounter::new(&data[..]);
    assert_eq!(rdr.count(), 0);
    assert_eq!(rdr.available(), 7);
    assert_eq!(rdr.extract_u8(), Ok(1));
    assert_eq!(rdr.count(), 1);
    assert_eq!(rdr.extract_u16(), Ok(0x0302));
    assert_eq!(rdr.count(), 3);
    assert_eq!(rdr.extract_varint(), Ok(0xFF));
    assert_eq!(rdr.count(), 5);
    // what fails is not counted
    assert_eq!(rdr.extract_u32(), Err(CodecError::Needed(2)));
    assert_eq!(rdr.skip(3), Err(CodecError::Needed(1)));
    assert_eq!(rdr.count(), 5);
    assert_eq!(rdr.skip(2), Ok(()));
    assert_eq!(rdr.count(), 7);
    assert_eq!(rdr.into_inner().len(), 0);

    let mut buf = [0u8; 8];
    let mut wtr = IoCounter::new(&mut buf[..]);
    wtr.insert_u16(0x0201).unwrap();
    wtr.insert_varint(0xFF).unwrap();
    wtr.insert([5u8, 6]).unwrap();
    wtr.insert_checked(&[7]).unwrap();
    assert_eq!(wtr.count(), 7);
    assert_eq!(wtr.insert_u32(1), Err(CodecError::Needed(3)));
    assert_eq!(wtr.insert_array_checked([0u8; 2]), Err(1));
    assert_eq!(wtr.count(), 7);
    wtr.insert_slice(&[8]);
    assert_eq!(wtr.count(), 8);
    assert_eq!(buf, [1, 2, 0xFE, 0x03, 5, 6, 7, 8]);
}

const REF_HEADER: Header = Header { version: 0x0201 };

fn ref_header_bytes() -> [u8; 7] {
    let mut bytes = [0u8; 7];
    bytes[..4].copy_from_slice(&msrf::codec::MAGIC_BYTES); // Magic bytes
    bytes[4..6].copy_from_slice(&[1_u8, 2_u8]); // Version
    bytes[6] = 0x00; // Guard
    bytes
}

const REF_RECORD_META: RecordMeta = RecordMeta {
    source_id: 16,
    type_id: 32,
    length: 6,
    contained: None,
};

fn ref_record_meta_bytes() -> [u8; 5] {
    let mut bytes = [0u8; 5];
    bytes[..2].copy_from_slice(&16_u16.to_le_bytes()); // Source ID
    bytes[2..4].copy_from_slice(&32_u16.to_le_bytes()); // Type ID
    bytes[4] = 0b1101_u8; // Length
    bytes
}

#[test]
fn v0_0_decode_header() {
    let des = serialiser();
    let (out, read) = des.deserialise_header(ref_header_bytes().as_slice()).unwrap();

    assert_eq!(REF_HEADER, out);
    assert_eq!(ref_header_bytes().len(), read);

    let ser = serialiser();
    let mut buf = [0; 7];
    let written = ser.serialise_header(&mut buf, &REF_HEADER).unwrap();

    assert_eq!(ref_header_bytes(), buf);
    assert_eq!(buf.len(), written);
}

#[test]
fn serialise_header() {
    let ser = serialiser();
    let (out, read) = ser.deserialise_header(ref_header_bytes().as_slice()).unwrap();

    assert_eq!(REF_HEADER, out);
    assert_eq!(ref_header_bytes().len(), read);

    let mut buf = [0; 7];
    let written = ser.serialise_header(&mut buf, &REF_HEADER).unwrap();

    assert_eq!(ref_header_bytes(), buf);
    assert_eq!(buf.len(), written);
}

#[test]
fn serialise_record_meta() {
    let ser = serialiser();
    let (out, read) = ser
        .deserialise_record_meta(ref_record_meta_bytes().as_slice())
        .unwrap();

    assert_eq!(REF_RECORD_META, out);
    assert_eq!(ref_record_meta_bytes().len(), read);

    let mut buf = [0; 5];
    let written = ser
        .serialise_record_meta(&mut buf, &REF_RECORD_META)
        .unwrap();

    assert_eq!(ref_record_meta_bytes(), buf);
    assert_eq!(buf.len(), written);
}
