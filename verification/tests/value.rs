use msrf::error::CodecError;
use msrf::io::PVarint;
use msrf::value::{
    DecodeExt, DecodeInto, DecodeIntoBounded, EncodeExt, EncodeInto, EncodeIntoBounded,
};
use msrf::{Header, RecordMeta};
use std::fmt::Debug;

const DATA: [u8; 32] = [
    0x00, 0x01, 0x02, 0x03, 0x04, 0x05, 0x06, 0x07, 0x08, 0x09, 0x0A, 0x0B, 0x0C, 0x0D, 0x0E,
    0x0F, 0x10, 0x11, 0x12, 0x13, 0x14, 0x15, 0x16, 0x17, 0x18, 0x19, 0x1A, 0x1B, 0x1C, 0x1D,
    0x1E, 0x1F,
];

fn codec_harness_sized<'a, T, const N: usize>(data: &'a [u8; N], expected_len: usize, expected: T)
where
    T: EncodeInto + DecodeInto<'a> + PartialEq + Debug,
{
    let type_len = expected_len;
    let mut input = &data[..];

    // Decode: Assert expected value & remaining buf
    let value = input.decode::<T>().unwrap();
    assert_eq!(value, expected);
    assert_eq!(input, &data[type_len..], "type len = {type_len}");

    // Encode: Assert buffer contents == source contents & remaining buf untouched
    let mut buf = [0; N];
    let mut output = &mut buf[..];
    (output).encode(&value).unwrap();
    assert_eq!(output.len(), N - type_len);
    assert_eq!(&buf[..type_len], &data[..type_len]);
}

// Decode/Encode one value from data (even if data has more bytes than needed)
fn codec_harness<'a, T, const N: usize>(data: &'a [u8; N], expected: T)
where
    T: EncodeInto + DecodeInto<'a> + PartialEq + Debug,
{
    codec_harness_sized(data, std::mem::size_of::<T>(), expected)
}

#[test]
fn codec_value() {
    codec_harness(&DATA, DATA);
    codec_harness(&DATA, 0x00u8);
    codec_harness(&DATA, 0x0100u16);
    codec_harness(&DATA, 0x03020100u32);
    codec_harness(&DATA, 0x0706050403020100u64);
    codec_harness(&DATA, 0x00i8);
    codec_harness(&DATA, 0x0100i16);
    codec_harness(&DATA, 0x03020100i32);
    codec_harness(&DATA, 0x0706050403020100i64);
}

#[test]
fn codec_tuple() {
    codec_harness(&DATA, (0x00u8, 0x01u8, 0x02u8, 0x03u8));
    codec_harness(&DATA, (0x0100u16, 0x0302u16, 0x0504u16, 0x0706u16));
    codec_harness(&DATA, (0x03020100u32, 0x07060504u32, 0x0B0A0908u32));
    codec_harness(&DATA, (0x0706050403020100u64, 0x0F0E0D0C0B0A0908u64));
    codec_harness(&DATA, (0x00u8, 0x01u8, 0x0302u16, 0x07060504u32));
}

#[test]
fn values_of_every_tuple_size() {
    codec_harness_sized(&DATA, 1, (0x00u8,));
    codec_harness_sized(&DATA, 3, (0x00u8, 0x0201u16));
    codec_harness_sized(&DATA, 5, (0x00u8, 0x01u8, 0x02u8, 0x03u8, 0x04u8));
    codec_harness_sized(&DATA, 6, (0x00u8, 0x01u8, 0x02u8, 0x03u8, 0x04u8, 0x05u8));
    codec_harness_sized(
        &DATA,
        14,
        (0x00u8, 0x01u8, 0x02u8, 0x03u8, 0x04u8, 0x05u8, 0x0D0C0B0A09080706i64),
    );
    codec_harness_sized(
        &DATA,
        16,
        (0x00u8, 0x0201u16, 0x03u8, 0x04u8, 0x05u8, 0x06u8, 0x07u8, 0x0F0E0D0C0B0A0908u64),
    );
}

#[test]
fn signed_values_are_twos_complement() {
    let mut buf = [0u8; 15];
    let mut out = &mut buf[..];
    out.encode(&-1i8).unwrap();
    out.encode(&-2i16).unwrap();
    out.encode(&-3i32).unwrap();
    out.encode(&i64::MIN).unwrap();
    assert_eq!(out.len(), 0);
    assert_eq!(
        buf,
        [0xFF, 0xFE, 0xFF, 0xFD, 0xFF, 0xFF, 0xFF, 0, 0, 0, 0, 0, 0, 0, 0x80]
    );
    let mut input = &buf[..];
    assert_eq!(input.decode::<(i8, i16, i32, i64)>(), Ok((-1, -2, -3, i64::MIN)));
    assert!(input.is_empty());
}

#[test]
fn values_that_do_not_fit() {
    let mut buf = [0xEEu8; 3];
    assert_eq!(0x01020304u32.encode_into(&mut buf).err(), Some(CodecError::Needed(1)));
    assert_eq!(buf, [0xEE; 3]);
    // the part that fits is written, the deficit is that of the part that does not
    assert_eq!(
        (0x0201u16, 0x06050403u32, 0x07u8).encode_into(&mut buf).err(),
        Some(CodecError::Needed(3))
    );
    assert_eq!(buf, [0x01, 0x02, 0xEE]);

    let mut out = &mut buf[..];
    assert_eq!(out.encode(&[0u8; 4]), Err(CodecError::Needed(1)));
    // a cursor at which a value did not fit is left without room
    assert_eq!(out.len(), 0);

    let data = [1u8, 2, 3];
    assert_eq!(u32::decode_from(&data).err(), Some(CodecError::Needed(1)));
    assert_eq!(
        <(u16, u32)>::decode_from(&data).err(),
        Some(CodecError::Needed(3))
    );
    let mut input = &data[..];
    assert_eq!(input.decode::<[u8; 5]>(), Err(CodecError::Needed(2)));
    assert_eq!(input.len(), 3);
    assert_eq!(DecodeExt::skip(&mut input, 4), Err(CodecError::Needed(1)));
    assert_eq!(DecodeExt::skip(&mut input, 2), Ok(()));
    assert_eq!(input, &[3]);
}

#[test]
fn cursor_skip_leaves_the_bytes() {
    let mut buf = [1u8, 2, 3, 4];
    let mut out = &mut buf[..];
    assert_eq!(EncodeExt::skip(&mut out, 2), Ok(()));
    out.encode(&9u8).unwrap();
    assert_eq!(EncodeExt::skip(&mut out, 2), Err(CodecError::Needed(1)));
    assert_eq!(out.len(), 1);
    assert_eq!(buf, [1, 2, 9, 4]);
}

#[test]
fn bounded_runs_of_bytes() {
    let mut buf = [0xEEu8; 6];
    let mut out = &mut buf[..];
    let run: &[u8] = &[1, 2, 3, 4, 5];
    out.encode_len(&run, 3).unwrap();
    assert_eq!(out.len(), 3);
    assert_eq!(out.encode_len(&run, 4), Err(CodecError::Needed(1)));
    assert_eq!(out.len(), 3);
    out.encode(&run[3..].as_ref()).unwrap();
    assert_eq!(buf, [1, 2, 3, 4, 5, 0xEE]);
    assert_eq!(
        run.encode_len_into(&mut buf[..1], 2).err(),
        Some(CodecError::Needed(1))
    );

    let mut input = &buf[..];
    assert_eq!(input.decode_len::<&[u8]>(2), Ok(&[1u8, 2][..]));
    assert_eq!(input.decode_len::<&[u8]>(5), Err(CodecError::Needed(1)));
    assert_eq!(input.decode::<&[u8]>(), Ok(&[3u8, 4, 5, 0xEE][..]));
    assert!(input.is_empty());
    assert_eq!(
        <&[u8]>::decode_from_bounded(&buf, 7).err(),
        Some(CodecError::Needed(1))
    );
}

#[test]
fn decode_assert_compares_what_it_read() {
    let data = *b"MSRFxy";
    let mut input = &data[..];
    assert_eq!(input.decode_assert::<[u8; 4]>(*b"MSRF"), Ok(Some(*b"MSRF")));
    assert_eq!(input.decode_assert::<u8>(b'z'), Ok(None));
    assert_eq!(input, b"y");
    assert_eq!(input.decode_assert::<u16>(0), Err(CodecError::Needed(1)));
}

#[test]
fn varint_as_a_value() {
    codec_harness_sized(&[0x25, 0xAA, 0xBB], 1, PVarint::encode(18));
    codec_harness_sized(&[0xFE, 0x03, 0xBB], 2, PVarint::encode(255));
    let data = [0x00, 0xFF, 0xFF, 0xFF, 0xFF, 0xFF, 0xFF, 0xFF, 0xFF, 0x77];
    let (rest, pv) = PVarint::decode_from(&data).unwrap();
    assert_eq!(pv.get(), u64::MAX);
    assert_eq!(rest, &[0x77]);
    assert_eq!(PVarint::decode_from(&data[..4]).err(), Some(CodecError::Needed(5)));
    assert_eq!(PVarint::decode_from(&[]).err(), Some(CodecError::Needed(1)));
    let mut small = [0u8; 1];
    assert_eq!(
        PVarint::encode(255).encode_into(&mut small).err(),
        Some(CodecError::Needed(1))
    );
}

#[test]
fn header_as_a_value() {
    codec_harness_sized(b"MSRF\x03\x00\x00tail", 7, Header::new(3));
    assert_eq!(Header::decode_from(b"MSRF\x03").err(), Some(CodecError::Needed(2)));
    assert_eq!(
        Header::decode_from(b"MCTC\x00\x00\x00").err(),
        Some(CodecError::MagicByte(*b"MCTC"))
    );
    assert_eq!(
        Header::decode_from(b"MSRF\x00\x00\x09").err(),
        Some(CodecError::Guard(9))
    );
    let mut small = [0u8; 6];
    assert_eq!(
        Header::new(0).encode_into(&mut small).err(),
        Some(CodecError::Needed(1))
    );
}

#[test]
fn metadata_as_a_value() {
    codec_harness_sized(
        &[0x10, 0x00, 0x20, 0x00, 0x0D, 0xAA],
        5,
        RecordMeta::new(16, 32, 6),
    );
    codec_harness_sized(
        &[0x10, 0x00, 0x20, 0x80, 0x0D, 0x05, 0x00, 0xAA],
        7,
        RecordMeta::new_container(16, 32, 6, 5),
    );
    codec_harness_sized(&[0xFF, 0xFF, 0xAA], 2, RecordMeta::new_eos());
    assert_eq!(
        RecordMeta::decode_from(&[0x10, 0x00, 0x20]).err(),
        Some(CodecError::Needed(1))
    );
    let mut small = [0xEEu8; 4];
    assert_eq!(
        RecordMeta::new(16, 32, 6).encode_into(&mut small).err(),
        Some(CodecError::Needed(1))
    );
    assert_eq!(small, [0xEE; 4]);
}

fn ref_header() -> Header {
    Header { version: 0x0201 }
}

fn ref_header_bytes() -> Vec<u8> {
    let mut data = Vec::new();

    // Header
    data.extend_from_slice(&msrf::codec::MAGIC_BYTES); // Magic bytes
    data.extend_from_slice(&1_u8.to_le_bytes()); // Version (low byte)
    data.extend_from_slice(&2_u8.to_le_bytes()); // Version (high byte)
    data.extend_from_slice(&0_u8.to_le_bytes()); // Guard

    data
}

#[test]
fn decoder_decode_header() {
    let header = ref_header();
    let header_bytes = ref_header_bytes();

    assert_eq!(header_bytes.len(), 7);
    let mut data = header_bytes.as_slice();
    let output = data.decode::<Header>().unwrap();

    // Verify decode
    assert_eq!(header, output);

    // Verify all data is read
    assert_eq!(data.len(), 0);
}

#[test]
fn serialiser_decode_header() {
    let header_bytes = ref_header_bytes();
    let mut data = header_bytes.as_slice();
    let output = data.decode::<Header>().unwrap();

    // Verify decode
    assert_eq!(ref_header(), output);
    // Verify all data is read
    assert_eq!(data.len(), 0);
}
