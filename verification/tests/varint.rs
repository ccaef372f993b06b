use msrf::error::CodecError;
use msrf::io::PVarint;
use msrf::stream::{ByteStream, IoCounter, MutByteStream};
use msrf::varint::{decode, encode, from_le_bytes, len, to_le_bytes};

const SAMPLES: [u64; 10] = [
    0x00,
    0x7F,
    0x3FFF,
    0x1FFFFF,
    0xFFFFFFF,
    0x7FFFFFFFF,
    0x3FFFFFFFFFF,
    0x1FFFFFFFFFFFF,
    0xFFFFFFFFFFFFFF,
    0xFFFFFFFFFFFFFFFF,
];

#[test]
fn varint_serialise_pvarint() {
    for val in SAMPLES {
        let var = to_le_bytes(val);
        let dec = from_le_bytes(&var);
        assert_eq!(val, dec, "failed to manually encode/decode {val:X} != {dec:X}");
    }
}

#[test]
fn util_serialise_pvarint() {
    for val in SAMPLES {
        let mut buf = [0; 9];
        let n = encode(&mut buf, val);
        let dec = decode(&buf[..n]);
        assert_eq!(val, dec, "failed to manually encode/decode {val:X} != {dec:X}");
    }
}

#[test]
fn varint_nine_byte_range_roundtrips() {
    for val in [1u64 << 56, (1u64 << 56) + 1, 0x0123_4567_89AB_CDEF, (1u64 << 63) - 1, 1u64 << 63] {
        let var = to_le_bytes(val);
        assert_eq!(var[0], 0x00);
        assert_eq!(len(var[0]), 9);
        assert_eq!(&var[1..], &val.to_le_bytes());
        assert_eq!(from_le_bytes(&var), val);
    }
}

#[test]
fn varint_exact_encodings() {
    assert_eq!(to_le_bytes(0), [0x01, 0, 0, 0, 0, 0, 0, 0, 0]);
    assert_eq!(to_le_bytes(14), [0x1D, 0, 0, 0, 0, 0, 0, 0, 0]);
    assert_eq!(to_le_bytes(2), [0x05, 0, 0, 0, 0, 0, 0, 0, 0]);
    assert_eq!(to_le_bytes(6), [0x0D, 0, 0, 0, 0, 0, 0, 0, 0]);
    assert_eq!(to_le_bytes(0x21), [0x43, 0, 0, 0, 0, 0, 0, 0, 0]);
    assert_eq!(to_le_bytes(0xFF), [0xFE, 0x03, 0, 0, 0, 0, 0, 0, 0]);
    assert_eq!(
        to_le_bytes(0xFFFFFFFFFFFFFA),
        [0x80, 0xFA, 0xFF, 0xFF, 0xFF, 0xFF, 0xFF, 0xFF, 0]
    );
    assert_eq!(
        to_le_bytes(u64::MAX),
        [0x00, 0xFF, 0xFF, 0xFF, 0xFF, 0xFF, 0xFF, 0xFF, 0xFF]
    );
}

#[test]
fn varint_tag_lengths() {
    assert_eq!(len(0b0000_0001), 1);
    assert_eq!(len(0b1111_1111), 1);
    assert_eq!(len(0b0000_0010), 2);
    assert_eq!(len(0b0000_0100), 3);
    assert_eq!(len(0b0000_1000), 4);
    assert_eq!(len(0b0001_0000), 5);
    assert_eq!(len(0b0010_0000), 6);
    assert_eq!(len(0b0100_0000), 7);
    assert_eq!(len(0b1000_0000), 8);
    assert_eq!(len(0b0000_0000), 9);
}

#[test]
fn serialise_pvarint_2() {
    for val in SAMPLES {
        let varint = PVarint::encode(val);
        let varint_value = varint.decode();
        assert_eq!(
            val, varint_value,
            "failed to manually encode/decode {val:X} != {varint_value:X}"
        );
    }
}

#[test]
fn io_codec_pvarint() {
    fn prefixed_array<const N: usize>(prefix: u8) -> [u8; N] {
        assert!(N > 0 && N <= 9);
        let mut buf = [0xFF; N];
        buf[0] = prefix;
        buf
    }

    fn codec_harness_sized<const N: usize>(data: &[u8; N], expected_len: usize, expected: u64) {
        let type_len = expected_len;
        let mut input = &data[..];

        // Decode: the expected value and the remaining buffer
        let value = input.extract_varint().unwrap();
        assert_eq!(value, expected);
        assert_eq!(input, &data[type_len..], "type len = {type_len}");

        // Encode: the buffer holds the source's bytes, the rest is untouched
        let mut buf = [0; N];
        let mut output = &mut buf[..];
        output.insert_varint(value).unwrap();
        assert_eq!(output.len(), N - type_len);
        assert_eq!(&buf[..type_len], &data[..type_len]);
    }

    codec_harness_sized::<1>(&prefixed_array(0xFF), 1, 127); // 2^7 - 1
    codec_harness_sized::<2>(&prefixed_array(0xFE), 2, 16383); // 2^14 - 1
    codec_harness_sized::<3>(&prefixed_array(0xFC), 3, 2097151); // 2^21 - 1
    codec_harness_sized::<4>(&prefixed_array(0xF8), 4, 268435455); // 2^28 - 1
    codec_harness_sized::<5>(&prefixed_array(0xF0), 5, 34359738367); // 2^35 - 1
    codec_harness_sized::<6>(&prefixed_array(0xE0), 6, 4398046511103); // 2^42 - 1
    codec_harness_sized::<7>(&prefixed_array(0xC0), 7, 562949953421311); // 2^49 - 1
    codec_harness_sized::<8>(&prefixed_array(0x80), 8, 72057594037927935); // 2^56 - 1
    codec_harness_sized::<9>(&prefixed_array(0x00), 9, 18446744073709551615); // 2^64 - 1
}

#[test]
fn util_codec_pvarint() {
    fn prefixed_array<const N: usize>(prefix: u8) -> [u8; N] {
        assert!(N > 0 && N <= 9, "invalid range");
        let mut buf = [0xFF; N];
        buf[0] = prefix;
        buf
    }

    fn codec_harness_sized<const N: usize>(data: &[u8; N], expected_len: usize, expected: u64) {
        let type_len = expected_len;
        let mut input = &data[..];

        // Decode: the expected value and the remaining buffer
        let value = input.extract_varint().unwrap();
        assert_eq!(value, expected);
        assert_eq!(input, &data[type_len..], "type len = {type_len}");

        // Encode: the buffer holds the source's bytes, the rest is untouched
        let mut buf = [0; N];
        let mut output = &mut buf[..];
        output.insert_varint(value).unwrap();
        assert_eq!(output.len(), N - type_len);
        assert_eq!(&buf[..type_len], &data[..type_len]);
    }

    codec_harness_sized::<1>(&prefixed_array(0xFF), 1, 127); // 2^7 - 1
    codec_harness_sized::<2>(&prefixed_array(0xFE), 2, 16383); // 2^14 - 1
    codec_harness_sized::<3>(&prefixed_array(0xFC), 3, 2097151); // 2^21 - 1
    codec_harness_sized::<4>(&prefixed_array(0xF8), 4, 268435455); // 2^28 - 1
    codec_harness_sized::<5>(&prefixed_array(0xF0), 5, 34359738367); // 2^35 - 1
    codec_harness_sized::<6>(&prefixed_array(0xE0), 6, 4398046511103); // 2^42 - 1
    codec_harness_sized::<7>(&prefixed_array(0xC0), 7, 562949953421311); // 2^49 - 1
    codec_harness_sized::<8>(&prefixed_array(0x80), 8, 72057594037927935); // 2^56 - 1
    codec_harness_sized::<9>(&prefixed_array(0x00), 9, 18446744073709551615); // 2^64 - 1
}

#[test]
fn reader_test_pv() {
    fn harness<T: AsRef<[u8]>>(data: T, expected: (u64, usize)) {
        let mut rdr = IoCounter::new(data.as_ref());
        let data = rdr.extract_varint().unwrap();
        assert_eq!(data, expected.0);
        assert_eq!(rdr.count(), expected.1);
    }

    // Empty (1 byte)
    harness([0x01], (0, 1));
    // Partial (1 byte)
    harness([0x25], (18, 1));
    // Partial (2 byte)
    harness([(0xFFu16 << 2) as u8 | 0x02, 0x03], (255, 2));
    // Partial (8 byte)
    harness(
        [0x80, 0xFA, 0xFF, 0xFF, 0xFF, 0xFF, 0xFF, 0xFF],
        (0xFFFFFFFFFFFFFA, 8),
    );
    // Full (9 byte)
    harness(
        [0x00, 0xFF, 0xFF, 0xFF, 0xFF, 0xFF, 0xFF, 0xFF, 0xFF],
        (u64::MAX, 9),
    );
}

#[test]
fn writer_test_pv() {
    fn write_pv(input: u64) -> Vec<u8> {
        PVarint::encode(input).as_slice().to_vec()
    }

    // Empty (1 byte)
    assert_eq!(write_pv(0x00), [0x01]);
    // Full (9 byte)
    assert_eq!(
        write_pv(u64::MAX),
        [0x00, 0xFF, 0xFF, 0xFF, 0xFF, 0xFF, 0xFF, 0xFF, 0xFF]
    );
    // Partial (1 byte)
    assert_eq!(write_pv(0x21), [(0x21 << 1) | 0x01]);
    // Partial (2 byte)
    assert_eq!(write_pv(0xFF), [(0xFFu16 << 2) as u8 | 0x02, 0x03]);
    // Partial (8 byte)
    assert_eq!(
        write_pv(0xFFFFFFFFFFFFFA),
        [0x80, 0xFA, 0xFF, 0xFF, 0xFF, 0xFF, 0xFF, 0xFF]
    );
}

#[test]
fn varint_short_buffer_reports_missing_bytes() {
    let empty: [u8; 0] = [];
    let mut rdr = &empty[..];
    assert_eq!(rdr.extract_varint(), Err(CodecError::Needed(1)));

    // the tag announces 3 bytes, 1 is there
    let data = [0b0000_0100u8];
    let mut rdr = &data[..];
    assert_eq!(rdr.extract_varint(), Err(CodecError::Needed(2)));
    assert_eq!(rdr, &data[..]);

    // the tag announces 9 bytes, 4 are there
    let data = [0x00u8, 1, 2, 3];
    let mut rdr = &data[..];
    assert_eq!(rdr.extract_varint(), Err(CodecError::Needed(5)));
    assert_eq!(rdr.len(), 4);
}

#[test]
fn varint_roundtrip_at_every_length_boundary() {
    for n in 1..=8u32 {
        let below = (1u64 << (7 * n)) - 1;
        let at = 1u64 << (7 * n);
        assert_eq!(msrf::varint::size(below), n as usize);
        assert_eq!(msrf::varint::size(at), n as usize + 1);
        for val in [below, at] {
            let var = to_le_bytes(val);
            assert_eq!(len(var[0]), msrf::varint::size(val));
            assert_eq!(from_le_bytes(&var), val);
        }
    }
}

#[test]
fn varint_encode_leaves_the_rest_of_the_buffer() {
    let mut buf = [0xAA; 9];
    let n = encode(&mut buf, 0x21);
    assert_eq!(n, 1);
    assert_eq!(buf, [0x43, 0xAA, 0xAA, 0xAA, 0xAA, 0xAA, 0xAA, 0xAA, 0xAA]);

    let mut buf = [0xAA; 9];
    let n = encode(&mut buf, u64::MAX);
    assert_eq!(n, 9);
    assert_eq!(buf, [0x00, 0xFF, 0xFF, 0xFF, 0xFF, 0xFF, 0xFF, 0xFF, 0xFF]);
}

#[test]
fn pvarint_accessors() {
    let pv = PVarint::encode(14);
    assert_eq!(pv.len(), 1);
    assert_eq!(pv.as_slice(), &[0x1D]);
    assert_eq!(pv.get(), 14);
    assert_eq!(u64::from(pv), 14);
    assert_eq!(PVarint::len_from_tag(0x80), 8);
    let raw = PVarint::new([0xFE, 0x03, 9, 9, 9, 9, 9, 9, 9]);
    assert_eq!(raw.decode(), 0xFF);
    assert_eq!(raw.as_slice(), &[0xFE, 0x03]);
}
