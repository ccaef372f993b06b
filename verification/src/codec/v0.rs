//! Version 0 of the frame codec.
use crate::codec::{DesOptions, RawDeserialiser, RawSerialiser, SerOptions};
use crate::endian::{spec_u16_from_le, spec_u16_to_le, u16_to_le};
use crate::error::{IoError, IoKind, ParserError};
use crate::io::push_all;
use crate::stream::{spec_after_varint, spec_extract_varint, ByteStream};
use crate::varint;
use crate::{RecordMeta, RECORD_EOS, TYPE_CONTAINER_MASK, TYPE_SEMANTIC_MASK};
use vstd::prelude::*;

verus! {

/// The framing version of this codec.
pub const VERSION: usize = 0;

/// The length of the two ids at the start of a record's metadata.
pub const ID_LEN: usize = 4;

/// The type id of a record on the wire: its semantic bits, and the
/// container flag exactly where the record states a number of children.
pub open spec fn spec_wire_type(meta: RecordMeta) -> u16 {
    if meta.contained is Some {
        (meta.type_id & TYPE_SEMANTIC_MASK) | TYPE_CONTAINER_MASK
    } else {
        meta.type_id & TYPE_SEMANTIC_MASK
    }
}

/// The metadata of a record on the wire. An end-of-stream marker is its
/// source id and nothing more.
pub open spec fn spec_meta_bytes(meta: RecordMeta) -> Seq<u8> {
    if meta.spec_is_eos() {
        spec_u16_to_le(RECORD_EOS)
    } else {
        spec_u16_to_le(meta.source_id) + spec_u16_to_le(spec_wire_type(meta))
            + varint::spec_encode(meta.length) + (match meta.contained {
            Some(c) => spec_u16_to_le(c),
            None => Seq::<u8>::empty(),
        })
    }
}

/// The failure of a read of `n` bytes from a stream that holds the bytes `s`
/// and is too short for it.
pub open spec fn spec_short(s: Seq<u8>, n: nat) -> IoError<ParserError> {
    IoError::Io(IoKind::UnexpectedEof((n - s.len()) as usize))
}

/// What reading one record's metadata from the bytes `s` gives, and the
/// bytes left behind it. The fields are read in order; a field for which
/// the stream is too short fails the read and is not consumed.
pub open spec fn spec_read_meta(s: Seq<u8>) -> (Result<RecordMeta, IoError<ParserError>>, Seq<u8>) {
    if s.len() < 2 {
        (Err(spec_short(s, 2)), s)
    } else {
        let source_id = spec_u16_from_le(s.take(2));
        let s1 = s.skip(2);
        if source_id == RECORD_EOS {
            (Ok(RecordMeta::spec_new_eos()), s1)
        } else if s1.len() < 2 {
            (Err(spec_short(s1, 2)), s1)
        } else {
            let wire_type = spec_u16_from_le(s1.take(2));
            let s2 = s1.skip(2);
            match spec_extract_varint(s2) {
                Err(e) => (Err(IoError::Io(e.spec_io_kind())), s2),
                Ok(length) => {
                    let s3 = spec_after_varint(s2);
                    let type_id = wire_type & TYPE_SEMANTIC_MASK;
                    if wire_type & TYPE_CONTAINER_MASK == 0 {
                        (Ok(RecordMeta { source_id, type_id, length, contained: None }), s3)
                    } else if s3.len() < 2 {
                        (Err(spec_short(s3, 2)), s3)
                    } else {
                        let c = spec_u16_from_le(s3.take(2));
                        (
                            Ok(RecordMeta { source_id, type_id, length, contained: Some(c) }),
                            s3.skip(2),
                        )
                    }
                },
            }
        }
    }
}

/// The serialiser of version 0.
#[derive(Debug, Clone, Copy, PartialEq, Eq, Structural)]
pub struct Serialiser {
    pub options: SerOptions,
}

impl Default for Serialiser {
    fn default() -> (s: Self) {
        Serialiser { options: SerOptions }
    }
}

impl RawSerialiser for Serialiser {
    open spec fn spec_meta_bytes(&self, meta: RecordMeta) -> Seq<u8> {
        spec_meta_bytes(meta)
    }

    fn write_meta(&self, meta: RecordMeta, wtr: &mut Vec<u8>) -> (r: Result<
        (),
        IoError<ParserError>,
    >) {
        push_all(wtr, u16_to_le(meta.source_id).as_slice());
        if !meta.is_eos() {
            let semantic = meta.type_id & TYPE_SEMANTIC_MASK;
            let pv = crate::io::PVarint::encode(meta.length);
            if let Some(c) = meta.contained() {
                push_all(wtr, u16_to_le(semantic | TYPE_CONTAINER_MASK).as_slice());
                push_all(wtr, pv.as_slice());
                push_all(wtr, u16_to_le(c).as_slice());
            } else {
                push_all(wtr, u16_to_le(semantic).as_slice());
                push_all(wtr, pv.as_slice());
            }
        }
        assert(wtr@ =~= old(wtr)@ + spec_meta_bytes(meta));
        Ok(())
    }

    fn encoded_meta_len(&self, user_len: usize) -> (n: usize) {
        let pv = crate::io::PVarint::encode(user_len as u64);
        proof {
            varint::lemma_roundtrip(user_len as u64);
        }
        pv.len() + ID_LEN
    }
}

impl From<SerOptions> for Serialiser {
    fn from(options: SerOptions) -> (s: Self) {
        Serialiser { options }
    }
}

impl vstd::std_specs::convert::FromSpecImpl<SerOptions> for Serialiser {
    open spec fn obeys_from_spec() -> bool {
        true
    }

    open spec fn from_spec(options: SerOptions) -> Self {
        Serialiser { options }
    }
}

/// The deserialiser of version 0.
#[derive(Debug, Clone, Copy, PartialEq, Eq, Structural)]
pub struct Deserialiser {
    pub options: DesOptions,
}

impl Default for Deserialiser {
    fn default() -> (d: Self) {
        Deserialiser { options: DesOptions }
    }
}

impl RawDeserialiser for Deserialiser {
    open spec fn spec_read_meta(&self, s: Seq<u8>) -> (
        Result<RecordMeta, IoError<ParserError>>,
        Seq<u8>,
    ) {
        spec_read_meta(s)
    }

    fn read_meta(&self, rdr: &mut &[u8]) -> (r: Result<RecordMeta, IoError<ParserError>>) {
        let source_id = match rdr.extract_u16() {
            Ok(v) => v,
            Err(e) => return Err(IoError::Io(e.io_kind())),
        };
        if source_id == RECORD_EOS {
            return Ok(RecordMeta::new_eos());
        }
        let wire_type = match rdr.extract_u16() {
            Ok(v) => v,
            Err(e) => return Err(IoError::Io(e.io_kind())),
        };
        let length = match rdr.extract_varint() {
            Ok(v) => v,
            Err(e) => return Err(IoError::Io(e.io_kind())),
        };
        let contained = if wire_type & TYPE_CONTAINER_MASK != 0 {
            match rdr.extract_u16() {
                Ok(v) => Some(v),
                Err(e) => return Err(IoError::Io(e.io_kind())),
            }
        } else {
            None
        };
        let type_id = wire_type & TYPE_SEMANTIC_MASK;
        Ok(RecordMeta { source_id, type_id, length, contained })
    }
}

impl From<DesOptions> for Deserialiser {
    fn from(options: DesOptions) -> (d: Self) {
        Deserialiser { options }
    }
}

impl vstd::std_specs::convert::FromSpecImpl<DesOptions> for Deserialiser {
    open spec fn obeys_from_spec() -> bool {
        true
    }

    open spec fn from_spec(options: DesOptions) -> Self {
        Deserialiser { options }
    }
}

} // verus!
