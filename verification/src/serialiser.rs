//! The frame codec over caller-supplied buffers: nothing is allocated, and a
//! buffer that is too small is reported with the number of bytes it lacks.
use crate::codec::v0;
use crate::codec::{
    read_header, spec_header_bytes, spec_header_ok, spec_magic, AnySerialiser, HEADER_LEN,
    MAGIC_BYTES,
};
use crate::endian::spec_u16_from_le;
use crate::error::{CodecError, CodecResult, IoError, IoKind, ParserError};
use crate::io::GUARD;
use crate::stream::{ByteStream, MutByteStream};
use crate::{Header, RecordMeta, CURRENT_VERSION};
use vstd::prelude::*;

verus! {

/// Builds a `Serialiser` for a framing version.
#[derive(Debug, Clone, Copy, PartialEq, Eq, Structural)]
pub struct SerialiserBuilder {
    pub version: u16,
}

impl Default for SerialiserBuilder {
    fn default() -> (b: Self)
        ensures
            b.version == CURRENT_VERSION,
    {
        Self { version: CURRENT_VERSION }
    }
}

impl SerialiserBuilder {
    pub fn with_version(self, version: u16) -> (b: Self)
        ensures
            b.version == version,
    {
        SerialiserBuilder { version }
    }

    /// The serialiser of the builder's version, or `None` where the
    /// version has no codec.
    pub fn build(self) -> (r: Option<Serialiser>)
        ensures
            r is Some <==> self.version <= CURRENT_VERSION,
    {
        match AnySerialiser::new_default(self.version) {
            Some(raw) => Some(Serialiser { raw }),
            None => None,
        }
    }
}

/// The frame codec of one framing version, over byte buffers.
#[derive(Debug, Clone, Copy, PartialEq, Eq)]
pub struct Serialiser {
    raw: AnySerialiser,
}

/// What a write of `data` to the start of a buffer that held `before`
/// leaves in it: `data`, then the bytes that `data` does not reach.
pub open spec fn spec_written(before: Seq<u8>, data: Seq<u8>) -> Seq<u8> {
    data + before.skip(data.len() as int)
}

/// Writes the metadata of a record to the start of `buf`, or nothing where
/// `buf` is too small. Returns the number of bytes written.
pub fn put_meta(buf: &mut [u8], meta: &RecordMeta) -> (r: CodecResult<usize>)
    ensures
        match r {
            Ok(n) => {
                &&& v0::spec_meta_bytes(*meta).len() <= old(buf).len()
                &&& n == v0::spec_meta_bytes(*meta).len()
                &&& final(buf)@ == spec_written(old(buf)@, v0::spec_meta_bytes(*meta))
            },
            Err(e) => {
                &&& v0::spec_meta_bytes(*meta).len() > old(buf).len()
                &&& e == CodecError::Needed(
                    (v0::spec_meta_bytes(*meta).len() - old(buf).len()) as usize,
                )
                &&& final(buf)@ == old(buf)@
            },
        },
{
    proof {
        crate::varint::lemma_roundtrip(meta.length);
    }
    let needed: usize = if meta.is_eos() {
        2
    } else if meta.is_container() {
        6 + crate::varint::size(meta.length)
    } else {
        4 + crate::varint::size(meta.length)
    };
    if needed > buf.len() {
        return Err(CodecError::Needed(needed - buf.len()));
    }
    let mut cur: &mut [u8] = buf;
    let _ = cur.insert_u16(meta.source_id);
    if !meta.is_eos() {
        let semantic = meta.type_id & crate::TYPE_SEMANTIC_MASK;
        match meta.contained() {
            Some(c) => {
                let _ = cur.insert_u16(semantic | crate::TYPE_CONTAINER_MASK);
                let _ = cur.insert_varint(meta.length);
                let _ = cur.insert_u16(c);
            },
            None => {
                let _ = cur.insert_u16(semantic);
                let _ = cur.insert_varint(meta.length);
            },
        }
    }
    proof {
        assert(final(buf)@ =~= spec_written(old(buf)@, v0::spec_meta_bytes(*meta)));
    }
    Ok(needed)
}

impl Serialiser {
    pub fn builder() -> (b: SerialiserBuilder)
        ensures
            b.version == CURRENT_VERSION,
    {
        SerialiserBuilder { version: CURRENT_VERSION }
    }

    /// Writes a header to the start of `buf`.
    pub fn serialise_header(&self, buf: &mut [u8], header: &Header) -> (r: CodecResult<usize>)
        ensures
            match r {
                Ok(n) => {
                    &&& HEADER_LEN <= old(buf).len()
                    &&& n == HEADER_LEN
                    &&& final(buf)@ == spec_written(old(buf)@, spec_header_bytes(*header))
                },
                Err(e) => {
                    &&& HEADER_LEN > old(buf).len()
                    &&& e == CodecError::Needed((HEADER_LEN - old(buf).len()) as usize)
                    &&& final(buf)@ == old(buf)@
                },
            },
    {
        if HEADER_LEN > buf.len() {
            return Err(CodecError::Needed(HEADER_LEN - buf.len()));
        }
        let mut cur: &mut [u8] = buf;
        let _ = cur.insert(MAGIC_BYTES);
        let _ = cur.insert_u16(header.version);
        let _ = cur.insert_u8(GUARD);
        proof {
            assert(MAGIC_BYTES@ =~= spec_magic());
            assert(final(buf)@ =~= spec_written(old(buf)@, spec_header_bytes(*header)));
        }
        Ok(HEADER_LEN)
    }

    /// Writes the metadata of a record to the start of `buf`.
    pub fn serialise_record_meta(&self, buf: &mut [u8], meta: &RecordMeta) -> (r: CodecResult<
        usize,
    >)
        ensures
            match r {
                Ok(n) => {
                    &&& v0::spec_meta_bytes(*meta).len() <= old(buf).len()
                    &&& n == v0::spec_meta_bytes(*meta).len()
                    &&& final(buf)@ == spec_written(old(buf)@, v0::spec_meta_bytes(*meta))
                },
                Err(e) => {
                    &&& v0::spec_meta_bytes(*meta).len() > old(buf).len()
                    &&& e == CodecError::Needed(
                        (v0::spec_meta_bytes(*meta).len() - old(buf).len()) as usize,
                    )
                    &&& final(buf)@ == old(buf)@
                },
            },
    {
        match self.raw {
            AnySerialiser::V0(_) => put_meta(buf, meta),
        }
    }

    /// Writes the end-of-stream marker to the start of `buf`.
    pub fn serialise_record_eos(&self, buf: &mut [u8]) -> (r: CodecResult<usize>)
        ensures
            match r {
                Ok(n) => {
                    &&& 2 <= old(buf).len()
                    &&& n == 2
                    &&& final(buf)@ == spec_written(
                        old(buf)@,
                        v0::spec_meta_bytes(RecordMeta::spec_new_eos()),
                    )
                },
                Err(e) => {
                    &&& 2 > old(buf).len()
                    &&& e == CodecError::Needed((2 - old(buf).len()) as usize)
                    &&& final(buf)@ == old(buf)@
                },
            },
    {
        let eos = RecordMeta::new_eos();
        proof {
            crate::endian::lemma_u16_roundtrip(crate::RECORD_EOS);
        }
        self.serialise_record_meta(buf, &eos)
    }

    /// Reads a header from the start of `buf`. Gives the header and the
    /// number of bytes read.
    ///
    /// A buffer shorter than a header lacks bytes; then the magic bytes
    /// are checked, then the guard byte.
    pub fn deserialise_header(&self, buf: &[u8]) -> (r: CodecResult<(Header, usize)>)
        ensures
            match r {
                Ok((h, n)) => {
                    &&& buf@.len() >= HEADER_LEN
                    &&& n == HEADER_LEN
                    &&& spec_header_ok(buf@.take(7))
                    &&& h.version == spec_u16_from_le(buf@.subrange(4, 6))
                },
                Err(CodecError::Needed(k)) => buf@.len() < HEADER_LEN && k == HEADER_LEN
                    - buf@.len(),
                Err(CodecError::MagicByte(found)) => {
                    &&& buf@.len() >= HEADER_LEN
                    &&& buf@.take(4) != spec_magic()
                    &&& found@ == buf@.take(4)
                },
                Err(CodecError::Guard(g)) => {
                    &&& buf@.len() >= HEADER_LEN
                    &&& buf@.take(4) == spec_magic()
                    &&& g == buf@[6]
                    &&& g != GUARD
                },
                Err(CodecError::RecordLength(_)) => false,
            },
    {
        let mut rdr = buf;
        let bytes: [u8; 7] = match rdr.extract::<7>() {
            Ok(bytes) => bytes,
            Err(e) => return Err(e),
        };
        proof {
            assert(buf@.take(7).take(4) =~= buf@.take(4));
            assert(buf@.take(7).subrange(4, 6) =~= buf@.subrange(4, 6));
        }
        match read_header(&bytes) {
            Ok(h) => Ok((h, HEADER_LEN)),
            Err(ParserError::MagicBytes(found)) => Err(CodecError::MagicByte(found)),
            Err(ParserError::Guard(g)) => Err(CodecError::Guard(g)),
            // not reached: a header fails for its magic bytes or its guard byte only
            Err(_) => Err(CodecError::Needed(0)),
        }
    }

    /// Writes the guard byte to the start of `buf`.
    pub fn serialise_guard(&self, buf: &mut [u8]) -> (r: CodecResult<usize>)
        ensures
            match r {
                Ok(n) => {
                    &&& 1 <= old(buf).len()
                    &&& n == 1
                    &&& final(buf)@ == spec_written(old(buf)@, seq![GUARD])
                },
                Err(e) => {
                    &&& old(buf).len() == 0
                    &&& e == CodecError::Needed(1)
                    &&& final(buf)@ == old(buf)@
                },
            },
    {
        if buf.len() == 0 {
            return Err(CodecError::Needed(1));
        }
        let mut cur: &mut [u8] = buf;
        let _ = cur.insert_u8(GUARD);
        proof {
            assert(final(buf)@ =~= spec_written(old(buf)@, seq![GUARD]));
        }
        Ok(1)
    }

    /// Reads the guard byte at the start of `buf` and checks it. Gives the
    /// number of bytes read.
    pub fn deserialise_guard(&self, buf: &[u8]) -> (r: CodecResult<usize>)
        ensures
            r == (if buf@.len() == 0 {
                Err::<usize, CodecError>(CodecError::Needed(1))
            } else if buf@[0] != GUARD {
                Err::<usize, CodecError>(CodecError::Guard(buf@[0]))
            } else {
                Ok::<usize, CodecError>(1)
            }),
    {
        let mut rdr = buf;
        let guard = match rdr.extract_u8() {
            Ok(guard) => guard,
            Err(e) => return Err(e),
        };
        if guard == GUARD {
            Ok(1)
        } else {
            Err(CodecError::Guard(guard))
        }
    }

    /// Reads the metadata of a record from the start of `buf`. Gives the
    /// metadata and the number of bytes read.
    pub fn deserialise_record_meta(&self, buf: &[u8]) -> (r: CodecResult<(RecordMeta, usize)>)
        ensures
            match r {
                Ok((meta, n)) => {
                    &&& v0::spec_read_meta(buf@).0 == Ok::<RecordMeta, IoError<ParserError>>(meta)
                    &&& n == buf@.len() - v0::spec_read_meta(buf@).1.len()
                },
                Err(e) => {
                    &&& v0::spec_read_meta(buf@).0 matches Err(
                        IoError::Io(IoKind::UnexpectedEof(k)),
                    )
                    &&& e == CodecError::Needed(k)
                },
            },
    {
        let mut rdr = buf;
        let des = v0::Deserialiser { options: crate::codec::DesOptions };
        proof {
            lemma_read_meta_shortens(buf@);
        }
        match crate::codec::RawDeserialiser::read_meta(&des, &mut rdr) {
            Ok(meta) => Ok((meta, buf.len() - rdr.len())),
            Err(IoError::Io(IoKind::UnexpectedEof(k))) => Err(CodecError::Needed(k)),
            // not reached: metadata fails for want of bytes only
            Err(_) => Err(CodecError::Needed(0)),
        }
    }
}

/// Reading metadata leaves no more bytes than there were, and fails only
/// for want of bytes.
pub proof fn lemma_read_meta_shortens(s: Seq<u8>)
    ensures
        v0::spec_read_meta(s).1.len() <= s.len(),
        v0::spec_read_meta(s).0 matches Err(e) ==> e matches IoError::Io(
            IoKind::UnexpectedEof(_),
        ),
{
}

} // verus!
