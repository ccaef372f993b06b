//! The frame codec: the header and the metadata of a record on the wire,
//! dispatched by the major framing version.
//!
//! ```text
//! Header       = "MSRF" | version:u16LE | 0x00
//! RecordHeader = source:u16LE | type:u16LE | length:varint [| contained:u16LE]
//! EOS          = 0xFF 0xFF
//! ```
use crate::endian::{spec_u16_from_le, spec_u16_to_le, u16_from_le, u16_to_le};
use crate::error::{IoError, ParserError};
use crate::io::{push_all, GUARD};
use crate::{Header, RecordMeta, CURRENT_VERSION};
use vstd::prelude::*;

pub mod v0;

verus! {

/// The four bytes with which every stream begins: ASCII `MSRF`.
pub const MAGIC_BYTES: [u8; 4] = [0x4D, 0x53, 0x52, 0x46];

/// The length of the header on the wire.
pub const HEADER_LEN: usize = 7;

/// The magic bytes as a sequence.
pub open spec fn spec_magic() -> Seq<u8> {
    seq![0x4Du8, 0x53u8, 0x52u8, 0x46u8]
}

/// The header on the wire.
pub open spec fn spec_header_bytes(header: Header) -> Seq<u8> {
    spec_magic() + spec_u16_to_le(header.version) + seq![GUARD]
}

/// Whether the seven bytes `s` are a header: they begin with the magic
/// bytes and end with a zero guard byte.
pub open spec fn spec_header_ok(s: Seq<u8>) -> bool {
    s.take(4) == spec_magic() && s[6] == GUARD
}

/// Options of a deserialiser. None are defined.
#[derive(Clone, Copy, Debug, PartialEq, Eq, Structural)]
pub struct DesOptions;

impl Default for DesOptions {
    fn default() -> (o: Self) {
        DesOptions
    }
}

/// Options of a serialiser. None are defined.
#[derive(Clone, Copy, Debug, PartialEq, Eq, Structural)]
pub struct SerOptions;

impl Default for SerOptions {
    fn default() -> (o: Self) {
        SerOptions
    }
}

/// The decoder of record metadata of one framing version.
pub trait RawDeserialiser {
    /// What reading one record's metadata from the bytes `s` gives, and the
    /// bytes that are left behind it.
    spec fn spec_read_meta(&self, s: Seq<u8>) -> (
        Result<RecordMeta, IoError<ParserError>>,
        Seq<u8>,
    );

    fn read_meta(&self, rdr: &mut &[u8]) -> (r: Result<RecordMeta, IoError<ParserError>>)
        ensures
            (r, final(rdr)@) == self.spec_read_meta(old(rdr)@),
    ;
}

/// The encoder of record metadata of one framing version.
pub trait RawSerialiser {
    /// The metadata of a record on the wire.
    spec fn spec_meta_bytes(&self, meta: RecordMeta) -> Seq<u8>;

    fn write_meta(&self, meta: RecordMeta, wtr: &mut Vec<u8>) -> (r: Result<
        (),
        IoError<ParserError>,
    >)
        ensures
            r is Ok,
            final(wtr)@ == old(wtr)@ + self.spec_meta_bytes(meta),
    ;

    /// The length on the wire of the metadata of a record that is no
    /// container and has a payload of `user_len` bytes.
    fn encoded_meta_len(&self, user_len: usize) -> (n: usize)
        ensures
            n == self.spec_meta_bytes(RecordMeta::spec_new(0, 0, user_len as u64)).len(),
    ;
}

/// The codec of a stream whose header has not been read.
#[derive(Debug, Clone, Copy, PartialEq, Eq, Structural)]
pub struct UnknownSerdes;

/// The deserialiser of any supported version.
#[derive(Debug, Clone, Copy, PartialEq, Eq, Structural)]
pub enum AnyDeserialiser {
    V0(v0::Deserialiser),
}

impl AnyDeserialiser {
    pub fn new(version: u16, options: DesOptions) -> (r: Option<Self>)
        ensures
            r == (if version > CURRENT_VERSION {
                None
            } else {
                Some(AnyDeserialiser::V0(v0::Deserialiser { options }))
            }),
    {
        if version > CURRENT_VERSION {
            None
        } else {
            Some(Self::new_impl(version, options))
        }
    }

    pub fn new_default(version: u16) -> (r: Option<Self>)
        ensures
            r == (if version > CURRENT_VERSION {
                None
            } else {
                Some(AnyDeserialiser::V0(v0::Deserialiser { options: DesOptions }))
            }),
    {
        if version > CURRENT_VERSION {
            None
        } else {
            Some(Self::new_impl(version, DesOptions))
        }
    }

    fn new_impl(version: u16, options: DesOptions) -> (r: Self)
        requires
            version <= CURRENT_VERSION,
        ensures
            r == AnyDeserialiser::V0(v0::Deserialiser { options }),
    {
        Self::V0(v0::Deserialiser::from(options))
    }
}

impl RawDeserialiser for AnyDeserialiser {
    open spec fn spec_read_meta(&self, s: Seq<u8>) -> (
        Result<RecordMeta, IoError<ParserError>>,
        Seq<u8>,
    ) {
        match self {
            AnyDeserialiser::V0(des) => des.spec_read_meta(s),
        }
    }

    fn read_meta(&self, rdr: &mut &[u8]) -> (r: Result<RecordMeta, IoError<ParserError>>) {
        match self {
            AnyDeserialiser::V0(des) => des.read_meta(rdr),
        }
    }
}

/// The serialiser of any supported version.
#[derive(Debug, Clone, Copy, PartialEq, Eq, Structural)]
pub enum AnySerialiser {
    V0(v0::Serialiser),
}

impl AnySerialiser {
    pub fn new(version: u16, options: SerOptions) -> (r: Option<Self>)
        ensures
            r == (if version > CURRENT_VERSION {
                None
            } else {
                Some(AnySerialiser::V0(v0::Serialiser { options }))
            }),
    {
        if version > CURRENT_VERSION {
            None
        } else {
            Some(Self::new_impl(version, options))
        }
    }

    pub fn new_default(version: u16) -> (r: Option<Self>)
        ensures
            r == (if version > CURRENT_VERSION {
                None
            } else {
                Some(AnySerialiser::V0(v0::Serialiser { options: SerOptions }))
            }),
    {
        if version > CURRENT_VERSION {
            None
        } else {
            Some(Self::new_impl(version, SerOptions))
        }
    }

    fn new_impl(version: u16, options: SerOptions) -> (r: Self)
        requires
            version <= CURRENT_VERSION,
        ensures
            r == AnySerialiser::V0(v0::Serialiser { options }),
    {
        Self::V0(v0::Serialiser::from(options))
    }
}

impl RawSerialiser for AnySerialiser {
    open spec fn spec_meta_bytes(&self, meta: RecordMeta) -> Seq<u8> {
        match self {
            AnySerialiser::V0(ser) => ser.spec_meta_bytes(meta),
        }
    }

    fn write_meta(&self, meta: RecordMeta, wtr: &mut Vec<u8>) -> (r: Result<
        (),
        IoError<ParserError>,
    >) {
        match self {
            AnySerialiser::V0(ser) => ser.write_meta(meta, wtr),
        }
    }

    fn encoded_meta_len(&self, user_len: usize) -> (n: usize) {
        match self {
            AnySerialiser::V0(ser) => ser.encoded_meta_len(user_len),
        }
    }
}

/// Reads a header from its seven bytes.
///
/// The magic bytes are checked first, then the guard byte.
pub fn read_header(input: &[u8; 7]) -> (r: Result<Header, ParserError>)
    ensures
        match r {
            Ok(h) => spec_header_ok(input@) && h.version == spec_u16_from_le(
                input@.subrange(4, 6),
            ),
            Err(ParserError::MagicBytes(found)) => input@.take(4) != spec_magic() && found@
                == input@.take(4),
            Err(ParserError::Guard(g)) => input@.take(4) == spec_magic() && input[6] != GUARD
                && g == input[6],
            Err(_) => false,
        },
{
    let magic_bytes = [input[0], input[1], input[2], input[3]];
    assert(magic_bytes@ =~= input@.take(4));
    if magic_bytes[0] != MAGIC_BYTES[0] || magic_bytes[1] != MAGIC_BYTES[1] || magic_bytes[2]
        != MAGIC_BYTES[2] || magic_bytes[3] != MAGIC_BYTES[3] {
        return Err(ParserError::MagicBytes(magic_bytes));
    } else if input[6] != 0 {
        assert(input@.take(4) =~= spec_magic());
        return Err(ParserError::Guard(input[6]));
    }
    assert(input@.take(4) =~= spec_magic());
    let v = [input[4], input[5]];
    assert(v@ =~= input@.subrange(4, 6));
    let version = u16_from_le(v);
    Ok(Header { version })
}

/// Writes a header.
pub fn write_header(wtr: &mut Vec<u8>, header: Header) -> (r: Result<(), IoError<ParserError>>)
    ensures
        r is Ok,
        final(wtr)@ == old(wtr)@ + spec_header_bytes(header),
{
    push_all(wtr, MAGIC_BYTES.as_slice());
    let v = u16_to_le(header.version());
    push_all(wtr, v.as_slice());
    wtr.push(GUARD);
    assert(MAGIC_BYTES@ =~= spec_magic());
    assert(wtr@ =~= old(wtr)@ + spec_header_bytes(header));
    Ok(())
}

} // verus!
