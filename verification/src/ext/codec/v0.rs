//! Version 0 of the extension codec.
use crate::endian::{spec_u16_from_le, spec_u16_to_le, u16_to_le};
use crate::error::{IoError, IoKind};
use crate::ext::codec::{RawDeserialiser, RawSerialiser};
use crate::ext::error::DesError;
use crate::ext::{SourceAdd, SourceAddView, SourceRemove};
use crate::io::{lemma_advance, lemma_advance_twice, push_all, RecordChunk, SizedRecord};
use crate::stream::ByteStream;
use crate::IntoMetadata;
use vstd::prelude::*;
use vstd::string::StringSliceAdditionalSpecFns;
use vstd::utf8::{decode_utf8, encode_utf8, valid_utf8};

verus! {

/// The length of a `SourceAdd` without its name.
pub const SOURCE_ADD_LEN: usize = 4;

/// The length of a `SourceRemove`.
pub const SOURCE_REMOVE_LEN: usize = 2;

/// The payload of a `SourceAdd`: its id, its version, and its name as
/// UTF-8 up to the end of the payload.
pub open spec fn spec_source_add(rec: SourceAddView) -> Seq<u8> {
    spec_u16_to_le(rec.id) + spec_u16_to_le(rec.version) + encode_utf8(rec.name)
}

/// The payload of a `SourceRemove`: its id.
pub open spec fn spec_source_remove(rec: SourceRemove) -> Seq<u8> {
    spec_u16_to_le(rec.id)
}

/// The `SourceAdd` that the payload `p` holds. A payload too short for the
/// id and the version is a short read; a name that is no UTF-8 is invalid
/// data.
pub open spec fn spec_read_source_add(p: Seq<u8>) -> Result<SourceAddView, IoError<DesError>> {
    if p.len() < 4 {
        Err(IoError::Io(IoKind::UnexpectedEof((4 - p.len()) as usize)))
    } else if !valid_utf8(p.skip(4)) {
        Err(IoError::Io(IoKind::InvalidData))
    } else {
        Ok(
            SourceAddView {
                id: spec_u16_from_le(p.take(2)),
                version: spec_u16_from_le(p.subrange(2, 4)),
                name: decode_utf8(p.skip(4)),
            },
        )
    }
}

/// The `SourceRemove` that the payload `p` holds. A payload too short for
/// the id is a short read.
pub open spec fn spec_read_source_remove(p: Seq<u8>) -> Result<SourceRemove, IoError<DesError>> {
    if p.len() < 2 {
        Err(IoError::Io(IoKind::UnexpectedEof((2 - p.len()) as usize)))
    } else {
        Ok(SourceRemove { id: spec_u16_from_le(p.take(2)) })
    }
}

/// The serialiser of version 0 of the extension.
#[derive(Debug, Clone, Copy, PartialEq, Eq, Structural)]
pub struct Serialiser;

impl Default for Serialiser {
    fn default() -> (s: Self) {
        Serialiser
    }
}

impl RawSerialiser for Serialiser {
    open spec fn spec_source_add(&self, rec: SourceAddView) -> Seq<u8> {
        spec_source_add(rec)
    }

    open spec fn spec_source_remove(&self, rec: SourceRemove) -> Seq<u8> {
        spec_source_remove(rec)
    }

    /// Version 0 refuses no record.
    open spec fn spec_source_add_error(&self, rec: SourceAddView) -> Option<IoError<DesError>> {
        None
    }

    /// Version 0 refuses no record.
    open spec fn spec_source_remove_error(&self, rec: SourceRemove) -> Option<IoError<DesError>> {
        None
    }

    fn write_source_add(&self, rec: &SourceAdd, wtr: &mut Vec<u8>) -> (r: Result<
        (),
        IoError<DesError>,
    >)
        ensures
            r is Ok,
    {
        push_all(wtr, u16_to_le(rec.id).as_slice());
        push_all(wtr, u16_to_le(rec.version).as_slice());
        push_all(wtr, rec.name.as_str().as_bytes());
        assert(wtr@ =~= old(wtr)@ + spec_source_add(rec@));
        Ok(())
    }

    fn write_source_remove(&self, rec: &SourceRemove, wtr: &mut Vec<u8>) -> (r: Result<
        (),
        IoError<DesError>,
    >)
        ensures
            r is Ok,
    {
        push_all(wtr, u16_to_le(rec.id).as_slice());
        Ok(())
    }
}

/// `core::str::from_utf8`: the string slice that has exactly the bytes
/// `bytes`, where they are valid UTF-8, and nothing where they are not.
#[verifier::external_body]
fn str_from_utf8<'a>(bytes: &'a [u8]) -> (r: Option<&'a str>)
    ensures
        r is Some <==> valid_utf8(bytes@),
        r matches Some(s) ==> s.spec_bytes() == bytes@,
{
    match core::str::from_utf8(bytes) {
        Ok(s) => Some(s),
        Err(_) => None,
    }
}

/// The deserialiser of version 0 of the extension.
#[derive(Debug, Clone, Copy, PartialEq, Eq, Structural)]
pub struct Deserialiser;

impl Default for Deserialiser {
    fn default() -> (d: Self) {
        Deserialiser
    }
}

impl RawDeserialiser for Deserialiser {
    open spec fn spec_read_source_add(&self, p: Seq<u8>) -> Result<
        SourceAddView,
        IoError<DesError>,
    > {
        spec_read_source_add(p)
    }

    open spec fn spec_source_add_taken(&self, p: Seq<u8>) -> nat {
        if p.len() < 4 {
            0
        } else {
            p.len()
        }
    }

    open spec fn spec_read_source_remove(&self, p: Seq<u8>) -> Result<
        SourceRemove,
        IoError<DesError>,
    > {
        spec_read_source_remove(p)
    }

    open spec fn spec_source_remove_taken(&self, p: Seq<u8>) -> nat {
        if p.len() < 2 {
            0
        } else {
            2
        }
    }

    fn read_source_add(&self, rdr: &mut RecordChunk<'_, '_>) -> (r: Result<
        SourceAdd,
        IoError<DesError>,
    >) {
        let ghost p = rdr.now().visible();
        proof {
            lemma_advance(rdr.now(), 0);
        }
        let buf: [u8; 4] = match rdr.extract::<4>() {
            Ok(buf) => buf,
            Err(e) => return Err(IoError::Io(e.io_kind())),
        };
        proof {
            lemma_advance(old(rdr).now(), 4);
            lemma_advance(rdr.now(), rdr.now().visible().len());
        }
        let name_buf = rdr.read_to_end();
        proof {
            assert(name_buf@ == p.skip(4));
            lemma_advance_twice(old(rdr).now(), 4, (p.len() - 4) as nat);
        }
        let name = match str_from_utf8(name_buf) {
            Some(s) => s,
            None => return Err(IoError::Io(IoKind::InvalidData)),
        };
        let id_bytes = [buf[0], buf[1]];
        let version_bytes = [buf[2], buf[3]];
        proof {
            assert(id_bytes@ =~= p.take(2));
            assert(version_bytes@ =~= p.subrange(2, 4));
            vstd::utf8::decode_utf8_encode_utf8(name_buf@);
            vstd::utf8::encode_utf8_decode_utf8(name@);
        }
        Ok(
            SourceAdd {
                id: crate::endian::u16_from_le(id_bytes),
                version: crate::endian::u16_from_le(version_bytes),
                name: name.to_owned(),
            },
        )
    }

    fn read_source_remove(&self, rdr: &mut RecordChunk<'_, '_>) -> (r: Result<
        SourceRemove,
        IoError<DesError>,
    >) {
        proof {
            lemma_advance(rdr.now(), 0);
        }
        match rdr.extract::<2>() {
            Ok(buf) => Ok(SourceRemove { id: crate::endian::u16_from_le(buf) }),
            Err(e) => Err(IoError::Io(e.io_kind())),
        }
    }
}

impl SizedRecord<Serialiser> for SourceAdd {
    /// The id, the version and the name; the full range of `usize` where
    /// the sum is beyond it.
    open spec fn spec_encoded_len(&self, _ser: &Serialiser) -> usize {
        let name_len = encode_utf8(self.name@).len() as usize;
        if name_len + 4 > usize::MAX {
            usize::MAX
        } else {
            (name_len + 4) as usize
        }
    }

    fn encoded_len(&self, _ser: &Serialiser) -> (n: usize) {
        self.name.as_str().len().saturating_add(SOURCE_ADD_LEN)
    }
}

impl SizedRecord<Serialiser> for SourceRemove {
    open spec fn spec_encoded_len(&self, _ser: &Serialiser) -> usize {
        SOURCE_REMOVE_LEN
    }

    fn encoded_len(&self, _ser: &Serialiser) -> (n: usize) {
        SOURCE_REMOVE_LEN
    }
}

impl IntoMetadata<Serialiser> for SourceAdd {

}

impl IntoMetadata<Serialiser> for SourceRemove {

}

/// The payloads of the extension's records are read back as they were
/// written.
pub proof fn lemma_payload_roundtrip(add: SourceAddView, remove: SourceRemove)
    ensures
        spec_read_source_add(spec_source_add(add)) == Ok::<SourceAddView, IoError<DesError>>(add),
        spec_read_source_remove(spec_source_remove(remove)) == Ok::<
            SourceRemove,
            IoError<DesError>,
        >(remove),
{
    let p = spec_source_add(add);
    let name = encode_utf8(add.name);
    crate::endian::lemma_u16_roundtrip(add.id);
    crate::endian::lemma_u16_roundtrip(add.version);
    crate::endian::lemma_u16_roundtrip(remove.id);
    assert(p.take(2) =~= spec_u16_to_le(add.id));
    assert(p.subrange(2, 4) =~= spec_u16_to_le(add.version));
    assert(p.skip(4) =~= name);
    vstd::utf8::encode_utf8_valid_utf8(add.name);
    vstd::utf8::encode_utf8_decode_utf8(add.name);
    assert(spec_source_remove(remove).take(2) =~= spec_u16_to_le(remove.id));
}

} // verus!
