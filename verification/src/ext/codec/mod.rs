//! The extension codec: the payloads of the extension's records,
//! dispatched by the version of the extension.
//!
//! ```text
//! SourceAdd    = id:u16LE | version:u16LE | name:utf8 (the rest of the payload)
//! SourceRemove = id:u16LE
//! ```
use crate::error::{IoError, IoKind};
use crate::ext::error::DesError;
use crate::ext::reader::MsrfExtReader;
use crate::ext::writer::MsrfExtWriter;
use crate::ext::{Record, RecordView, SourceAdd, SourceAddView, SourceRemove, MSRF_EXT_VERSION};
use crate::io::{BoundedReader, RecordChunk, SizedRecord};
use crate::stream::{MutByteStream, RecordSerialise};
use crate::IntoMetadata;
use vstd::prelude::*;

pub mod v0;

verus! {

/// The encoder of the extension's payloads. A user codec for another family
/// of records has the same shape: the framing is the core's, the codec
/// handles payload bytes only.
pub trait RawSerialiser {
    /// The payload of a `SourceAdd`. An implementation says what it is;
    /// where it says nothing, nothing is known of it.
    open spec fn spec_source_add(&self, rec: SourceAddView) -> Seq<u8> {
        arbitrary()
    }

    /// The payload of a `SourceRemove`.
    open spec fn spec_source_remove(&self, rec: SourceRemove) -> Seq<u8> {
        arbitrary()
    }

    /// Why the serialiser refuses a `SourceAdd`, if it does: the error with
    /// which the write fails. It depends on the serialiser and the record
    /// alone. An implementation says what it is; where it says nothing,
    /// nothing is known of it.
    open spec fn spec_source_add_error(&self, rec: SourceAddView) -> Option<IoError<DesError>> {
        arbitrary()
    }

    /// Why the serialiser refuses a `SourceRemove`, if it does.
    open spec fn spec_source_remove_error(&self, rec: SourceRemove) -> Option<IoError<DesError>> {
        arbitrary()
    }

    /// Appends the payload of `rec` to `wtr`, or fails with the error for
    /// which the serialiser refuses the record and appends nothing.
    fn write_source_add(&self, rec: &SourceAdd, wtr: &mut Vec<u8>) -> (r: Result<
        (),
        IoError<DesError>,
    >)
        ensures
            match r {
                Ok(_) => {
                    &&& self.spec_source_add_error(rec@) is None
                    &&& final(wtr)@ == old(wtr)@ + self.spec_source_add(rec@)
                },
                Err(e) => {
                    &&& self.spec_source_add_error(rec@) == Some(e)
                    &&& final(wtr)@ == old(wtr)@
                },
            },
    ;

    /// Appends the payload of `rec` to `wtr`, or fails with the error for
    /// which the serialiser refuses the record and appends nothing.
    fn write_source_remove(&self, rec: &SourceRemove, wtr: &mut Vec<u8>) -> (r: Result<
        (),
        IoError<DesError>,
    >)
        ensures
            match r {
                Ok(_) => {
                    &&& self.spec_source_remove_error(*rec) is None
                    &&& final(wtr)@ == old(wtr)@ + self.spec_source_remove(*rec)
                },
                Err(e) => {
                    &&& self.spec_source_remove_error(*rec) == Some(e)
                    &&& final(wtr)@ == old(wtr)@
                },
            },
    ;
}

/// The decoder of the extension's payloads. It reads from the bounded
/// reader of one record, whose bound gives the length of what has no length
/// of its own.
pub trait RawDeserialiser {
    /// The `SourceAdd` that the payload `p` holds. An implementation says
    /// what it is; where it says nothing, nothing is known of it.
    open spec fn spec_read_source_add(&self, p: Seq<u8>) -> Result<
        SourceAddView,
        IoError<DesError>,
    > {
        arbitrary()
    }

    /// The number of bytes of the payload `p` that reading a `SourceAdd`
    /// consumes.
    open spec fn spec_source_add_taken(&self, p: Seq<u8>) -> nat {
        arbitrary()
    }

    /// The `SourceRemove` that the payload `p` holds.
    open spec fn spec_read_source_remove(&self, p: Seq<u8>) -> Result<
        SourceRemove,
        IoError<DesError>,
    > {
        arbitrary()
    }

    /// The number of bytes of the payload `p` that reading a `SourceRemove`
    /// consumes.
    open spec fn spec_source_remove_taken(&self, p: Seq<u8>) -> nat {
        arbitrary()
    }

    fn read_source_add(&self, rdr: &mut RecordChunk<'_, '_>) -> (r: Result<
        SourceAdd,
        IoError<DesError>,
    >)
        ensures
            match r {
                Ok(rec) => self.spec_read_source_add(old(rdr).now().visible()) == Ok::<
                    SourceAddView,
                    IoError<DesError>,
                >(rec@),
                Err(e) => self.spec_read_source_add(old(rdr).now().visible()) == Err::<
                    SourceAddView,
                    IoError<DesError>,
                >(e),
            },
            self.spec_source_add_taken(old(rdr).now().visible()) <= old(rdr).now().visible().len(),
            final(rdr).now() == old(rdr).now().advance(
                self.spec_source_add_taken(old(rdr).now().visible()),
            ),
            *final(final(rdr).0) == *final(old(rdr).0),
    ;

    fn read_source_remove(&self, rdr: &mut RecordChunk<'_, '_>) -> (r: Result<
        SourceRemove,
        IoError<DesError>,
    >)
        ensures
            r == self.spec_read_source_remove(old(rdr).now().visible()),
            self.spec_source_remove_taken(old(rdr).now().visible()) <= old(
                rdr,
            ).now().visible().len(),
            final(rdr).now() == old(rdr).now().advance(
                self.spec_source_remove_taken(old(rdr).now().visible()),
            ),
            *final(final(rdr).0) == *final(old(rdr).0),
    ;
}

/// A version of the extension codec that this library supports.
#[derive(Debug, PartialEq, Eq, Clone, Copy)]
pub struct Version(u16);

impl View for Version {
    type V = u16;

    closed spec fn view(&self) -> u16 {
        self.0
    }
}

impl Version {
    #[verifier::type_invariant]
    closed spec fn supported(self) -> bool {
        self.0 <= MSRF_EXT_VERSION
    }

    /// The version `version`, or `None` where the library has no codec for
    /// it.
    pub fn new(version: u16) -> (r: Option<Version>)
        ensures
            r is Some <==> version <= MSRF_EXT_VERSION,
            r matches Some(v) ==> v@ == version,
    {
        if version > MSRF_EXT_VERSION {
            None
        } else {
            Some(Version(version))
        }
    }

    pub fn get(&self) -> (version: u16)
        ensures
            version == self@,
            version <= MSRF_EXT_VERSION,
    {
        proof {
            use_type_invariant(self);
        }
        self.0
    }

    pub fn current() -> (v: Version)
        ensures
            v@ == MSRF_EXT_VERSION,
    {
        Version(MSRF_EXT_VERSION)
    }
}

/// The serialiser of any supported version of the extension.
#[derive(Debug, Clone, Copy, PartialEq, Eq, Structural)]
pub enum AnySerialiser {
    V0(v0::Serialiser),
}

impl RawSerialiser for AnySerialiser {
    open spec fn spec_source_add(&self, rec: SourceAddView) -> Seq<u8> {
        match self {
            AnySerialiser::V0(ser) => ser.spec_source_add(rec),
        }
    }

    open spec fn spec_source_remove(&self, rec: SourceRemove) -> Seq<u8> {
        match self {
            AnySerialiser::V0(ser) => ser.spec_source_remove(rec),
        }
    }

    open spec fn spec_source_add_error(&self, rec: SourceAddView) -> Option<IoError<DesError>> {
        match self {
            AnySerialiser::V0(ser) => ser.spec_source_add_error(rec),
        }
    }

    open spec fn spec_source_remove_error(&self, rec: SourceRemove) -> Option<IoError<DesError>> {
        match self {
            AnySerialiser::V0(ser) => ser.spec_source_remove_error(rec),
        }
    }

    fn write_source_add(&self, rec: &SourceAdd, wtr: &mut Vec<u8>) -> (r: Result<
        (),
        IoError<DesError>,
    >)
        ensures
            r is Ok,
    {
        match self {
            AnySerialiser::V0(ser) => ser.write_source_add(rec, wtr),
        }
    }

    fn write_source_remove(&self, rec: &SourceRemove, wtr: &mut Vec<u8>) -> (r: Result<
        (),
        IoError<DesError>,
    >)
        ensures
            r is Ok,
    {
        match self {
            AnySerialiser::V0(ser) => ser.write_source_remove(rec, wtr),
        }
    }
}

impl AnySerialiser {
    pub fn new(version: Version) -> (ser: AnySerialiser)
        ensures
            ser == AnySerialiser::V0(v0::Serialiser),
    {
        match version.get() {
            // the one version that a `Version` can be
            _ => AnySerialiser::V0(v0::Serialiser),
        }
    }
}

impl SizedRecord<AnySerialiser> for SourceAdd {
    open spec fn spec_encoded_len(&self, ser: &AnySerialiser) -> usize {
        match ser {
            AnySerialiser::V0(ser) => self.spec_encoded_len(ser),
        }
    }

    fn encoded_len(&self, ser: &AnySerialiser) -> (n: usize) {
        match ser {
            AnySerialiser::V0(ser) => self.encoded_len(ser),
        }
    }
}

impl SizedRecord<AnySerialiser> for SourceRemove {
    open spec fn spec_encoded_len(&self, ser: &AnySerialiser) -> usize {
        match ser {
            AnySerialiser::V0(ser) => self.spec_encoded_len(ser),
        }
    }

    fn encoded_len(&self, ser: &AnySerialiser) -> (n: usize) {
        match ser {
            AnySerialiser::V0(ser) => self.encoded_len(ser),
        }
    }
}

impl IntoMetadata<AnySerialiser> for SourceAdd {

}

impl IntoMetadata<AnySerialiser> for SourceRemove {

}

/// The deserialiser of any supported version of the extension.
#[derive(Debug, Clone, Copy, PartialEq, Eq, Structural)]
pub enum AnyDeserialiser {
    V0(v0::Deserialiser),
}

impl RawDeserialiser for AnyDeserialiser {
    open spec fn spec_read_source_add(&self, p: Seq<u8>) -> Result<
        SourceAddView,
        IoError<DesError>,
    > {
        match self {
            AnyDeserialiser::V0(des) => des.spec_read_source_add(p),
        }
    }

    open spec fn spec_source_add_taken(&self, p: Seq<u8>) -> nat {
        match self {
            AnyDeserialiser::V0(des) => des.spec_source_add_taken(p),
        }
    }

    open spec fn spec_read_source_remove(&self, p: Seq<u8>) -> Result<
        SourceRemove,
        IoError<DesError>,
    > {
        match self {
            AnyDeserialiser::V0(des) => des.spec_read_source_remove(p),
        }
    }

    open spec fn spec_source_remove_taken(&self, p: Seq<u8>) -> nat {
        match self {
            AnyDeserialiser::V0(des) => des.spec_source_remove_taken(p),
        }
    }

    fn read_source_add(&self, rdr: &mut RecordChunk<'_, '_>) -> (r: Result<
        SourceAdd,
        IoError<DesError>,
    >) {
        match self {
            AnyDeserialiser::V0(des) => des.read_source_add(rdr),
        }
    }

    fn read_source_remove(&self, rdr: &mut RecordChunk<'_, '_>) -> (r: Result<
        SourceRemove,
        IoError<DesError>,
    >) {
        match self {
            AnyDeserialiser::V0(des) => des.read_source_remove(rdr),
        }
    }
}

impl AnyDeserialiser {
    pub fn new(version: Version) -> (des: AnyDeserialiser)
        ensures
            des == AnyDeserialiser::V0(v0::Deserialiser),
    {
        match version.get() {
            // the one version that a `Version` can be
            _ => AnyDeserialiser::V0(v0::Deserialiser),
        }
    }
}

/// What `data` written to the start of a buffer that held `before` leaves
/// in it.
pub open spec fn spec_put(before: Seq<u8>, data: Seq<u8>) -> Seq<u8> {
    data + before.skip(data.len() as int)
}

/// The codec of one version of the extension over buffers: a record is
/// read from the whole payload of its frame, and written to the start of
/// a buffer.
impl RecordSerialise for Version {
    type Err = IoError<DesError>;

    type Record = Record;

    fn deserialise_record(&self, id: u16, value: &[u8]) -> (r: Result<Record, IoError<DesError>>)
        ensures
            match r {
                Ok(rec) => MsrfExtReader::<AnyDeserialiser>::spec_read_record(
                    AnyDeserialiser::V0(v0::Deserialiser),
                    id,
                    value@,
                ) == Ok::<RecordView, IoError<DesError>>(rec@),
                Err(e) => MsrfExtReader::<AnyDeserialiser>::spec_read_record(
                    AnyDeserialiser::V0(v0::Deserialiser),
                    id,
                    value@,
                ) == Err::<RecordView, IoError<DesError>>(e),
            },
    {
        let reader = MsrfExtReader::new(AnyDeserialiser::new(*self));
        let limit = value.len() as u64;
        let mut src = BoundedReader::new(value, limit);
        let mut chunk = RecordChunk::new(&mut src);
        assert(chunk.now().visible() =~= value@);
        reader.read_record(id, &mut chunk)
    }

    fn serialise_record(&self, value: &mut [u8], record: &Record) -> (r: Result<
        usize,
        IoError<DesError>,
    >)
        ensures
            match r {
                Ok(n) => {
                    let data = MsrfExtWriter::<AnySerialiser>::spec_record(
                        AnySerialiser::V0(v0::Serialiser),
                        *record,
                    );
                    &&& n == data.len()
                    &&& n <= old(value)@.len()
                    &&& final(value)@ == spec_put(old(value)@, data)
                },
                Err(e) => {
                    let data = MsrfExtWriter::<AnySerialiser>::spec_record(
                        AnySerialiser::V0(v0::Serialiser),
                        *record,
                    );
                    let deficit = data.len() - old(value)@.len();
                    &&& deficit > 0
                    &&& e == IoError::<DesError>::Io(
                        IoKind::WriteZero(
                            if deficit > usize::MAX {
                                usize::MAX
                            } else {
                                deficit as usize
                            },
                        ),
                    )
                    &&& final(value)@ == old(value)@
                },
            },
    {
        let ser = AnySerialiser::new(*self);
        let mut cur: &mut [u8] = value;
        match record {
            Record::SourceAdd(rec) => {
                let name = rec.name.as_str().as_bytes();
                let room = cur.len();
                if room < 4 {
                    return Err(IoError::Io(IoKind::WriteZero(name.len().saturating_add(4 - room))));
                } else if name.len() > room - 4 {
                    return Err(IoError::Io(IoKind::WriteZero(name.len() - (room - 4))));
                }
                let total = name.len() + 4;
                let _ = cur.insert_u16(rec.id);
                let _ = cur.insert_u16(rec.version);
                let _ = cur.insert_checked(name);
                proof {
                    assert(final(value)@ =~= spec_put(old(value)@, v0::spec_source_add(rec@)));
                }
                Ok(total)
            },
            Record::SourceRemove(rec) => {
                if cur.len() < 2 {
                    return Err(IoError::Io(IoKind::WriteZero(2 - cur.len())));
                }
                let _ = cur.insert_u16(rec.id);
                proof {
                    assert(final(value)@ =~= spec_put(old(value)@, v0::spec_source_remove(*rec)));
                }
                Ok(2)
            },
        }
    }
}

} // verus!
