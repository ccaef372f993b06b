//! Writing the extension's records as the payloads of a stream.
use crate::error::{IoError, IoKind, ParserError};
use crate::ext::codec::{AnySerialiser, RawSerialiser, Version};
use crate::ext::error::DesError;
use crate::ext::{Record, SourceAdd, SourceRemove};
use crate::io::SizedRecord;
use crate::writer::IntoData;
use crate::{AssignedId, IntoMetadata, RecordMeta};
use vstd::prelude::*;

verus! {

/// Builds a writer of the extension's records for a version of the
/// extension codec.
#[derive(Debug, Clone, Copy)]
pub struct MsrfExtWriterBuilder {
    pub(crate) version: Version,
}

impl Default for MsrfExtWriterBuilder {
    fn default() -> (b: Self) {
        Self { version: Version::current() }
    }
}

impl MsrfExtWriterBuilder {
    pub fn build(self) -> (w: MsrfExtWriter<AnySerialiser>)
        ensures
            w.spec_ser() == AnySerialiser::V0(crate::ext::codec::v0::Serialiser),
    {
        MsrfExtWriter::new(AnySerialiser::new(self.version))
    }

    pub fn build_with<S: RawSerialiser>(self, ser: S) -> (w: MsrfExtWriter<S>)
        ensures
            w.spec_ser() == ser,
    {
        MsrfExtWriter::new(ser)
    }
}

/// The writer of the extension's records.
pub struct MsrfExtWriter<S> {
    pub(crate) ser: S,
}

impl<S: RawSerialiser> MsrfExtWriter<S> {
    /// The serialiser of this writer.
    pub open(crate) spec fn spec_ser(&self) -> S {
        self.ser
    }

    /// The payload of a record.
    pub open spec fn spec_record(ser: S, record: Record) -> Seq<u8> {
        match record {
            Record::SourceAdd(rec) => ser.spec_source_add(rec@),
            Record::SourceRemove(rec) => ser.spec_source_remove(rec),
        }
    }

    /// Why the serialiser `ser` refuses a record, if it does: the error
    /// with which the write fails.
    pub open spec fn spec_record_error(ser: S, record: Record) -> Option<IoError<DesError>> {
        match record {
            Record::SourceAdd(rec) => ser.spec_source_add_error(rec@),
            Record::SourceRemove(rec) => ser.spec_source_remove_error(rec),
        }
    }

    /// The length of the payload of `record`.
    pub fn record_len<T: SizedRecord<S>>(&self, record: &T) -> (n: usize)
        ensures
            n == record.spec_encoded_len(&self.spec_ser()),
    {
        record.encoded_len(&self.ser)
    }

    fn new(ser: S) -> (w: MsrfExtWriter<S>)
        ensures
            w.spec_ser() == ser,
    {
        MsrfExtWriter { ser }
    }

    /// Appends the payload of `record` to `wtr`, or fails with the error
    /// for which the serialiser refuses the record and appends nothing.
    pub fn write_record(&self, wtr: &mut Vec<u8>, record: &Record) -> (r: Result<
        (),
        IoError<DesError>,
    >)
        ensures
            match r {
                Ok(_) => {
                    &&& Self::spec_record_error(self.spec_ser(), *record) is None
                    &&& final(wtr)@ == old(wtr)@ + Self::spec_record(self.spec_ser(), *record)
                },
                Err(e) => {
                    &&& Self::spec_record_error(self.spec_ser(), *record) == Some(e)
                    &&& final(wtr)@ == old(wtr)@
                },
            },
    {
        match record {
            Record::SourceAdd(source_add) => self.ser.write_source_add(source_add, wtr),
            Record::SourceRemove(source_remove) => self.ser.write_source_remove(
                source_remove,
                wtr,
            ),
        }
    }

    pub fn write_source_add(&self, wtr: &mut Vec<u8>, val: &SourceAdd) -> (r: Result<
        (),
        IoError<DesError>,
    >)
        ensures
            match r {
                Ok(_) => {
                    &&& self.spec_ser().spec_source_add_error(val@) is None
                    &&& final(wtr)@ == old(wtr)@ + self.spec_ser().spec_source_add(val@)
                },
                Err(e) => {
                    &&& self.spec_ser().spec_source_add_error(val@) == Some(e)
                    &&& final(wtr)@ == old(wtr)@
                },
            },
    {
        self.ser.write_source_add(val, wtr)
    }

    pub fn write_source_remove(&self, wtr: &mut Vec<u8>, val: &SourceRemove) -> (r: Result<
        (),
        IoError<DesError>,
    >)
        ensures
            match r {
                Ok(_) => {
                    &&& self.spec_ser().spec_source_remove_error(*val) is None
                    &&& final(wtr)@ == old(wtr)@ + self.spec_ser().spec_source_remove(*val)
                },
                Err(e) => {
                    &&& self.spec_ser().spec_source_remove_error(*val) == Some(e)
                    &&& final(wtr)@ == old(wtr)@
                },
            },
    {
        self.ser.write_source_remove(val, wtr)
    }
}

impl<S: RawSerialiser> MsrfExtWriter<S> where
    SourceAdd: IntoMetadata<S>,
    SourceRemove: IntoMetadata<S>,
 {
    /// The length of the payload of a record, as its metadata declares it.
    pub open spec fn spec_record_len(ser: S, record: Record) -> usize {
        match record {
            Record::SourceAdd(rec) => rec.spec_encoded_len(&ser),
            Record::SourceRemove(rec) => rec.spec_encoded_len(&ser),
        }
    }

    /// The metadata of the frame of `record` as a record of the source
    /// `source_id`: the record's type id and the length of its payload.
    pub fn generate_meta(&self, source_id: u16, record: &Record) -> (m: RecordMeta)
        ensures
            m == RecordMeta::spec_new(
                source_id,
                record.spec_type_id(),
                Self::spec_record_len(self.spec_ser(), *record) as u64,
            ),
    {
        match record {
            Record::SourceAdd(source_add) => source_add.meta(&self.ser, source_id),
            Record::SourceRemove(source_remove) => source_remove.meta(&self.ser, source_id),
        }
    }
}

/// The payload length of the extension's records for the frame codec: the
/// length in the current version of the extension codec.
impl SizedRecord<crate::codec::AnySerialiser> for SourceAdd {
    open spec fn spec_encoded_len(&self, _ser: &crate::codec::AnySerialiser) -> usize {
        self.spec_encoded_len(&crate::ext::codec::v0::Serialiser)
    }

    fn encoded_len(&self, _ser: &crate::codec::AnySerialiser) -> (n: usize) {
        self.encoded_len(&crate::ext::codec::v0::Serialiser)
    }
}

impl SizedRecord<crate::codec::AnySerialiser> for SourceRemove {
    open spec fn spec_encoded_len(&self, _ser: &crate::codec::AnySerialiser) -> usize {
        self.spec_encoded_len(&crate::ext::codec::v0::Serialiser)
    }

    fn encoded_len(&self, _ser: &crate::codec::AnySerialiser) -> (n: usize) {
        self.encoded_len(&crate::ext::codec::v0::Serialiser)
    }
}

impl IntoMetadata<crate::codec::AnySerialiser> for SourceAdd {

}

impl IntoMetadata<crate::codec::AnySerialiser> for SourceRemove {

}

/// The error of the extension codec as an error of a stream writer.
pub fn into_stream_error(e: IoError<DesError>) -> (r: IoError<ParserError>)
    ensures
        r == (match e {
            IoError::Io(k) => IoError::<ParserError>::Io(k),
            IoError::Parser(_) => IoError::<ParserError>::Io(IoKind::InvalidData),
        }),
{
    match e {
        IoError::Io(k) => IoError::Io(k),
        IoError::Parser(_) => IoError::Io(IoKind::InvalidData),
    }
}

impl IntoData<crate::codec::AnySerialiser> for SourceAdd {
    open spec fn spec_data(&self, _ser: &crate::codec::AnySerialiser, _source_id: u16) -> Seq<u8> {
        crate::ext::codec::v0::spec_source_add(self@)
    }

    /// A `SourceAdd` refuses nothing.
    open spec fn spec_data_error(
        &self,
        _ser: &crate::codec::AnySerialiser,
        _source_id: u16,
    ) -> Option<IoError<ParserError>> {
        None
    }

    fn encode_into(
        &self,
        wtr: &mut Vec<u8>,
        _ser: &crate::codec::AnySerialiser,
        _source_id: u16,
    ) -> (r: Result<(), IoError<ParserError>>)
        ensures
            r is Ok,
            final(wtr)@ == old(wtr)@ + crate::ext::codec::v0::spec_source_add(self@),
    {
        match crate::ext::codec::v0::Serialiser.write_source_add(self, wtr) {
            Ok(_) => Ok(()),
            Err(e) => Err(into_stream_error(e)),
        }
    }
}

impl IntoData<crate::codec::AnySerialiser> for SourceRemove {
    open spec fn spec_data(&self, _ser: &crate::codec::AnySerialiser, _source_id: u16) -> Seq<u8> {
        crate::ext::codec::v0::spec_source_remove(*self)
    }

    /// A `SourceRemove` refuses nothing.
    open spec fn spec_data_error(
        &self,
        _ser: &crate::codec::AnySerialiser,
        _source_id: u16,
    ) -> Option<IoError<ParserError>> {
        None
    }

    fn encode_into(
        &self,
        wtr: &mut Vec<u8>,
        _ser: &crate::codec::AnySerialiser,
        _source_id: u16,
    ) -> (r: Result<(), IoError<ParserError>>)
        ensures
            r is Ok,
            final(wtr)@ == old(wtr)@ + crate::ext::codec::v0::spec_source_remove(*self),
    {
        match crate::ext::codec::v0::Serialiser.write_source_remove(self, wtr) {
            Ok(_) => Ok(()),
            Err(e) => Err(into_stream_error(e)),
        }
    }
}

/// What a stream writer is handed by a `SourceAdd`: the type id
/// `ID_SOURCE_ADD`, no refusal, and as payload the id, the version and the
/// name, whose length is the length that the record reports of itself
/// unless that is beyond `usize`.
pub proof fn lemma_typed_source_add(
    rec: SourceAdd,
    ser: crate::codec::AnySerialiser,
    source_id: u16,
)
    ensures
        rec.spec_typ_id() == crate::ext::ID_SOURCE_ADD,
        rec.spec_data_error(&ser, source_id) is None,
        rec.spec_data(&ser, source_id) == crate::ext::codec::v0::spec_source_add(rec@),
        rec.spec_data(&ser, source_id).len() <= usize::MAX ==> rec.spec_encoded_len(&ser)
            == rec.spec_data(&ser, source_id).len(),
        rec.spec_data(&ser, source_id).len() <= usize::MAX ==> crate::writer::spec_fitted(
            rec.spec_data(&ser, source_id),
            rec.spec_encoded_len(&ser) as u64,
        ) == rec.spec_data(&ser, source_id),
{
    crate::ext::lemma_type_ids();
    let data = rec.spec_data(&ser, source_id);
    if data.len() <= usize::MAX {
        assert(data.take(data.len() as int) =~= data);
    }
}

/// What a stream writer is handed by a `SourceRemove`: the type id
/// `ID_SOURCE_REMOVE`, no refusal, and as payload the two bytes of the id.
pub proof fn lemma_typed_source_remove(
    rec: SourceRemove,
    ser: crate::codec::AnySerialiser,
    source_id: u16,
)
    ensures
        rec.spec_typ_id() == crate::ext::ID_SOURCE_REMOVE,
        rec.spec_data_error(&ser, source_id) is None,
        rec.spec_data(&ser, source_id) == crate::ext::codec::v0::spec_source_remove(rec),
        rec.spec_encoded_len(&ser) == 2,
        crate::writer::spec_fitted(
            rec.spec_data(&ser, source_id),
            rec.spec_encoded_len(&ser) as u64,
        ) == rec.spec_data(&ser, source_id),
{
    crate::ext::lemma_type_ids();
    let data = rec.spec_data(&ser, source_id);
    assert(data.take(2) =~= data);
}

} // verus!
