//! Reading the extension's records from the payloads of a stream.
use crate::error::IoError;
use crate::ext::codec::RawDeserialiser;
use crate::ext::error::DesError;
use crate::ext::{
    Record, RecordView, SourceAdd, SourceAddView, SourceRemove, ID_SOURCE_ADD, ID_SOURCE_REMOVE,
};
use crate::io::{lemma_advance, RecordChunk};
use crate::ConstAssignedId;
use vstd::prelude::*;

verus! {

/// The reader of the extension's records.
pub struct MsrfExtReader<D> {
    pub(crate) des: D,
}

impl<D: RawDeserialiser> MsrfExtReader<D> {
    /// The deserialiser of this reader.
    pub open(crate) spec fn spec_des(&self) -> D {
        self.des
    }

    /// The record with the type id `id` that the payload `p` holds.
    pub open spec fn spec_read_record(des: D, id: u16, p: Seq<u8>) -> Result<
        RecordView,
        IoError<DesError>,
    > {
        if id == ID_SOURCE_ADD {
            match des.spec_read_source_add(p) {
                Ok(rec) => Ok(RecordView::SourceAdd(rec)),
                Err(e) => Err(e),
            }
        } else if id == ID_SOURCE_REMOVE {
            match des.spec_read_source_remove(p) {
                Ok(rec) => Ok(RecordView::SourceRemove(rec)),
                Err(e) => Err(e),
            }
        } else {
            Err(IoError::Parser(DesError::UnexpectedType(id)))
        }
    }

    /// The number of bytes of the payload `p` that reading the record with
    /// the type id `id` consumes.
    pub open spec fn spec_taken(des: D, id: u16, p: Seq<u8>) -> nat {
        if id == ID_SOURCE_ADD {
            des.spec_source_add_taken(p)
        } else if id == ID_SOURCE_REMOVE {
            des.spec_source_remove_taken(p)
        } else {
            0
        }
    }

    pub fn new(des: D) -> (reader: Self)
        ensures
            reader.spec_des() == des,
    {
        MsrfExtReader { des }
    }

    /// Reads the record that the type id `id` announces from a payload.
    /// A type id that names no record of the extension is an error.
    pub fn read_record(&self, id: u16, rdr: &mut RecordChunk<'_, '_>) -> (r: Result<
        Record,
        IoError<DesError>,
    >)
        ensures
            match r {
                Ok(rec) => Self::spec_read_record(self.spec_des(), id, old(rdr).now().visible())
                    == Ok::<RecordView, IoError<DesError>>(rec@),
                Err(e) => Self::spec_read_record(self.spec_des(), id, old(rdr).now().visible())
                    == Err::<RecordView, IoError<DesError>>(e),
            },
            final(rdr).now() == old(rdr).now().advance(
                Self::spec_taken(self.spec_des(), id, old(rdr).now().visible()),
            ),
            *final(final(rdr).0) == *final(old(rdr).0),
    {
        if id == SourceAdd::TYPE_ID {
            match self.des.read_source_add(rdr) {
                Ok(rec) => Ok(Record::SourceAdd(rec)),
                Err(e) => Err(e),
            }
        } else if id == SourceRemove::TYPE_ID {
            match self.des.read_source_remove(rdr) {
                Ok(rec) => Ok(Record::SourceRemove(rec)),
                Err(e) => Err(e),
            }
        } else {
            proof {
                lemma_advance(rdr.now(), 0);
            }
            Err(IoError::Parser(DesError::UnexpectedType(id)))
        }
    }

    pub fn read_source_add(&self, rdr: &mut RecordChunk<'_, '_>) -> (r: Result<
        SourceAdd,
        IoError<DesError>,
    >)
        ensures
            match r {
                Ok(rec) => self.spec_des().spec_read_source_add(old(rdr).now().visible()) == Ok::<
                    SourceAddView,
                    IoError<DesError>,
                >(rec@),
                Err(e) => self.spec_des().spec_read_source_add(old(rdr).now().visible()) == Err::<
                    SourceAddView,
                    IoError<DesError>,
                >(e),
            },
            final(rdr).now() == old(rdr).now().advance(
                self.spec_des().spec_source_add_taken(old(rdr).now().visible()),
            ),
            *final(final(rdr).0) == *final(old(rdr).0),
    {
        self.des.read_source_add(rdr)
    }

    pub fn read_source_remove(&self, rdr: &mut RecordChunk<'_, '_>) -> (r: Result<
        SourceRemove,
        IoError<DesError>,
    >)
        ensures
            r == self.spec_des().spec_read_source_remove(old(rdr).now().visible()),
            final(rdr).now() == old(rdr).now().advance(
                self.spec_des().spec_source_remove_taken(old(rdr).now().visible()),
            ),
            *final(final(rdr).0) == *final(old(rdr).0),
    {
        self.des.read_source_remove(rdr)
    }
}

} // verus!
