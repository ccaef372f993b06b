//! MSRF: a self-framing stream of typed, source-tagged records.
//!
//! A stream is a fixed header, a sequence of record frames and an
//! end-of-stream marker. Every frame carries its metadata, its payload and a
//! trailing guard byte. A container record announces how many immediate
//! child records follow it.
use vstd::prelude::*;

pub mod codec;
pub mod endian;
pub mod error;
pub mod ext;
pub mod io;
pub mod laws;
pub mod nesting;
pub mod reader;
pub mod serialiser;
pub mod stream;
pub mod value;
pub mod varint;
pub mod writer;

verus! {

/// The source id that marks the end of a stream. No record may use it.
pub const RECORD_EOS: u16 = 0xFFFF;

/// The framing version that this library writes.
pub const CURRENT_VERSION: u16 = 0;

/// The bit of a type id on the wire that marks a container record.
pub const TYPE_CONTAINER_MASK: u16 = 0x8000;

/// The fifteen bits of a type id that carry the semantic type.
pub const TYPE_SEMANTIC_MASK: u16 = 0x7FFF;

/// A record type whose type id is fixed by the type alone.
pub trait ConstAssignedId {
    /// The type id of every value of this type.
    const TYPE_ID: u16;
}

/// A record that knows its own type id.
pub trait AssignedId {
    /// The type id of the record. An implementation says what it is; where
    /// it says nothing, nothing is known of it.
    open spec fn spec_typ_id(&self) -> u16 {
        arbitrary()
    }

    fn typ_id(&self) -> (id: u16)
        ensures
            id == self.spec_typ_id(),
    ;
}

impl<T: ConstAssignedId> AssignedId for T {
    open spec fn spec_typ_id(&self) -> u16 {
        T::TYPE_ID
    }

    fn typ_id(&self) -> (id: u16) {
        T::TYPE_ID
    }
}

/// A typed record from which the metadata of its frame can be composed:
/// the type id comes from `AssignedId`, the payload length from `SizedRecord`.
pub trait IntoMetadata<S>: AssignedId + crate::io::SizedRecord<S> {
    fn meta(&self, ser: &S, source_id: u16) -> (m: RecordMeta)
        ensures
            m == RecordMeta::spec_new(
                source_id,
                self.spec_typ_id(),
                self.spec_encoded_len(ser) as u64,
            ),
    {
        RecordMeta::new(source_id, self.typ_id(), self.encoded_len(ser) as u64)
    }
}

/// The header of a stream: the major framing version.
#[derive(Debug, Clone, Copy, PartialEq, Eq, Structural)]
pub struct Header {
    pub version: u16,
}

impl Header {
    #[must_use]
    pub fn new(version: u16) -> (h: Self)
        ensures
            h.version == version,
    {
        Self { version }
    }

    #[must_use]
    pub fn version(&self) -> (v: u16)
        ensures
            v == self.version,
    {
        self.version
    }
}

impl Default for Header {
    fn default() -> (h: Self)
        ensures
            h.version == CURRENT_VERSION,
    {
        Self { version: CURRENT_VERSION }
    }
}

/// The metadata of one record frame.
///
/// `length` counts the payload bytes, without the guard byte. `contained` is
/// present exactly for container records and counts the immediate children.
/// On the wire the container flag of the type id is derived from `contained`.
#[derive(Debug, Copy, Clone, PartialEq, Eq, Structural)]
pub struct RecordMeta {
    pub source_id: u16,
    pub type_id: u16,
    pub length: u64,
    pub contained: Option<u16>,
}

impl RecordMeta {
    pub open spec fn spec_new(source_id: u16, type_id: u16, length: u64) -> Self {
        RecordMeta { source_id, type_id, length, contained: None }
    }

    pub open spec fn spec_new_eos() -> Self {
        RecordMeta { source_id: RECORD_EOS, type_id: 0, length: 0, contained: None }
    }

    pub open spec fn spec_is_eos(&self) -> bool {
        self.source_id == RECORD_EOS
    }

    /// A record that round-trips through the frame codec unchanged: it is no
    /// end-of-stream marker and its type id holds semantic bits only.
    pub open spec fn well_formed(&self) -> bool {
        &&& self.source_id != RECORD_EOS
        &&& self.type_id & TYPE_CONTAINER_MASK == 0
    }

    #[must_use]
    pub fn new(source_id: u16, type_id: u16, length: u64) -> (m: Self)
        ensures
            m == Self::spec_new(source_id, type_id, length),
    {
        Self { length, contained: None, source_id, type_id }
    }

    #[must_use]
    pub fn new_container(source_id: u16, type_id: u16, length: u64, contained: u16) -> (m: Self)
        ensures
            m == (RecordMeta { source_id, type_id, length, contained: Some(contained) }),
    {
        Self { source_id, type_id, length, contained: Some(contained) }
    }

    #[must_use]
    pub fn new_eos() -> (m: Self)
        ensures
            m == Self::spec_new_eos(),
            m.spec_is_eos(),
    {
        Self { length: 0, contained: None, source_id: RECORD_EOS, type_id: 0 }
    }

    #[must_use]
    pub fn len(&self) -> (n: u64)
        ensures
            n == self.length,
    {
        self.length
    }

    #[must_use]
    pub fn length(&self) -> (n: u64)
        ensures
            n == self.length,
    {
        self.length
    }

    #[must_use]
    pub fn is_empty(&self) -> (b: bool)
        ensures
            b == (self.length == 0),
    {
        self.length == 0
    }

    #[must_use]
    pub fn is_eos(&self) -> (b: bool)
        ensures
            b == self.spec_is_eos(),
    {
        self.source_id == RECORD_EOS
    }

    #[must_use]
    pub fn source_id(&self) -> (id: u16)
        ensures
            id == self.source_id,
    {
        self.source_id
    }

    #[must_use]
    pub fn type_id(&self) -> (id: u16)
        ensures
            id == self.type_id,
    {
        self.type_id
    }

    #[must_use]
    pub fn is_container(&self) -> (b: bool)
        ensures
            b == self.contained is Some,
    {
        self.contained.is_some()
    }

    #[must_use]
    pub fn value_len(&self) -> (n: u64)
        ensures
            n == self.length,
    {
        self.length
    }

    #[must_use]
    pub fn contained(&self) -> (c: Option<u16>)
        ensures
            c == self.contained,
    {
        self.contained
    }
}

/// The identity of a record: who produced it and what it is.
#[derive(Debug, Copy, Clone, PartialEq, Eq, Structural)]
pub struct RecordId {
    pub source_id: u16,
    pub type_id: u16,
}

impl RecordId {
    /// The semantic type: the type id without the container flag.
    pub open spec fn spec_type_id(&self) -> u16 {
        self.type_id & TYPE_SEMANTIC_MASK
    }

    #[must_use]
    pub fn new(source_id: u16, type_id: u16) -> (id: Self)
        ensures
            id == (RecordId { source_id, type_id }),
    {
        Self { source_id, type_id }
    }

    #[must_use]
    pub fn new_eos() -> (id: Self)
        ensures
            id == (RecordId { source_id: RECORD_EOS, type_id: 0 }),
    {
        Self { source_id: RECORD_EOS, type_id: 0 }
    }

    #[must_use]
    pub fn is_eos(&self) -> (b: bool)
        ensures
            b == (self.source_id == RECORD_EOS),
    {
        self.source_id == RECORD_EOS
    }

    #[must_use]
    pub fn source_id(&self) -> (id: u16)
        ensures
            id == self.source_id,
    {
        self.source_id
    }

    #[must_use]
    pub fn type_id(&self) -> (id: u16)
        ensures
            id == self.spec_type_id(),
            id & TYPE_CONTAINER_MASK == 0,
            self.type_id & TYPE_CONTAINER_MASK == 0 ==> id == self.type_id,
    {
        let t = self.type_id;
        assert((t & 0x7FFF) & 0x8000 == 0) by (bit_vector);
        assert(t & 0x8000 == 0 ==> t & 0x7FFF == t) by (bit_vector);
        t & TYPE_SEMANTIC_MASK
    }

    #[must_use]
    pub fn into_meta(self, len: u64) -> (m: RecordMeta)
        ensures
            m == RecordMeta::spec_new(self.source_id, self.type_id, len),
    {
        RecordMeta::new(self.source_id, self.type_id, len)
    }
}

impl From<RecordMeta> for RecordId {
    fn from(value: RecordMeta) -> (id: Self) {
        RecordId::new(value.source_id, value.type_id)
    }
}

impl vstd::std_specs::convert::FromSpecImpl<RecordMeta> for RecordId {
    open spec fn obeys_from_spec() -> bool {
        true
    }

    open spec fn from_spec(value: RecordMeta) -> Self {
        RecordId { source_id: value.source_id, type_id: value.type_id }
    }
}

} // verus!
