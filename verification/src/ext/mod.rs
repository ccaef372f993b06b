//! The extension: the records by which a stream names its sources, their
//! codec, and the registrar that assigns source ids.
use crate::{AssignedId, ConstAssignedId};
use std::collections::BTreeMap;
use vstd::prelude::*;
use vstd::std_specs::btree::spec_btree_map_iter;
use vstd::std_specs::cmp::OrdSpec;
use vstd::std_specs::iter::IteratorSpec;

pub mod codec;
pub mod error;
pub mod reader;
pub mod writer;

verus! {

/// The name of the extension as a source.
pub const MSRF_EXT_NAME: &'static str = "msrf-ext";

/// The source id under which the extension's own records are written.
pub const MSRF_EXT_MAP_ID: u16 = 0x00;

/// The version of the extension codec that this library writes.
pub const MSRF_EXT_VERSION: u16 = 0x00;

/// The type id of `SourceAdd`.
pub const ID_SOURCE_ADD: u16 = 0x00;

/// The type id of `SourceRemove`.
pub const ID_SOURCE_REMOVE: u16 = 0x01;

/// The least source id that `register` assigns; id 0 is the root's.
pub const FIRST_ID: u16 = 1;

/// The source id that is never free: it marks the end of a stream.
pub const NO_ID: u16 = 0xFFFF;

/// A source was added: from here on `id` stands for `name` at `version`.
#[derive(Debug, Clone, PartialEq)]
pub struct SourceAdd {
    pub id: u16,
    pub version: u16,
    pub name: String,
}

/// A `SourceAdd` as a value.
pub struct SourceAddView {
    pub id: u16,
    pub version: u16,
    pub name: Seq<char>,
}

impl View for SourceAdd {
    type V = SourceAddView;

    open spec fn view(&self) -> SourceAddView {
        SourceAddView { id: self.id, version: self.version, name: self.name@ }
    }
}

impl SourceAdd {
    pub fn new(id: u16, version: u16, name: &str) -> (rec: SourceAdd)
        ensures
            rec@ == (SourceAddView { id, version, name: name@ }),
    {
        SourceAdd { id, version, name: name.to_owned() }
    }
}

impl ConstAssignedId for SourceAdd {
    const TYPE_ID: u16 = ID_SOURCE_ADD;
}

/// A source was removed: from here on `id` stands for nothing.
#[derive(Debug, Clone, Copy, PartialEq, Eq, Structural)]
pub struct SourceRemove {
    pub id: u16,
}

impl SourceRemove {
    pub fn new(id: u16) -> (rec: SourceRemove)
        ensures
            rec.id == id,
    {
        SourceRemove { id }
    }
}

impl ConstAssignedId for SourceRemove {
    const TYPE_ID: u16 = ID_SOURCE_REMOVE;
}

/// The type ids of the extension's records: every `SourceAdd` has the type
/// id `ID_SOURCE_ADD`, every `SourceRemove` the type id `ID_SOURCE_REMOVE`.
pub proof fn lemma_type_ids()
    ensures
        SourceAdd::TYPE_ID == ID_SOURCE_ADD,
        SourceRemove::TYPE_ID == ID_SOURCE_REMOVE,
        forall|rec: SourceAdd| #[trigger] rec.spec_typ_id() == ID_SOURCE_ADD,
        forall|rec: SourceRemove| #[trigger] rec.spec_typ_id() == ID_SOURCE_REMOVE,
{
}

/// A record of the extension.
#[derive(Debug, Clone, PartialEq)]
#[non_exhaustive]
pub enum Record {
    SourceAdd(SourceAdd),
    SourceRemove(SourceRemove),
}

/// A record of the extension as a value.
pub enum RecordView {
    SourceAdd(SourceAddView),
    SourceRemove(SourceRemove),
}

impl View for Record {
    type V = RecordView;

    open spec fn view(&self) -> RecordView {
        match self {
            Record::SourceAdd(rec) => RecordView::SourceAdd(rec@),
            Record::SourceRemove(rec) => RecordView::SourceRemove(*rec),
        }
    }
}

impl Record {
    pub open spec fn spec_type_id(&self) -> u16 {
        match self {
            Record::SourceAdd(_) => ID_SOURCE_ADD,
            Record::SourceRemove(_) => ID_SOURCE_REMOVE,
        }
    }

    pub fn type_id(&self) -> (id: u16)
        ensures
            id == self.spec_type_id(),
    {
        match self {
            Record::SourceAdd(_) => SourceAdd::TYPE_ID,
            Record::SourceRemove(_) => SourceRemove::TYPE_ID,
        }
    }
}

impl From<Record> for u16 {
    fn from(value: Record) -> (id: Self) {
        value.type_id()
    }
}

impl vstd::std_specs::convert::FromSpecImpl<Record> for u16 {
    open spec fn obeys_from_spec() -> bool {
        true
    }

    open spec fn from_spec(value: Record) -> Self {
        value.spec_type_id()
    }
}

impl From<SourceAdd> for Record {
    fn from(value: SourceAdd) -> (rec: Self) {
        Record::SourceAdd(value)
    }
}

impl vstd::std_specs::convert::FromSpecImpl<SourceAdd> for Record {
    open spec fn obeys_from_spec() -> bool {
        true
    }

    open spec fn from_spec(value: SourceAdd) -> Self {
        Record::SourceAdd(value)
    }
}

impl From<SourceRemove> for Record {
    fn from(value: SourceRemove) -> (rec: Self) {
        Record::SourceRemove(value)
    }
}

impl vstd::std_specs::convert::FromSpecImpl<SourceRemove> for Record {
    open spec fn obeys_from_spec() -> bool {
        true
    }

    open spec fn from_spec(value: SourceRemove) -> Self {
        Record::SourceRemove(value)
    }
}

/// A named producer of records, at a version.
#[derive(Debug, PartialEq)]
pub struct Source {
    pub(crate) name: String,
    pub(crate) version: u16,
}

/// A `Source` as a value.
pub struct SourceView {
    pub name: Seq<char>,
    pub version: u16,
}

impl View for Source {
    type V = SourceView;

    open(crate) spec fn view(&self) -> SourceView {
        SourceView { name: self.name@, version: self.version }
    }
}

impl Source {
    pub fn new(name: &str, version: u16) -> (src: Source)
        ensures
            src@ == (SourceView { name: name@, version }),
    {
        Source { name: name.to_owned(), version }
    }

    pub fn name(&self) -> (name: &str)
        ensures
            name@ == self@.name,
    {
        self.name.as_str()
    }

    pub fn version(&self) -> (version: u16)
        ensures
            version == self@.version,
    {
        self.version
    }
}

/// The least id from `from` on that is free in `sources`, or `NO_ID` where
/// every id from `from` on is taken.
pub open spec fn spec_scan(sources: Map<u16, SourceView>, from: u16) -> u16
    decreases NO_ID - from,
{
    if from < NO_ID && sources.contains_key(from) {
        spec_scan(sources, (from + 1) as u16)
    } else {
        from
    }
}

/// A registrar as a value.
pub struct RegistrarView {
    /// The sources by their ids.
    pub sources: Map<u16, SourceView>,
    /// The id that `register` assigns next; `NO_ID` where none is free.
    pub next_id: u16,
}

impl RegistrarView {
    /// Whether a source is registered under `name`.
    pub open spec fn has_name(self, name: Seq<char>) -> bool {
        exists|id: u16| self.named(id, name)
    }

    /// Whether `id` is the id of a source that is registered under `name`.
    pub open spec fn named(self, id: u16, name: Seq<char>) -> bool {
        self.sources.contains_key(id) && self.sources[id].name == name
    }

    /// The id of the source that is registered under `name`.
    pub open spec fn id_of(self, name: Seq<char>) -> Option<u16> {
        if self.has_name(name) {
            Some(choose|id: u16| self.named(id, name))
        } else {
            None
        }
    }

    /// The source with the id `id`.
    pub open spec fn get(self, id: u16) -> Option<SourceView> {
        if self.sources.contains_key(id) {
            Some(self.sources[id])
        } else {
            None
        }
    }

    /// Whether no id is free for `register`.
    pub open spec fn exhausted(self) -> bool {
        self.next_id == NO_ID
    }

    /// The invariant of a registrar: no two sources share a name, and the
    /// next id is the least free id from `FIRST_ID` on.
    pub open spec fn well_formed(self) -> bool {
        &&& self.next_id >= FIRST_ID
        &&& forall|id: u16| FIRST_ID <= id < self.next_id ==> self.sources.contains_key(id)
        &&& self.next_id < NO_ID ==> !self.sources.contains_key(self.next_id)
        &&& forall|a: u16, b: u16, name: Seq<char>|
            self.named(a, name) && self.named(b, name) ==> a == b
    }

    /// The registrar after `register(name, version)` where `name` is new.
    pub open spec fn register(self, name: Seq<char>, version: u16) -> Self {
        let sources = self.sources.insert(self.next_id, SourceView { name, version });
        RegistrarView { sources, next_id: spec_scan(sources, self.next_id) }
    }

    /// The registrar after the source with the id `id` was removed.
    pub open spec fn remove(self, id: u16) -> Self {
        RegistrarView {
            sources: self.sources.remove(id),
            next_id: if self.sources.contains_key(id) && FIRST_ID <= id < self.next_id {
                id
            } else {
                self.next_id
            },
        }
    }

    /// The registrar after the source that is registered under `name` was
    /// removed.
    pub open spec fn remove_by_source(self, name: Seq<char>) -> Self {
        match self.id_of(name) {
            Some(id) => self.remove(id),
            None => self,
        }
    }

    /// The name that keeps a source from being put at `id` under `name`:
    /// that of the source at `id`, or else `name` where it is taken.
    pub open spec fn blocker(self, id: u16, name: Seq<char>) -> Option<Seq<char>> {
        if self.sources.contains_key(id) {
            Some(self.sources[id].name)
        } else if self.has_name(name) {
            Some(name)
        } else {
            None
        }
    }

    /// The registrar after a source was put at the free id `id`.
    pub open spec fn put(self, id: u16, name: Seq<char>, version: u16) -> Self {
        let sources = self.sources.insert(id, SourceView { name, version });
        RegistrarView {
            sources,
            next_id: if id == self.next_id {
                spec_scan(sources, id)
            } else {
                self.next_id
            },
        }
    }
}

/// The registry of sources: which id stands for which name and version.
#[derive(Debug)]
pub struct SourceRegistrar {
    map: BTreeMap<u16, Source>,
    next_id: u16,
}

impl View for SourceRegistrar {
    type V = RegistrarView;

    closed spec fn view(&self) -> RegistrarView {
        RegistrarView {
            sources: self.map@.map_values(|s: Source| s@),
            next_id: self.next_id,
        }
    }
}

impl Default for SourceRegistrar {
    fn default() -> (r: Self)
        ensures
            r@ == (RegistrarView { sources: Map::empty(), next_id: FIRST_ID }),
            r@.well_formed(),
    {
        SourceRegistrar::new()
    }
}

impl SourceRegistrar {
    pub fn new() -> (r: Self)
        ensures
            r@ == (RegistrarView { sources: Map::empty(), next_id: FIRST_ID }),
            r@.well_formed(),
    {
        let r = SourceRegistrar { map: BTreeMap::new(), next_id: FIRST_ID };
        assert(r@.sources =~= Map::empty());
        r
    }

    /// The least id from `from` on that is free, or `NO_ID`.
    fn scan(map: &BTreeMap<u16, Source>, from: u16) -> (id: u16)
        ensures
            id == spec_scan(map@.map_values(|s: Source| s@), from),
    {
        let mut cand = from;
        while cand < NO_ID && map.contains_key(&cand)
            invariant
                spec_scan(map@.map_values(|s: Source| s@), cand) == spec_scan(
                    map@.map_values(|s: Source| s@),
                    from,
                ),
            decreases NO_ID - cand,
        {
            cand = cand + 1;
        }
        cand
    }

    /// The id that `register` assigns next; `NO_ID` where none is free.
    pub fn next_free_id(&self) -> (id: u16)
        ensures
            id == self@.next_id,
    {
        self.next_id
    }

    /// The source with the id `id`.
    pub fn get_by_id(&self, id: u16) -> (r: Option<&Source>)
        requires
            self@.well_formed(),
        ensures
            match r {
                Some(src) => self@.get(id) == Some(src@),
                None => self@.get(id) is None,
            },
    {
        self.map.get(&id)
    }

    /// The id of the source that is registered under `source`.
    pub fn get_by_source(&self, source: &str) -> (r: Option<u16>)
        requires
            self@.well_formed(),
        ensures
            r == self@.id_of(source@),
    {
        let r = find_name(&self.map, source);
        proof {
            match r {
                Some(id) => {
                    assert(self@.named(id, source@));
                },
                None => {
                    assert forall|id: u16| !self@.named(id, source@) by {
                        if self.map@.contains_key(id) {
                            assert(self.map@[id].name@ != source@);
                        }
                    }
                },
            }
        }
        r
    }

    /// The sources, in ascending order of their ids: each with its id, its
    /// name and its version.
    pub fn sources(&self) -> (out: Vec<(u16, &str, u16)>)
        requires
            self@.well_formed(),
        ensures
            out@.len() == self@.sources.dom().len(),
            forall|i: int|
                0 <= i < out@.len() ==> self@.sources.contains_key(#[trigger] out@[i].0)
                    && self@.sources[out@[i].0] == (SourceView {
                    name: out@[i].1@,
                    version: out@[i].2,
                }),
            forall|i: int, j: int| 0 <= i < j < out@.len() ==> out@[i].0 < out@[j].0,
            forall|id: u16|
                self@.sources.contains_key(id) ==> exists|i: int|
                    0 <= i < out@.len() && #[trigger] out@[i].0 == id,
    {
        broadcast use vstd::std_specs::btree::group_btree_axioms;

        let mut out: Vec<(u16, &str, u16)> = Vec::new();
        let it = self.map.iter();
        let ghost all = spec_btree_map_iter(&self.map).remaining();
        let ghost keys = all.map_values(|kv: (&u16, &Source)| *kv.0);
        proof {
            vstd::std_specs::btree::axiom_increasing_seq_meaning(keys);
            assert forall|i: int, j: int| 0 <= i < j < all.len() implies *all[i].0 < *all[j].0 by {
                assert(keys[i].cmp_spec(&keys[j]) is Less);
            }
        }
        for (id, src) in iter: it
            invariant
                iter.seq() == all,
                all == spec_btree_map_iter(&self.map).remaining(),
                out@.len() == iter.index(),
                forall|i: int|
                    #![trigger out@[i]]
                    0 <= i < out@.len() ==> out@[i].0 == *all[i].0 && out@[i].1@
                        == all[i].1.name@ && out@[i].2 == all[i].1.version,
        {
            assert(all[iter.index()] == (id, src));
            let ghost before = out@;
            out.push((*id, src.name.as_str(), src.version));
            assert(forall|i: int| 0 <= i < before.len() ==> #[trigger] out@[i] == before[i]);
        }
        proof {
            assert(self@.sources.dom() =~= self.map@.dom());
            assert forall|i: int| 0 <= i < out@.len() implies self@.sources.contains_key(
                #[trigger] out@[i].0,
            ) && self@.sources[out@[i].0] == (SourceView {
                name: out@[i].1@,
                version: out@[i].2,
            }) by {
                assert(self.map@.contains_key(*all[i].0));
            }
            assert forall|id: u16| self@.sources.contains_key(id) implies exists|i: int|
                0 <= i < out@.len() && #[trigger] out@[i].0 == id by {
                assert(all.contains((&id, &self.map@[id])));
                let i = choose|i: int| 0 <= i < all.len() && all[i] == (&id, &self.map@[id]);
                assert(out@[i].0 == id);
            }
        }
        out
    }

    /// Registers a new source at the least free id from `FIRST_ID` on.
    ///
    /// Where a source is registered under `name` already, its id comes
    /// back as the error and nothing changes. A new name needs a free id.
    pub fn register(&mut self, name: &str, version: u16) -> (r: Result<u16, u16>)
        requires
            old(self)@.well_formed(),
            old(self)@.has_name(name@) || !old(self)@.exhausted(),
        ensures
            final(self)@.well_formed(),
            match r {
                Ok(id) => {
                    &&& !old(self)@.has_name(name@)
                    &&& id == old(self)@.next_id
                    &&& FIRST_ID <= id < NO_ID
                    &&& final(self)@ == old(self)@.register(name@, version)
                },
                Err(id) => old(self)@.id_of(name@) == Some(id) && final(self)@ == old(self)@,
            },
    {
        if let Some(id) = self.get_by_source(name) {
            return Err(id);
        }
        let id = self.next_id;
        let ghost before = self@;
        let _ = self.map.insert(id, Source::new(name, version));
        let next = Self::scan(&self.map, id);
        self.next_id = next;
        proof {
            let after = before.register(name@, version);
            assert(self@.sources =~= after.sources);
            lemma_scan(after.sources, id);
            lemma_put_unique(before, id, name@, version);
        }
        Ok(id)
    }

    /// Registers a new source like `register`, or does nothing and gives
    /// `None` where the name is new and no id is free for it.
    pub fn try_register(&mut self, name: &str, version: u16) -> (r: Option<Result<u16, u16>>)
        requires
            old(self)@.well_formed(),
        ensures
            final(self)@.well_formed(),
            match r {
                Some(Ok(id)) => {
                    &&& !old(self)@.has_name(name@)
                    &&& !old(self)@.exhausted()
                    &&& id == old(self)@.next_id
                    &&& final(self)@ == old(self)@.register(name@, version)
                },
                Some(Err(id)) => old(self)@.id_of(name@) == Some(id) && final(self)@ == old(self)@,
                None => !old(self)@.has_name(name@) && old(self)@.exhausted() && final(self)@
                    == old(self)@,
            },
    {
        if self.next_id == NO_ID && self.get_by_source(name).is_none() {
            return None;
        }
        Some(self.register(name, version))
    }

    /// Whether no id is free for a new name.
    pub fn is_exhausted(&self) -> (b: bool)
        ensures
            b == self@.exhausted(),
    {
        self.next_id == NO_ID
    }

    /// Registers the root source at id 0.
    ///
    /// Where id 0 is taken, the name of its source comes back and nothing
    /// changes; so it is where `name` is taken by another source, and then
    /// `name` comes back.
    pub fn register_root(&mut self, name: &str, version: u16) -> (r: Option<&str>)
        requires
            old(self)@.well_formed(),
        ensures
            final(self)@.well_formed(),
            match r {
                Some(existing) => old(self)@.blocker(0, name@) == Some(existing@) && final(self)@
                    == old(self)@,
                None => old(self)@.blocker(0, name@) is None && final(self)@ == old(self)@.put(
                    0,
                    name@,
                    version,
                ),
            },
    {
        self.put_at(0, name, version)
    }

    /// Registers a source at the id `id`, which is not 0.
    ///
    /// Where `id` is taken, the name of its source comes back and nothing
    /// changes; so it is where `name` is taken by another source, and then
    /// `name` comes back.
    pub fn register_existing(&mut self, id: u16, name: &str, version: u16) -> (r: Option<&str>)
        requires
            old(self)@.well_formed(),
            id != 0,
        ensures
            final(self)@.well_formed(),
            match r {
                Some(existing) => old(self)@.blocker(id, name@) == Some(existing@) && final(self)@
                    == old(self)@,
                None => old(self)@.blocker(id, name@) is None && final(self)@ == old(self)@.put(
                    id,
                    name@,
                    version,
                ),
            },
    {
        self.put_at(id, name, version)
    }

    /// Puts a source at `id` unless the id or the name is taken.
    fn put_at(&mut self, id: u16, name: &str, version: u16) -> (r: Option<&str>)
        requires
            old(self)@.well_formed(),
        ensures
            final(self)@.well_formed(),
            match r {
                Some(existing) => old(self)@.blocker(id, name@) == Some(existing@) && final(self)@
                    == old(self)@,
                None => old(self)@.blocker(id, name@) is None && final(self)@ == old(self)@.put(
                    id,
                    name@,
                    version,
                ),
            },
    {
        if self.map.contains_key(&id) {
            return match self.map.get(&id) {
                Some(src) => Some(src.name.as_str()),
                None => None,
            };
        }
        if let Some(other) = self.get_by_source(name) {
            assert(self@.named(other, name@));
            return match self.map.get(&other) {
                Some(src) => Some(src.name.as_str()),
                None => None,
            };
        }
        let ghost before = self@;
        let _ = self.map.insert(id, Source::new(name, version));
        if id == self.next_id {
            let next = Self::scan(&self.map, id);
            self.next_id = next;
        }
        proof {
            let after = before.put(id, name@, version);
            assert(self@.sources =~= after.sources);
            lemma_scan(after.sources, id);
            lemma_put_unique(before, id, name@, version);
        }
        None
    }

    /// Removes the source with the id `id` and gives it back. The id is
    /// free again; where it is below the next id, it is the next id.
    pub fn remove_by_id(&mut self, id: u16) -> (r: Option<Source>)
        requires
            old(self)@.well_formed(),
        ensures
            final(self)@.well_formed(),
            final(self)@ == old(self)@.remove(id),
            match r {
                Some(src) => old(self)@.get(id) == Some(src@),
                None => old(self)@.get(id) is None,
            },
    {
        let ghost before = self@;
        let r = self.map.remove(&id);
        if r.is_some() && id >= FIRST_ID && self.next_id > id {
            self.next_id = id;
        }
        proof {
            assert(self@.sources =~= before.remove(id).sources);
            assert forall|a: u16, b: u16, name: Seq<char>|
                self@.named(a, name) && self@.named(b, name) implies a == b by {
                assert(before.named(a, name) && before.named(b, name));
            }
        }
        r
    }

    /// Removes the source that is registered under `source` and gives its
    /// id back.
    pub fn remove_by_source(&mut self, source: &str) -> (r: Option<u16>)
        requires
            old(self)@.well_formed(),
        ensures
            final(self)@.well_formed(),
            r == old(self)@.id_of(source@),
            final(self)@ == old(self)@.remove_by_source(source@),
    {
        match self.get_by_source(source) {
            Some(id) => {
                let _ = self.remove_by_id(id);
                Some(id)
            },
            None => None,
        }
    }
}

/// The id of the first source in `map` whose name is `name`.
fn find_name(map: &BTreeMap<u16, Source>, name: &str) -> (r: Option<u16>)
    ensures
        match r {
            Some(id) => map@.contains_key(id) && map@[id].name@ == name@,
            None => forall|id: u16| map@.contains_key(id) ==> map@[id].name@ != name@,
        },
{
    broadcast use vstd::std_specs::btree::group_btree_axioms;

    let key = name.to_owned();
    let it = map.iter();
    let ghost all = spec_btree_map_iter(map).remaining();
    for (id, src) in iter: it
        invariant
            key@ == name@,
            iter.seq() == all,
            all == spec_btree_map_iter(map).remaining(),
            forall|j: int| 0 <= j < iter.index() ==> (*all[j].1).name@ != name@,
    {
        assert(map@.contains_key(*all[iter.index()].0));
        if src.name == key {
            return Some(*id);
        }
    }
    assert forall|id: u16| map@.contains_key(id) implies map@[id].name@ != name@ by {
        assert(all.contains((&id, &map@[id])));
        let j = choose|j: int| 0 <= j < all.len() && all[j] == (&id, &map@[id]);
        assert((*all[j].1).name@ != name@);
    }
    None
}

/// What a scan finds: the ids it passed are taken, the id it stops at is
/// free or `NO_ID`.
pub proof fn lemma_scan(sources: Map<u16, SourceView>, from: u16)
    ensures
        from <= spec_scan(sources, from),
        forall|id: u16| from <= id < spec_scan(sources, from) ==> sources.contains_key(id),
        spec_scan(sources, from) < NO_ID ==> !sources.contains_key(spec_scan(sources, from)),
    decreases NO_ID - from,
{
    if from < NO_ID && sources.contains_key(from) {
        lemma_scan(sources, (from + 1) as u16);
    }
}

/// Putting a source with a new name at a free id keeps a registrar well
/// formed.
pub proof fn lemma_put_unique(r: RegistrarView, id: u16, name: Seq<char>, version: u16)
    requires
        r.well_formed(),
        !r.sources.contains_key(id),
        !r.has_name(name),
    ensures
        r.put(id, name, version).well_formed(),
        id == r.next_id ==> r.register(name, version) == r.put(id, name, version),
{
    let after = r.put(id, name, version);
    lemma_scan(after.sources, id);
    assert forall|a: u16, b: u16, n: Seq<char>|
        after.named(a, n) && after.named(b, n) implies a == b by {
        if a == id && b != id {
            assert(r.named(b, name));
        } else if b == id && a != id {
            assert(r.named(a, name));
        } else if a != id && b != id {
            assert(r.named(a, n) && r.named(b, n));
        }
    }
}

/// Registering a new name and removing it again gives the registrar back
/// as it was: the name is unknown again, the sources and the next id are
/// what they were.
pub proof fn lemma_register_remove(r: RegistrarView, name: Seq<char>, version: u16)
    requires
        r.well_formed(),
        !r.has_name(name),
        !r.exhausted(),
    ensures
        r.register(name, version).well_formed(),
        r.register(name, version).id_of(name) == Some(r.next_id),
        r.register(name, version).remove_by_source(name) == r,
        r.register(name, version).remove_by_source(name).id_of(name) is None,
{
    let id = r.next_id;
    let r1 = r.register(name, version);
    lemma_put_unique(r, id, name, version);
    lemma_scan(r1.sources, id);
    assert(r1.named(id, name));
    let found = choose|i: u16| r1.named(i, name);
    assert(r1.named(found, name));
    assert(found == id);
    let r2 = r1.remove(id);
    assert(r2.sources =~= r.sources);
}

/// A freed id is reused at once: after a source below the next id was
/// removed, its id is the next one that `register` assigns; and a
/// registrar that registers a name, removes it and registers another name
/// gives the second name the id of the first.
pub proof fn lemma_reuse_freed_id(
    r: RegistrarView,
    id: u16,
    first: Seq<char>,
    second: Seq<char>,
    version: u16,
)
    requires
        r.well_formed(),
        !r.has_name(first),
        !r.has_name(second),
        !r.exhausted(),
    ensures
        r.sources.contains_key(id) && FIRST_ID <= id < r.next_id ==> r.remove(id).next_id == id
            && r.remove(id).well_formed(),
        r.register(first, version).remove_by_source(first).register(second, version).id_of(second)
            == Some(r.next_id),
{
    lemma_register_remove(r, first, version);
    lemma_register_remove(r, second, version);
    if r.sources.contains_key(id) && FIRST_ID <= id < r.next_id {
        let after = r.remove(id);
        assert forall|a: u16, b: u16, name: Seq<char>|
            after.named(a, name) && after.named(b, name) implies a == b by {
            assert(r.named(a, name) && r.named(b, name));
        }
    }
}

} // verus!
