//! Raw per-level records as they are retrieved, and the table that holds
//! them, keyed by raw identifier.

use crate::text::push_char;
use vstd::hash_map::StringHashMap;
use vstd::prelude::*;

verus! {

/// A link to a neighbouring level.
#[derive(Clone, Debug, PartialEq, Eq)]
pub struct JsonConnection {
    pub direction: String,
    pub offset: i32,
    pub map: String,
}

/// A teleport link: where it lies, and the warp of another level that it
/// leads to.
#[derive(Clone, Debug, PartialEq, Eq)]
pub struct JsonWarpEvent {
    pub x: i32,
    pub y: i32,
    pub destination: String,
    pub dest_warp_id: usize,
}

/// An object placed on a level.
#[derive(Clone, Debug, PartialEq, Eq)]
pub struct JsonObjectEvents {
    pub graphics_id: String,
    pub x: i32,
    pub y: i32,
    pub movement_type: String,
}

/// What a level's own document says.
#[derive(Clone, Debug, PartialEq, Eq)]
pub struct JsonMapData {
    pub id: String,
    pub name: String,
    pub layout: String,
    pub music: String,
    pub connections: Option<Vec<JsonConnection>>,
    pub warps: Vec<JsonWarpEvent>,
    pub objects: Vec<JsonObjectEvents>,
}

/// A level's layout: its size, its tilesets and where its binary blobs lie.
#[derive(Clone, Debug, PartialEq, Eq)]
pub struct JsonMapLayout {
    pub id: String,
    pub width: usize,
    pub height: usize,
    pub primary_tileset: String,
    pub secondary_tileset: String,
    pub border_filepath: String,
    pub blockdata_filepath: String,
}

/// One raw record: a level's data with its layout.
#[derive(Clone, Debug, PartialEq, Eq)]
pub struct JsonMap {
    pub data: JsonMapData,
    pub layout: JsonMapLayout,
}

/// Where the blobs of all levels lie.
pub open spec fn source_root() -> Seq<char> {
    "http://raw.githubusercontent.com/pret/pokefirered/master"@
}

/// The address of the blob at `file` below the source root.
pub open spec fn blob_address(file: Seq<char>) -> Seq<char> {
    source_root().push('/') + file
}

/// The address of the blob at `file` below the source root.
pub fn blob_url(file: &str) -> (r: String)
    ensures
        r@ == blob_address(file@),
{
    let mut url = String::from_str("http://raw.githubusercontent.com/pret/pokefirered/master");
    push_char(&mut url, '/');
    url.append(file);
    url
}

impl JsonMapLayout {
    /// A copy of the layout.
    pub fn duplicate(&self) -> (r: JsonMapLayout)
        ensures
            r == *self,
    {
        JsonMapLayout {
            id: self.id.clone(),
            width: self.width,
            height: self.height,
            primary_tileset: self.primary_tileset.clone(),
            secondary_tileset: self.secondary_tileset.clone(),
            border_filepath: self.border_filepath.clone(),
            blockdata_filepath: self.blockdata_filepath.clone(),
        }
    }

    /// The number of tiles of the level, where it fits the machine's word.
    pub fn tile_count(&self) -> (r: Option<usize>)
        ensures
            match r {
                Some(n) => n == self.width * self.height,
                None => self.width * self.height > usize::MAX,
            },
    {
        self.width.checked_mul(self.height)
    }
}

/// The layouts that levels name, by their identifiers.
pub struct LayoutTable {
    layouts: StringHashMap<JsonMapLayout>,
}

impl View for LayoutTable {
    type V = Map<Seq<char>, JsonMapLayout>;

    closed spec fn view(&self) -> Map<Seq<char>, JsonMapLayout> {
        self.layouts@
    }
}

impl LayoutTable {
    /// A table without a layout.
    pub fn new() -> (r: LayoutTable)
        ensures
            r@ == Map::<Seq<char>, JsonMapLayout>::empty(),
    {
        LayoutTable { layouts: StringHashMap::new() }
    }

    /// Files `layout` under its identifier, in place of any layout that was
    /// filed there.
    pub fn insert(&mut self, layout: JsonMapLayout)
        ensures
            final(self)@ == old(self)@.insert(layout.id@, layout),
    {
        let id = layout.id.clone();
        self.layouts.insert(id, layout);
    }

    /// Joins a level's data with the layout that it names. Where the table
    /// has no layout of that name, the data comes back as it was.
    pub fn join(&self, data: JsonMapData) -> (r: Result<JsonMap, JsonMapData>)
        ensures
            match r {
                Ok(record) => self@.contains_key(data.layout@) && record == (JsonMap {
                    data,
                    layout: self@[data.layout@],
                }),
                Err(back) => !self@.contains_key(data.layout@) && back == data,
            },
    {
        match self.layouts.get(data.layout.as_str()) {
            Some(layout) => {
                let layout = layout.duplicate();
                Ok(JsonMap { data, layout })
            },
            None => Err(data),
        }
    }
}

/// No two records share a raw identifier.
pub open spec fn distinct_ids(records: Seq<JsonMap>) -> bool {
    forall|i: int, j: int|
        0 <= i < j < records.len() ==> records[i].data.id@ != records[j].data.id@
}

/// Whether `records[i]` carries the raw identifier `id`.
pub open spec fn carries(records: Seq<JsonMap>, id: Seq<char>, i: int) -> bool {
    0 <= i < records.len() && records[i].data.id@ == id
}

/// The position of a record that carries the raw identifier `id`.
pub open spec fn position_of(records: Seq<JsonMap>, id: Seq<char>) -> Option<int> {
    if exists|i: int| carries(records, id, i) {
        Some(choose|i: int| carries(records, id, i))
    } else {
        None
    }
}

/// Among distinct identifiers, a record that carries `id` is the one that
/// `position_of` finds.
pub proof fn lemma_position_unique(records: Seq<JsonMap>, id: Seq<char>, i: int)
    requires
        distinct_ids(records),
        carries(records, id, i),
    ensures
        position_of(records, id) == Some(i),
{
    let j = choose|j: int| carries(records, id, j);
    assert(carries(records, id, j));
    if i < j {
        assert(records[i].data.id@ != records[j].data.id@);
    } else if j < i {
        assert(records[j].data.id@ != records[i].data.id@);
    }
}

/// The record at `existing` already carries the raw identifier of the record
/// that was to be inserted.
#[derive(Clone, Copy, Debug, PartialEq, Eq)]
pub struct RawIdCollision {
    pub existing: usize,
}

/// The table of raw records, in the order of their insertion, with an index
/// from raw identifier to position.
pub struct RawTable {
    records: Vec<JsonMap>,
    index: StringHashMap<usize>,
}

impl View for RawTable {
    type V = Seq<JsonMap>;

    closed spec fn view(&self) -> Seq<JsonMap> {
        self.records@
    }
}

impl RawTable {
    /// The index knows exactly the records of the table, each at its
    /// position.
    pub closed spec fn wf(&self) -> bool {
        &&& forall|i: int|
            0 <= i < self.records@.len() ==> {
                &&& self.index@.contains_key(#[trigger] self.records@[i].data.id@)
                &&& self.index@[self.records@[i].data.id@] == i
            }
        &&& forall|k: Seq<char>| #[trigger]
            self.index@.contains_key(k) ==> carries(self.records@, k, self.index@[k] as int)
    }

    /// A well-formed table holds no raw identifier twice, and what the index
    /// finds is what `position_of` finds.
    pub proof fn lemma_wf(&self)
        requires
            self.wf(),
        ensures
            distinct_ids(self@),
    {
        assert forall|i: int, j: int| 0 <= i < j < self@.len() implies self@[i].data.id@
            != self@[j].data.id@ by {
            if self@[i].data.id@ == self@[j].data.id@ {
                assert(self.index@[self.records@[i].data.id@] == i);
                assert(self.index@[self.records@[j].data.id@] == j);
            }
        }
    }

    /// An empty table.
    pub fn new() -> (r: RawTable)
        ensures
            r.wf(),
            r@ == Seq::<JsonMap>::empty(),
    {
        RawTable { records: Vec::new(), index: StringHashMap::new() }
    }

    /// The number of records.
    pub fn len(&self) -> (r: usize)
        ensures
            r == self@.len(),
    {
        self.records.len()
    }

    /// The record at position `i`.
    pub fn record(&self, i: usize) -> (r: Option<&JsonMap>)
        ensures
            match r {
                Some(record) => i < self@.len() && *record == self@[i as int],
                None => i >= self@.len(),
            },
    {
        if i < self.records.len() {
            Some(&self.records[i])
        } else {
            None
        }
    }

    /// The position of the record with the raw identifier `id`.
    pub fn position(&self, id: &str) -> (r: Option<usize>)
        requires
            self.wf(),
        ensures
            match r {
                Some(i) => position_of(self@, id@) == Some(i as int),
                None => position_of(self@, id@) is None,
            },
    {
        match self.index.get(id) {
            Some(i) => {
                proof {
                    self.lemma_wf();
                    lemma_position_unique(self@, id@, *i as int);
                }
                Some(*i)
            },
            None => {
                proof {
                    if position_of(self@, id@) is Some {
                        let j = choose|j: int| carries(self@, id@, j);
                        assert(self.index@.contains_key(self.records@[j].data.id@));
                    }
                }
                None
            },
        }
    }

    /// The record with the raw identifier `id`.
    pub fn get(&self, id: &str) -> (r: Option<&JsonMap>)
        requires
            self.wf(),
        ensures
            match r {
                Some(record) => position_of(self@, id@) matches Some(i) && *record == self@[i],
                None => position_of(self@, id@) is None,
            },
    {
        match self.position(id) {
            Some(i) => Some(&self.records[i]),
            None => None,
        }
    }

    /// Appends `record`, unless a record of the table already carries its raw
    /// identifier: then the table stays as it is, and the position of that
    /// record is reported.
    pub fn insert(&mut self, record: JsonMap) -> (r: Result<(), RawIdCollision>)
        requires
            old(self).wf(),
        ensures
            final(self).wf(),
            match r {
                Ok(()) => {
                    &&& position_of(old(self)@, record.data.id@) is None
                    &&& final(self)@ == old(self)@.push(record)
                },
                Err(e) => {
                    &&& position_of(old(self)@, record.data.id@) == Some(e.existing as int)
                    &&& final(self)@ == old(self)@
                },
            },
    {
        match self.position(record.data.id.as_str()) {
            Some(existing) => Err(RawIdCollision { existing }),
            None => {
                let at = self.records.len();
                let id = record.data.id.clone();
                proof {
                    assert forall|k: Seq<char>| #[trigger]
                        self.index@.contains_key(k) implies k != id@ by {
                        if k == id@ {
                            assert(carries(self.records@, k, self.index@[k] as int));
                        }
                    }
                }
                self.index.insert(id, at);
                self.records.push(record);
                proof {
                    assert forall|k: Seq<char>| #[trigger]
                        self.index@.contains_key(k) implies carries(
                        self.records@,
                        k,
                        self.index@[k] as int,
                    ) by {
                        if k != record.data.id@ {
                            assert(old(self).index@.contains_key(k));
                            assert(carries(old(self).records@, k, old(self).index@[k] as int));
                        }
                    }
                }
                Ok(())
            },
        }
    }

    /// Builds the table of `records`, in their order. The first record whose
    /// raw identifier an earlier one carries stops the build.
    pub fn build(records: Vec<JsonMap>) -> (r: Result<RawTable, RawIdCollision>)
        ensures
            match r {
                Ok(table) => table.wf() && table@ == records@ && distinct_ids(records@),
                Err(e) => exists|j: int|
                    e.existing < j < records@.len() && distinct_ids(records@.take(j))
                        && #[trigger] records@[j].data.id@ == records@[e.existing as int].data.id@,
            },
    {
        let mut table = RawTable::new();
        let ghost all = records@;
        for record in it: records.into_iter()
            invariant
                it.seq() == all,
                table.wf(),
                table@ == all.take(it.index() as int),
        {
            let ghost at = it.index() as int;
            let ghost before = table@;
            match table.insert(record) {
                Ok(()) => {
                    proof {
                        assert(before.push(all[at]) =~= all.take(at + 1));
                    }
                },
                Err(e) => {
                    proof {
                        table.lemma_wf();
                        let k = e.existing as int;
                        let found = choose|k: int| carries(before, all[at].data.id@, k);
                        assert(carries(before, all[at].data.id@, found));
                        assert(before[k] == all[k]);
                    }
                    return Err(e);
                },
            }
        }
        proof {
            table.lemma_wf();
            assert(all.take(all.len() as int) =~= all);
        }
        Ok(table)
    }
}

} // verus!
