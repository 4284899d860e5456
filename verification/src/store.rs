//! The engine's model of one table of embedded records.
//!
//! A [`Table`] holds the rows the engine reasons about: each [`Record`] has a
//! unique id, a fixed-point embedding vector of the table's dimensionality,
//! an opaque metadata payload, and named fields that filters can read. All
//! mutations validate their input before touching any row, mutations of a
//! single record are exact, and batch mutations are all-or-nothing: if any
//! id in a batch is missing or any update is invalid, the table is left
//! exactly as it was.
//!
//! Embedding components are fixed-point integers bounded by
//! [`COMPONENT_LIMIT`] in magnitude, and a vector has at most
//! [`MAX_DIMENSIONS`] components; both bounds are part of the public
//! contract and keep every similarity computation free of overflow.

use crate::error::VectorStoreError;
use vstd::prelude::*;

verus! {

/// The dimensionality ceiling of an embedding vector.
pub const MAX_DIMENSIONS: usize = 4096;

/// The magnitude bound of one fixed-point embedding component.
pub const COMPONENT_LIMIT: i64 = 1_000_000;

/// The value of one named record field.
#[derive(Debug, Clone, PartialEq, Eq)]
pub enum FieldValue {
    /// A text value.
    Text(String),
    /// An integer value.
    Integer(i64),
}

/// One embedded row of a table.
#[derive(Debug, Clone)]
pub struct Record {
    /// The unique id of the row.
    pub id: String,
    /// The fixed-point embedding of the row.
    pub vector: Vec<i64>,
    /// The opaque payload handed back to callers.
    pub metadata: String,
    /// Named values that filters can read.
    pub fields: Vec<(String, FieldValue)>,
}

/// A vector fit for a table of the given dimensionality: exactly `dims`
/// components, each within [`COMPONENT_LIMIT`].
pub open spec fn valid_vector(v: Seq<i64>, dims: int) -> bool {
    &&& v.len() == dims
    &&& forall|i: int|
        0 <= i < v.len() ==> -COMPONENT_LIMIT <= #[trigger] v[i] <= COMPONENT_LIMIT
}

/// Whether some record in `recs` has the given id.
pub open spec fn contains_id(recs: Seq<Record>, id: Seq<char>) -> bool {
    exists|i: int| 0 <= i < recs.len() && (#[trigger] recs[i]).id@ == id
}

/// The index of the first record with the given id.
pub open spec fn index_of_id(recs: Seq<Record>, id: Seq<char>) -> int
    decreases recs.len(),
{
    if recs.len() == 0 {
        0
    } else if recs[0].id@ == id {
        0
    } else {
        1 + index_of_id(recs.drop_first(), id)
    }
}

/// For a present id, `index_of_id` finds the first record holding it.
pub proof fn lemma_index_of_id(recs: Seq<Record>, id: Seq<char>)
    requires
        contains_id(recs, id),
    ensures
        0 <= index_of_id(recs, id) < recs.len(),
        recs[index_of_id(recs, id)].id@ == id,
        forall|k: int| 0 <= k < index_of_id(recs, id) ==> (#[trigger] recs[k]).id@ != id,
    decreases recs.len(),
{
    if recs.len() > 0 && recs[0].id@ != id {
        assert(contains_id(recs.drop_first(), id)) by {
            let i = choose|i: int| 0 <= i < recs.len() && (#[trigger] recs[i]).id@ == id;
            assert(recs.drop_first()[i - 1].id@ == id);
        }
        lemma_index_of_id(recs.drop_first(), id);
        assert forall|k: int| 0 <= k < index_of_id(recs, id) implies (#[trigger] recs[k]).id@
            != id by {
            if k > 0 {
                assert(recs.drop_first()[k - 1].id@ != id);
            }
        }
    }
}

/// Searching from the front: the first hit at position `i` is the first hit
/// overall.
proof fn lemma_index_of_first(recs: Seq<Record>, id: Seq<char>, i: int)
    requires
        0 <= i < recs.len(),
        recs[i].id@ == id,
        forall|k: int| 0 <= k < i ==> (#[trigger] recs[k]).id@ != id,
    ensures
        index_of_id(recs, id) == i,
    decreases i,
{
    if i > 0 {
        lemma_index_of_first(recs.drop_first(), id, i - 1);
    }
}

/// Two row sequences with the same ids position by position locate every id
/// at the same index.
proof fn lemma_index_same_ids(a: Seq<Record>, b: Seq<Record>, id: Seq<char>)
    requires
        a.len() == b.len(),
        forall|p: int| 0 <= p < a.len() ==> (#[trigger] a[p]).id@ == (#[trigger] b[p]).id@,
    ensures
        contains_id(a, id) <==> contains_id(b, id),
        index_of_id(a, id) == index_of_id(b, id),
    decreases a.len(),
{
    if a.len() > 0 {
        assert(forall|p: int|
            0 <= p < a.drop_first().len() ==> (#[trigger] a.drop_first()[p]).id@ == (
            #[trigger] b.drop_first()[p]).id@);
        lemma_index_same_ids(a.drop_first(), b.drop_first(), id);
        if contains_id(a, id) {
            let i = choose|i: int| 0 <= i < a.len() && (#[trigger] a[i]).id@ == id;
            assert(b[i].id@ == id);
        }
        if contains_id(b, id) {
            let i = choose|i: int| 0 <= i < b.len() && (#[trigger] b[i]).id@ == id;
            assert(a[i].id@ == id);
        }
    }
}

/// Whether `ids` lists the given id.
pub open spec fn ids_list_contains(ids: Seq<String>, id: Seq<char>) -> bool {
    exists|k: int| 0 <= k < ids.len() && (#[trigger] ids[k])@ == id
}

/// The predicate a record must meet to survive a batch deletion: its id is
/// not listed.
pub open spec fn survives(ids: Seq<String>) -> spec_fn(Record) -> bool {
    |rec: Record| !ids_list_contains(ids, rec.id@)
}

/// The rows surviving a batch deletion: those whose id is not listed.
pub open spec fn batch_survivors(recs: Seq<Record>, ids: Seq<String>) -> Seq<Record> {
    recs.filter(survives(ids))
}

/// The metadata assigned to `id` by the last update naming it, if any.
pub open spec fn last_meta_update(
    updates: Seq<(String, String, Option<Vec<i64>>)>,
    id: Seq<char>,
) -> Option<String>
    decreases updates.len(),
{
    if updates.len() == 0 {
        None
    } else if updates.last().0@ == id {
        Some(updates.last().1)
    } else {
        last_meta_update(updates.drop_last(), id)
    }
}

/// The vector assigned to `id` by the last update naming it with a vector,
/// if any.
pub open spec fn last_vector_update(
    updates: Seq<(String, String, Option<Vec<i64>>)>,
    id: Seq<char>,
) -> Option<Vec<i64>>
    decreases updates.len(),
{
    if updates.len() == 0 {
        None
    } else if updates.last().0@ == id && updates.last().2 is Some {
        updates.last().2
    } else {
        last_vector_update(updates.drop_last(), id)
    }
}

/// How appending one update changes what a batch assigns to an id.
proof fn lemma_last_updates_snoc(
    updates: Seq<(String, String, Option<Vec<i64>>)>,
    u: (String, String, Option<Vec<i64>>),
    id: Seq<char>,
)
    ensures
        u.0@ == id ==> last_meta_update(updates.push(u), id) == Some(u.1),
        u.0@ != id ==> last_meta_update(updates.push(u), id) == last_meta_update(updates, id),
        u.0@ == id && u.2 is Some ==> last_vector_update(updates.push(u), id) == u.2,
        u.0@ == id && u.2 is None ==> last_vector_update(updates.push(u), id) == last_vector_update(
            updates,
            id,
        ),
        u.0@ != id ==> last_vector_update(updates.push(u), id) == last_vector_update(updates, id),
{
    assert(updates.push(u).drop_last() =~= updates);
    assert(updates.push(u).last() == u);
}

/// Whether one batch update applies cleanly to the given rows.
pub open spec fn update_ok(
    recs: Seq<Record>,
    dims: int,
    update: (String, String, Option<Vec<i64>>),
) -> bool {
    &&& update.0@.len() > 0
    &&& (update.2 matches Some(v) ==> valid_vector(v@, dims))
    &&& contains_id(recs, update.0@)
}

/// Filtered rows come from the original rows, and keep their distinct ids
/// and fit vectors.
proof fn lemma_filter_keeps_wf(recs: Seq<Record>, pred: spec_fn(Record) -> bool, dims: int)
    requires
        forall|i: int, j: int|
            0 <= i < j < recs.len() ==> (#[trigger] recs[i]).id@ != (#[trigger] recs[j]).id@,
        forall|i: int| 0 <= i < recs.len() ==> valid_vector((#[trigger] recs[i]).vector@, dims),
    ensures
        forall|i: int, j: int|
            0 <= i < j < recs.filter(pred).len() ==> (#[trigger] recs.filter(pred)[i]).id@ != (
            #[trigger] recs.filter(pred)[j]).id@,
        forall|i: int|
            0 <= i < recs.filter(pred).len() ==> valid_vector(
                (#[trigger] recs.filter(pred)[i]).vector@,
                dims,
            ),
        forall|i: int|
            0 <= i < recs.filter(pred).len() ==> exists|j: int|
                0 <= j < recs.len() && #[trigger] recs.filter(pred)[i] == recs[j],
    decreases recs.len(),
{
    reveal(Seq::filter);
    if recs.len() > 0 {
        let prefix = recs.drop_last();
        lemma_filter_keeps_wf(prefix, pred, dims);
        let f = recs.filter(pred);
        let fp = prefix.filter(pred);
        assert forall|i: int| 0 <= i < f.len() implies exists|j: int|
            0 <= j < recs.len() && #[trigger] f[i] == recs[j] by {
            if pred(recs.last()) && i == f.len() - 1 {
                assert(f[i] == recs[recs.len() - 1]);
            } else {
                let j = choose|j: int| 0 <= j < prefix.len() && #[trigger] fp[i] == prefix[j];
                assert(f[i] == recs[j]);
            }
        }
        assert forall|i: int, j: int| 0 <= i < j < f.len() implies (#[trigger] f[i]).id@ != (
        #[trigger] f[j]).id@ by {
            if pred(recs.last()) && j == f.len() - 1 {
                let ji = choose|k: int| 0 <= k < prefix.len() && #[trigger] fp[i] == prefix[k];
                assert(f[i].id@ == recs[ji].id@);
                assert(f[j].id@ == recs[recs.len() - 1].id@);
            } else {
                assert(f[i] == fp[i] && f[j] == fp[j]);
            }
        }
        assert forall|i: int| 0 <= i < f.len() implies valid_vector(
            (#[trigger] f[i]).vector@,
            dims,
        ) by {
            if pred(recs.last()) && i == f.len() - 1 {
                assert(f[i] == recs[recs.len() - 1]);
            } else {
                assert(f[i] == fp[i]);
            }
        }
    }
}

/// Copies a fixed-point vector.
fn clone_vec_i64(v: &Vec<i64>) -> (r: Vec<i64>)
    ensures
        r@ == v@,
{
    let n = v.len();
    let mut out: Vec<i64> = Vec::new();
    let mut i: usize = 0;
    while i < n
        invariant
            i <= n == v@.len(),
            out@ == v@.subrange(0, i as int),
        decreases n - i,
    {
        out.push(v[i]);
        i = i + 1;
    }
    proof {
        assert(v@.subrange(0, n as int) =~= v@);
    }
    out
}

/// Copies a field value exactly.
fn clone_field_value(v: &FieldValue) -> (r: FieldValue)
    ensures
        r == *v,
{
    match v {
        FieldValue::Text(s) => FieldValue::Text(s.clone()),
        FieldValue::Integer(x) => FieldValue::Integer(*x),
    }
}

/// Copies a field list exactly.
fn clone_fields(fields: &Vec<(String, FieldValue)>) -> (r: Vec<(String, FieldValue)>)
    ensures
        r@ == fields@,
{
    let n = fields.len();
    let mut out: Vec<(String, FieldValue)> = Vec::new();
    let mut i: usize = 0;
    while i < n
        invariant
            i <= n == fields@.len(),
            out@ == fields@.subrange(0, i as int),
        decreases n - i,
    {
        let name = fields[i].0.clone();
        let value = clone_field_value(&fields[i].1);
        out.push((name, value));
        proof {
            assert(out@ =~= fields@.subrange(0, i + 1));
        }
        i = i + 1;
    }
    proof {
        assert(fields@.subrange(0, n as int) =~= fields@);
    }
    out
}

/// Whether the id list names the record.
fn ids_contain(ids: &Vec<String>, rec: &Record) -> (r: bool)
    ensures
        r == ids_list_contains(ids@, rec.id@),
{
    let n = ids.len();
    let mut k: usize = 0;
    while k < n
        invariant
            k <= n == ids@.len(),
            forall|j: int| 0 <= j < k ==> (#[trigger] ids@[j])@ != rec.id@,
        decreases n - k,
    {
        if ids[k] == rec.id {
            return true;
        }
        k = k + 1;
    }
    false
}

/// What a well-formed table guarantees its readers: bounded
/// dimensionality, a non-empty name, distinct ids, and a fit vector in
/// every row.
pub proof fn lemma_table_wf(t: &Table)
    requires
        t.wf(),
    ensures
        1 <= t.spec_dimensions() <= MAX_DIMENSIONS,
        t.spec_name().len() > 0,
        forall|i: int, j: int|
            0 <= i < j < t.spec_records().len() ==> (#[trigger] t.spec_records()[i]).id@ != (
            #[trigger] t.spec_records()[j]).id@,
        forall|i: int|
            0 <= i < t.spec_records().len() ==> valid_vector(
                (#[trigger] t.spec_records()[i]).vector@,
                t.spec_dimensions(),
            ),
{
}

/// A table of embedded records.
///
/// Ids are unique, every vector matches the table's dimensionality, and
/// every mutation either succeeds completely or leaves the table unchanged.
#[derive(Debug, Clone)]
pub struct Table {
    name: String,
    dimensions: usize,
    records: Vec<Record>,
}

impl Table {
    /// Well-formedness: dimensionality within bounds, non-empty name,
    /// unique ids, every vector fit for the table.
    pub closed spec fn wf(&self) -> bool {
        &&& self.name@.len() > 0
        &&& 1 <= self.dimensions <= MAX_DIMENSIONS
        &&& forall|i: int, j: int|
            0 <= i < j < self.records@.len() ==> (#[trigger] self.records@[i]).id@ != (
            #[trigger] self.records@[j]).id@
        &&& forall|i: int|
            0 <= i < self.records@.len() ==> valid_vector(
                (#[trigger] self.records@[i]).vector@,
                self.dimensions as int,
            )
    }

    /// The rows of the table, in insertion order.
    pub closed spec fn spec_records(&self) -> Seq<Record> {
        self.records@
    }

    /// The table's name.
    pub closed spec fn spec_name(&self) -> Seq<char> {
        self.name@
    }

    /// The table's dimensionality.
    pub closed spec fn spec_dimensions(&self) -> int {
        self.dimensions as int
    }

    /// Creates an empty table.
    ///
    /// Fails with a validation error iff the name is empty or the
    /// dimensionality is zero or above [`MAX_DIMENSIONS`].
    pub fn new(name: &str, dimensions: usize) -> (r: Result<Table, VectorStoreError>)
        ensures
            r is Ok <==> (name@.len() > 0 && 1 <= dimensions <= MAX_DIMENSIONS),
            r matches Ok(t) ==> {
                &&& t.wf()
                &&& t.spec_name() == name@
                &&& t.spec_dimensions() == dimensions
                &&& t.spec_records().len() == 0
            },
            r is Err ==> (r matches Err(VectorStoreError::InvalidDataError(_))),
    {
        if name.is_empty() {
            return Err(VectorStoreError::InvalidDataError("Table name cannot be empty".to_owned()));
        }
        if dimensions == 0 || dimensions > MAX_DIMENSIONS {
            return Err(
                VectorStoreError::InvalidDataError(
                    "Table dimensionality is out of range".to_owned(),
                ),
            );
        }
        Ok(Table { name: name.to_owned(), dimensions, records: Vec::new() })
    }

    /// The table's name.
    pub fn name(&self) -> (r: &String)
        ensures
            r@ == self.spec_name(),
    {
        &self.name
    }

    /// The number of records.
    pub fn len(&self) -> (r: usize)
        ensures
            r == self.spec_records().len(),
    {
        self.records.len()
    }

    /// The record at one position.
    pub fn get(&self, i: usize) -> (r: &Record)
        requires
            i < self.spec_records().len(),
        ensures
            *r == self.spec_records()[i as int],
    {
        &self.records[i]
    }

    /// Finds the position of the record with the given id.
    fn find(&self, id: &str) -> (r: Option<usize>)
        ensures
            r is Some <==> contains_id(self.spec_records(), id@),
            r matches Some(i) ==> i == index_of_id(self.spec_records(), id@) && i
                < self.spec_records().len() && self.spec_records()[i as int].id@ == id@,
    {
        let id_s = id.to_owned();
        let n = self.records.len();
        let mut i: usize = 0;
        while i < n
            invariant
                i <= n == self.spec_records().len(),
                id_s@ == id@,
                forall|k: int| 0 <= k < i ==> (#[trigger] self.spec_records()[k]).id@ != id@,
            decreases n - i,
        {
            if self.records[i].id == id_s {
                proof {
                    lemma_index_of_first(self.spec_records(), id@, i as int);
                }
                return Some(i);
            }
            i = i + 1;
        }
        None
    }

    /// Checks a vector against the table's bounds, in the order: length
    /// within the engine's ceiling, exact dimensionality, component range.
    pub(crate) fn check_vector(&self, v: &Vec<i64>) -> (r: Result<(), VectorStoreError>)
        requires
            self.wf(),
        ensures
            r is Ok <==> valid_vector(v@, self.spec_dimensions()),
            v@.len() == 0 || v@.len() > MAX_DIMENSIONS ==> (r matches Err(
                VectorStoreError::InvalidDataError(_),
            )),
            r is Err ==> (r matches Err(VectorStoreError::InvalidDataError(_)) || r matches Err(
                VectorStoreError::DimensionMismatch { .. },
            )),
    {
        if v.len() == 0 || v.len() > MAX_DIMENSIONS {
            return Err(
                VectorStoreError::InvalidDataError(
                    "Embedding vector length is out of range".to_owned(),
                ),
            );
        }
        if v.len() != self.dimensions {
            return Err(
                VectorStoreError::DimensionMismatch { expected: self.dimensions, actual: v.len() },
            );
        }
        let n = v.len();
        let mut i: usize = 0;
        while i < n
            invariant
                i <= n == v@.len(),
                forall|k: int|
                    0 <= k < i ==> -COMPONENT_LIMIT <= #[trigger] v@[k] <= COMPONENT_LIMIT,
            decreases n - i,
        {
            let c = v[i];
            if c < -COMPONENT_LIMIT || c > COMPONENT_LIMIT {
                return Err(
                    VectorStoreError::InvalidDataError(
                        "Embedding component is out of range".to_owned(),
                    ),
                );
            }
            i = i + 1;
        }
        Ok(())
    }

    /// Inserts a new record.
    ///
    /// Fails with a validation error for an empty id or a vector that does
    /// not fit the table, and fails — rather than silently overwriting —
    /// when the id already exists. On success the record is appended,
    /// holding exactly the given parts.
    pub fn create_vector(
        &mut self,
        id: &str,
        vector: Vec<i64>,
        metadata: &str,
        fields: Vec<(String, FieldValue)>,
    ) -> (r: Result<(), VectorStoreError>)
        requires
            old(self).wf(),
        ensures
            final(self).wf(),
            final(self).spec_name() == old(self).spec_name(),
            final(self).spec_dimensions() == old(self).spec_dimensions(),
            r is Ok <==> (id@.len() > 0 && valid_vector(vector@, old(self).spec_dimensions())
                && !contains_id(old(self).spec_records(), id@)),
            r is Err ==> *final(self) == *old(self),
            r is Err ==> (r matches Err(VectorStoreError::InvalidDataError(_)) || r matches Err(
                VectorStoreError::DimensionMismatch { .. },
            )),
            id@.len() == 0 ==> (r matches Err(VectorStoreError::InvalidDataError(_))),
            id@.len() > 0 && valid_vector(vector@, old(self).spec_dimensions()) && contains_id(
                old(self).spec_records(),
                id@,
            ) ==> (r matches Err(VectorStoreError::InvalidDataError(_))),
            r is Ok ==> {
                &&& final(self).spec_records().len() == old(self).spec_records().len() + 1
                &&& final(self).spec_records().drop_last() == old(self).spec_records()
                &&& final(self).spec_records().last().id@ == id@
                &&& final(self).spec_records().last().vector == vector
                &&& final(self).spec_records().last().metadata@ == metadata@
                &&& final(self).spec_records().last().fields == fields
            },
    {
        if id.is_empty() {
            return Err(VectorStoreError::InvalidDataError("Record id cannot be empty".to_owned()));
        }
        self.check_vector(&vector)?;
        if self.find(id).is_some() {
            return Err(VectorStoreError::InvalidDataError("Record id already exists".to_owned()));
        }
        let rec = Record { id: id.to_owned(), vector, metadata: metadata.to_owned(), fields };
        self.records.push(rec);
        proof {
            assert(self.spec_records().drop_last() =~= old(self).spec_records());
        }
        Ok(())
    }

    /// Reads the record with the given id.
    ///
    /// A missing id is not an error: the call succeeds with `None`. A
    /// present id yields a copy of the record.
    pub fn read_vector(&self, id: &str) -> (r: Result<Option<Record>, VectorStoreError>)
        ensures
            r is Ok,
            !contains_id(self.spec_records(), id@) ==> (r matches Ok(o) && o is None),
            contains_id(self.spec_records(), id@) ==> (r matches Ok(o) && o matches Some(rec) && {
                let orig = self.spec_records()[index_of_id(self.spec_records(), id@)];
                &&& rec.id == orig.id
                &&& rec.vector@ == orig.vector@
                &&& rec.metadata == orig.metadata
                &&& rec.fields@ == orig.fields@
            }),
    {
        match self.find(id) {
            Some(i) => {
                let orig = &self.records[i];
                let rec = Record {
                    id: orig.id.clone(),
                    vector: clone_vec_i64(&orig.vector),
                    metadata: orig.metadata.clone(),
                    fields: clone_fields(&orig.fields),
                };
                Ok(Some(rec))
            },
            None => Ok(None),
        }
    }

    /// Replaces the metadata — and, when given, the vector — of the record
    /// with the given id.
    ///
    /// Fails with a validation error for an empty id or an unfit vector, and
    /// with a missing-id error when no record has the id; the table is then
    /// unchanged. Empty metadata is allowed. On success exactly that record
    /// changed, keeping its id and fields.
    pub fn update_embedding(&mut self, id: &str, metadata: &str, vector: Option<Vec<i64>>) -> (r:
        Result<(), VectorStoreError>)
        requires
            old(self).wf(),
        ensures
            final(self).wf(),
            final(self).spec_name() == old(self).spec_name(),
            final(self).spec_dimensions() == old(self).spec_dimensions(),
            r is Ok <==> (id@.len() > 0 && (vector matches Some(v) ==> valid_vector(
                v@,
                old(self).spec_dimensions(),
            )) && contains_id(old(self).spec_records(), id@)),
            r is Err ==> *final(self) == *old(self),
            id@.len() == 0 ==> (r matches Err(VectorStoreError::InvalidDataError(_))),
            id@.len() > 0 && (vector matches Some(v) && (v@.len() == 0 || v@.len()
                > MAX_DIMENSIONS)) ==> (r matches Err(VectorStoreError::InvalidDataError(_))),
            id@.len() > 0 && (vector matches Some(v) ==> valid_vector(
                v@,
                old(self).spec_dimensions(),
            )) && !contains_id(old(self).spec_records(), id@) ==> (r matches Err(
                VectorStoreError::MissingIdError(m),
            ) && m@ == id@),
            r is Ok ==> ({
                let at = index_of_id(old(self).spec_records(), id@);
                &&& final(self).spec_records().len() == old(self).spec_records().len()
                &&& forall|k: int|
                    0 <= k < old(self).spec_records().len() && k != at ==> final(self).spec_records()[k] == old(self).spec_records()[k]
                &&& final(self).spec_records()[at].id == old(self).spec_records()[at].id
                &&& final(self).spec_records()[at].fields == old(self).spec_records()[at].fields
                &&& final(self).spec_records()[at].metadata@ == metadata@
                &&& match vector {
                    Some(v) => final(self).spec_records()[at].vector == v,
                    None => final(self).spec_records()[at].vector == old(self).spec_records()[at].vector,
                }
            }),
    {
        if id.is_empty() {
            return Err(VectorStoreError::InvalidDataError("Record id cannot be empty".to_owned()));
        }
        match &vector {
            Some(v) => {
                self.check_vector(v)?;
            },
            None => {},
        };
        let i = match self.find(id) {
            Some(i) => i,
            None => {
                return Err(VectorStoreError::MissingIdError(id.to_owned()));
            },
        };
        let old_rec = self.records.remove(i);
        let new_vector = match vector {
            Some(v) => v,
            None => old_rec.vector,
        };
        let rec = Record {
            id: old_rec.id,
            vector: new_vector,
            metadata: metadata.to_owned(),
            fields: old_rec.fields,
        };
        self.records.insert(i, rec);
        proof {
            assert(self.spec_records() =~= old(self).spec_records().update(
                i as int,
                self.spec_records()[i as int],
            ));
        }
        Ok(())
    }

    /// Deletes the record with the given id.
    ///
    /// Fails with a missing-id error — leaving the table unchanged — when no
    /// record has the id; a missing id on deletion is an error, unlike on
    /// [`read_vector`](Self::read_vector).
    pub fn delete_embedding(&mut self, id: &str) -> (r: Result<(), VectorStoreError>)
        requires
            old(self).wf(),
        ensures
            final(self).wf(),
            final(self).spec_name() == old(self).spec_name(),
            final(self).spec_dimensions() == old(self).spec_dimensions(),
            r is Ok <==> contains_id(old(self).spec_records(), id@),
            !contains_id(old(self).spec_records(), id@) ==> *final(self) == *old(self) && (
            r matches Err(VectorStoreError::MissingIdError(m)) && m@ == id@),
            r is Ok ==> final(self).spec_records() == old(self).spec_records().remove(
                index_of_id(old(self).spec_records(), id@),
            ),
    {
        let i = match self.find(id) {
            Some(i) => i,
            None => {
                return Err(VectorStoreError::MissingIdError(id.to_owned()));
            },
        };
        self.records.remove(i);
        Ok(())
    }

    /// Deletes every listed id, all or nothing.
    ///
    /// If any listed id is missing, the call fails with a missing-id error
    /// naming the first such id and no record is deleted. On success exactly
    /// the listed records are gone, the rest keeping their order.
    pub fn delete_batch(&mut self, ids: &Vec<String>) -> (r: Result<(), VectorStoreError>)
        requires
            old(self).wf(),
        ensures
            final(self).wf(),
            final(self).spec_name() == old(self).spec_name(),
            final(self).spec_dimensions() == old(self).spec_dimensions(),
            r is Ok <==> (forall|k: int|
                0 <= k < ids@.len() ==> contains_id(
                    old(self).spec_records(),
                    (#[trigger] ids@[k])@,
                )),
            r is Err ==> *final(self) == *old(self) && (r matches Err(
                VectorStoreError::MissingIdError(_),
            )),
            r is Ok ==> final(self).spec_records() == batch_survivors(
                old(self).spec_records(),
                ids@,
            ),
    {
        // first pass: every id must be present, or nothing happens
        let n_ids = ids.len();
        let mut k: usize = 0;
        while k < n_ids
            invariant
                k <= n_ids == ids@.len(),
                *self == *old(self),
                self.wf(),
                forall|j: int|
                    0 <= j < k ==> contains_id(self.spec_records(), (#[trigger] ids@[j])@),
            decreases n_ids - k,
        {
            if self.find(ids[k].as_str()).is_none() {
                return Err(VectorStoreError::MissingIdError(ids[k].clone()));
            }
            k = k + 1;
        }
        // second pass: walk from the back, removing the listed rows in place
        let ghost orig = self.spec_records();
        let mut i: usize = self.records.len();
        proof {
            reveal(Seq::filter);
            assert(orig.skip(orig.len() as int) =~= Seq::<Record>::empty());
            assert(orig.subrange(0, orig.len() as int) =~= orig);
        }
        while i > 0
            invariant
                orig == old(self).spec_records(),
                i <= orig.len(),
                self.spec_name() == old(self).spec_name(),
                self.spec_dimensions() == old(self).spec_dimensions(),
                self.spec_records() == orig.subrange(0, i as int) + batch_survivors(
                    orig.skip(i as int),
                    ids@,
                ),
            decreases i,
        {
            i = i - 1;
            let ghost pre = self.spec_records();
            let ghost tail = batch_survivors(orig.skip(i + 1), ids@);
            proof {
                assert(pre == orig.subrange(0, i + 1) + tail);
                assert(pre[i as int] == orig.subrange(0, i + 1)[i as int]);
                assert(pre[i as int] == orig[i as int]);
                assert(orig.skip(i as int) =~= seq![orig[i as int]] + orig.skip(i + 1));
                Seq::filter_distributes_over_add(
                    seq![orig[i as int]],
                    orig.skip(i + 1),
                    survives(ids@),
                );
                reveal(Seq::filter);
                assert(seq![orig[i as int]].drop_last() =~= Seq::<Record>::empty());
                assert(Seq::<Record>::empty().filter(survives(ids@)) =~= Seq::<Record>::empty());
                assert(seq![orig[i as int]].filter(survives(ids@)) == (if survives(ids@)(
                    orig[i as int],
                ) {
                    Seq::<Record>::empty().push(orig[i as int])
                } else {
                    Seq::<Record>::empty()
                }));
            }
            let listed = ids_contain(ids, &self.records[i]);
            proof {
                assert(listed == !survives(ids@)(orig[i as int]));
            }
            if listed {
                self.records.remove(i);
                proof {
                    assert(batch_survivors(orig.skip(i as int), ids@) =~= tail);
                    assert(self.spec_records() =~= orig.subrange(0, i as int) + batch_survivors(
                        orig.skip(i as int),
                        ids@,
                    ));
                }
            } else {
                proof {
                    assert(batch_survivors(orig.skip(i as int), ids@) =~= seq![orig[i as int]]
                        + tail);
                    assert(self.spec_records() =~= orig.subrange(0, i as int) + batch_survivors(
                        orig.skip(i as int),
                        ids@,
                    ));
                }
            }
        }
        proof {
            assert(orig.skip(0) =~= orig);
            assert(orig.subrange(0, 0) =~= Seq::<Record>::empty());
            assert(self.spec_records() =~= batch_survivors(orig, ids@));
            lemma_filter_keeps_wf(orig, survives(ids@), old(self).spec_dimensions());
            assert forall|p: int| 0 <= p < self.spec_records().len() implies valid_vector(
                (#[trigger] self.spec_records()[p]).vector@,
                self.spec_dimensions(),
            ) by {
                assert(self.spec_records()[p] == batch_survivors(orig, ids@)[p]);
            }
        }
        Ok(())
    }

    /// Applies every listed update, all or nothing.
    ///
    /// Each update names an id and carries new metadata and, optionally, a
    /// new vector. The updates are checked first, in order — empty id, unfit
    /// vector, missing id — and if any check fails the call returns that
    /// update's error and no record changes. On success the updates are
    /// applied in order, so when several updates name the same record the
    /// last metadata and the last given vector win; ids and fields never
    /// change.
    pub fn update_batch(&mut self, updates: &Vec<(String, String, Option<Vec<i64>>)>) -> (r: Result<
        (),
        VectorStoreError,
    >)
        requires
            old(self).wf(),
        ensures
            final(self).wf(),
            final(self).spec_name() == old(self).spec_name(),
            final(self).spec_dimensions() == old(self).spec_dimensions(),
            r is Ok <==> (forall|k: int|
                0 <= k < updates@.len() ==> update_ok(
                    old(self).spec_records(),
                    old(self).spec_dimensions(),
                    #[trigger] updates@[k],
                )),
            r is Err ==> *final(self) == *old(self),
            r is Ok ==> final(self).spec_records().len() == old(self).spec_records().len(),
            r is Ok ==> (forall|p: int|
                0 <= p < old(self).spec_records().len() ==> ({
                    let orig = #[trigger] old(self).spec_records()[p];
                    let cur = final(self).spec_records()[p];
                    &&& cur.id == orig.id
                    &&& cur.fields == orig.fields
                    &&& (match last_meta_update(updates@, orig.id@) {
                        Some(m) => cur.metadata@ == m@,
                        None => cur.metadata == orig.metadata,
                    })
                    &&& (match last_vector_update(updates@, orig.id@) {
                        Some(v) => cur.vector@ == v@,
                        None => cur.vector == orig.vector,
                    })
                })),
    {
        // first pass: every update must be applicable, or nothing happens
        let n_updates = updates.len();
        let mut k: usize = 0;
        while k < n_updates
            invariant
                k <= n_updates == updates@.len(),
                *self == *old(self),
                self.wf(),
                forall|j: int|
                    0 <= j < k ==> update_ok(
                        self.spec_records(),
                        self.spec_dimensions(),
                        #[trigger] updates@[j],
                    ),
            decreases n_updates - k,
        {
            let u = &updates[k];
            if u.0.as_str().is_empty() {
                return Err(
                    VectorStoreError::InvalidDataError("Record id cannot be empty".to_owned()),
                );
            }
            match &u.2 {
                Some(v) => {
                    self.check_vector(v)?;
                },
                None => {},
            };
            if self.find(u.0.as_str()).is_none() {
                return Err(VectorStoreError::MissingIdError(u.0.clone()));
            }
            k = k + 1;
        }
        // second pass: apply in order; updates keep ids in place, so every
        // later update still applies
        let mut k: usize = 0;
        while k < n_updates
            invariant
                k <= n_updates == updates@.len(),
                self.wf(),
                self.spec_name() == old(self).spec_name(),
                self.spec_dimensions() == old(self).spec_dimensions(),
                self.spec_records().len() == old(self).spec_records().len(),
                forall|j: int|
                    0 <= j < updates@.len() ==> update_ok(
                        old(self).spec_records(),
                        old(self).spec_dimensions(),
                        #[trigger] updates@[j],
                    ),
                forall|p: int|
                    0 <= p < old(self).spec_records().len() ==> ({
                        let orig = #[trigger] old(self).spec_records()[p];
                        let cur = self.spec_records()[p];
                        &&& cur.id == orig.id
                        &&& cur.fields == orig.fields
                        &&& (match last_meta_update(updates@.subrange(0, k as int), orig.id@) {
                            Some(m) => cur.metadata@ == m@,
                            None => cur.metadata == orig.metadata,
                        })
                        &&& (match last_vector_update(updates@.subrange(0, k as int), orig.id@) {
                            Some(v) => cur.vector@ == v@,
                            None => cur.vector == orig.vector,
                        })
                    }),
            decreases n_updates - k,
        {
            let ghost done = updates@.subrange(0, k as int);
            let ghost prev: Table = *self;
            let u = &updates[k];
            proof {
                assert(update_ok(old(self).spec_records(), old(self).spec_dimensions(), updates@[
                    k as int]));
                lemma_index_of_id(old(self).spec_records(), u.0@);
                lemma_index_same_ids(old(self).spec_records(), prev.spec_records(), u.0@);
            }
            let cloned_vector = match &u.2 {
                Some(v) => Some(clone_vec_i64(v)),
                None => None,
            };
            let res = self.update_embedding(u.0.as_str(), u.1.as_str(), cloned_vector);
            proof {
                assert(res is Ok);
                let at = index_of_id(old(self).spec_records(), u.0@);
                assert(updates@.subrange(0, k + 1) =~= done.push(updates@[k as int]));
                assert forall|p: int| 0 <= p < old(self).spec_records().len() implies ({
                    let orig = #[trigger] old(self).spec_records()[p];
                    let cur = self.spec_records()[p];
                    &&& cur.id == orig.id
                    &&& cur.fields == orig.fields
                    &&& (match last_meta_update(updates@.subrange(0, k + 1), orig.id@) {
                        Some(m) => cur.metadata@ == m@,
                        None => cur.metadata == orig.metadata,
                    })
                    &&& (match last_vector_update(updates@.subrange(0, k + 1), orig.id@) {
                        Some(v) => cur.vector@ == v@,
                        None => cur.vector == orig.vector,
                    })
                }) by {
                    let orig = old(self).spec_records()[p];
                    lemma_last_updates_snoc(done, updates@[k as int], orig.id@);
                    if p != at {
                        assert(orig.id@ != u.0@);
                    }
                }
            }
            k = k + 1;
        }
        proof {
            assert(updates@.subrange(0, n_updates as int) =~= updates@);
        }
        Ok(())
    }
}

} // verus!
