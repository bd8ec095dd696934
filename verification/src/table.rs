use vstd::prelude::*;
use crate::offsets::{OffsetMap, merged_at};
use crate::rows::DbEventVec;

verus! {

/// The non-key columns of one stored row.
pub ghost struct RowModel {
    pub semantics: Seq<char>,
    pub name: Seq<char>,
    pub lamport: int,
    pub timestamp: int,
    pub payload: Seq<char>,
}

/// One stored row of the destination table.
#[derive(Debug, PartialEq)]
pub struct TableRow {
    pub source: String,
    pub semantics: String,
    pub name: String,
    pub lamport: i64,
    pub offset: i64,
    pub timestamp: i64,
    pub payload: String,
}

impl TableRow {
    /// The primary key of the row.
    pub open spec fn key(self) -> (Seq<char>, int) {
        (self.source@, self.offset as int)
    }

    /// The remaining columns.
    pub open spec fn val(self) -> RowModel {
        RowModel {
            semantics: self.semantics@,
            name: self.name@,
            lamport: self.lamport as int,
            timestamp: self.timestamp as int,
            payload: self.payload@,
        }
    }
}

/// Row keys are pairwise distinct.
pub open spec fn unique_keys(rows: Seq<TableRow>) -> bool {
    forall|i: int, j: int|
        0 <= i < j < rows.len() ==> (#[trigger] rows[i]).key() != (#[trigger] rows[j]).key()
}

/// The mapping a row list stands for.
pub closed spec fn tbl_map_of(rows: Seq<TableRow>) -> Map<(Seq<char>, int), RowModel>
    decreases rows.len(),
{
    if rows.len() == 0 {
        Map::empty()
    } else {
        tbl_map_of(rows.drop_last()).insert(rows.last().key(), rows.last().val())
    }
}

/// The key of row `i` of a columnar bundle.
pub open spec fn batch_key(b: DbEventVec, i: int) -> (Seq<char>, int) {
    (b.sources@[i]@, b.offsets@[i] as int)
}

/// The non-key columns of row `i` of a columnar bundle.
pub open spec fn batch_val(b: DbEventVec, i: int) -> RowModel {
    RowModel {
        semantics: b.semantics@[i]@,
        name: b.names@[i]@,
        lamport: b.lamports@[i] as int,
        timestamp: b.timestamps@[i] as int,
        payload: b.payloads@[i]@,
    }
}

/// Write one row with conflict-ignore semantics: a key collision is a no-op
/// for that row — never an error, never an overwrite.
pub open spec fn upsert_ignore(
    m: Map<(Seq<char>, int), RowModel>,
    k: (Seq<char>, int),
    r: RowModel,
) -> Map<(Seq<char>, int), RowModel> {
    if m.dom().contains(k) {
        m
    } else {
        m.insert(k, r)
    }
}

/// The table after writing the first `n` rows of bundle `b`, in order, each
/// with conflict-ignore semantics.
pub open spec fn spec_insert_batch(
    m: Map<(Seq<char>, int), RowModel>,
    b: DbEventVec,
    n: int,
) -> Map<(Seq<char>, int), RowModel>
    decreases n,
{
    if n <= 0 {
        m
    } else {
        upsert_ignore(spec_insert_batch(m, b, n - 1), batch_key(b, n - 1), batch_val(b, n - 1))
    }
}

/// What `tbl_map_of` holds, for a list of rows with distinct keys: exactly
/// the listed keys, each at its listed columns, finitely many.
proof fn lemma_tbl_map_props(rows: Seq<TableRow>)
    requires
        unique_keys(rows),
    ensures
        tbl_map_of(rows).dom().finite(),
        tbl_map_of(rows).dom().len() == rows.len(),
        forall|i: int|
            0 <= i < rows.len() ==> tbl_map_of(rows).dom().contains((#[trigger] rows[i]).key())
                && tbl_map_of(rows)[rows[i].key()] == rows[i].val(),
        forall|k: (Seq<char>, int)|
            #[trigger] tbl_map_of(rows).dom().contains(k) ==> exists|i: int|
                0 <= i < rows.len() && (#[trigger] rows[i]).key() == k,
    decreases rows.len(),
{
    if rows.len() > 0 {
        lemma_tbl_map_props(rows.drop_last());
        assert(forall|i: int| 0 <= i < rows.len() - 1 ==> rows.drop_last()[i] == rows[i]);
        assert(!tbl_map_of(rows.drop_last()).dom().contains(rows.last().key()));
        assert(forall|k: (Seq<char>, int)|
            #[trigger] tbl_map_of(rows).dom().contains(k) && k != rows.last().key()
                ==> tbl_map_of(rows.drop_last()).dom().contains(k));
    }
}

/// `om` is a faithful offset report for table `t`: it covers every stored
/// (source, offset), and reports per source only an offset that is stored —
/// together, the per-source maximum.
pub open spec fn reports_max_offsets(
    t: Map<(Seq<char>, int), RowModel>,
    om: Map<Seq<char>, u64>,
) -> bool {
    &&& forall|s: Seq<char>, o: int|
        #[trigger] t.dom().contains((s, o)) ==> om.dom().contains(s) && o <= om[s]
    &&& forall|s: Seq<char>| #[trigger] om.dom().contains(s) ==> t.dom().contains((s, om[s] as int))
}

/// Writing a batch only ever adds keys, and afterwards every key of the
/// written prefix is present.
pub proof fn lemma_insert_batch_covers(m: Map<(Seq<char>, int), RowModel>, b: DbEventVec, n: int)
    ensures
        forall|k: (Seq<char>, int)| #[trigger] m.dom().contains(k)
            ==> spec_insert_batch(m, b, n).dom().contains(k),
        forall|i: int| 0 <= i < n ==> spec_insert_batch(m, b, n).dom().contains(batch_key(b, i)),
    decreases n,
{
    if n > 0 {
        lemma_insert_batch_covers(m, b, n - 1);
    }
}

/// A write never overwrites: the columns of a key that was already stored
/// are untouched by any later batch, whatever that batch holds for the key.
pub proof fn lemma_insert_never_overwrites(
    m: Map<(Seq<char>, int), RowModel>,
    b: DbEventVec,
    n: int,
    k: (Seq<char>, int),
)
    requires
        m.dom().contains(k),
    ensures
        spec_insert_batch(m, b, n).dom().contains(k),
        spec_insert_batch(m, b, n)[k] == m[k],
    decreases n,
{
    if n > 0 {
        lemma_insert_never_overwrites(m, b, n - 1, k);
    }
}

/// Writing a batch whose keys are all present already changes nothing.
proof fn lemma_insert_batch_absorbed(m: Map<(Seq<char>, int), RowModel>, b: DbEventVec, n: int)
    requires
        forall|i: int| 0 <= i < n ==> m.dom().contains(batch_key(b, i)),
    ensures
        spec_insert_batch(m, b, n) == m,
    decreases n,
{
    if n > 0 {
        lemma_insert_batch_absorbed(m, b, n - 1);
    }
}

/// Offset monotonicity: after writing a batch, every offset report for the
/// new table is, per source, at least every offset the batch held for that
/// source.
pub proof fn lemma_offset_monotonicity(
    m: Map<(Seq<char>, int), RowModel>,
    b: DbEventVec,
    n: int,
    om: Map<Seq<char>, u64>,
    i: int,
)
    requires
        reports_max_offsets(spec_insert_batch(m, b, n), om),
        0 <= i < n,
    ensures
        om.dom().contains(batch_key(b, i).0),
        batch_key(b, i).1 <= om[batch_key(b, i).0],
{
    lemma_insert_batch_covers(m, b, n);
}

/// Idempotent resume: writing the same batch twice leaves exactly the table
/// that writing it once leaves, so redelivery after a restart is absorbed
/// without duplicate rows.
pub proof fn lemma_insert_idempotent(m: Map<(Seq<char>, int), RowModel>, b: DbEventVec, n: int)
    ensures
        spec_insert_batch(spec_insert_batch(m, b, n), b, n) == spec_insert_batch(m, b, n),
{
    lemma_insert_batch_covers(m, b, n);
    lemma_insert_batch_absorbed(spec_insert_batch(m, b, n), b, n);
}

/// In-memory model of the destination table: rows keyed by (source, offset),
/// written only through the idempotent bulk insert.
#[derive(Debug, PartialEq)]
pub struct Table {
    rows: Vec<TableRow>,
}

impl Table {
    /// Keys are distinct and offsets are valid zero-based store positions.
    pub closed spec fn wf(self) -> bool {
        &&& unique_keys(self.rows@)
        &&& forall|i: int| 0 <= i < self.rows@.len() ==> (#[trigger] self.rows@[i]).offset >= 0
    }

    /// An empty table.
    pub fn new() -> (t: Table)
        ensures
            t.wf(),
            t@ == Map::<(Seq<char>, int), RowModel>::empty(),
    {
        Table { rows: Vec::new() }
    }

    /// Whether a row with this primary key is stored.
    pub fn contains_key(&self, source: &String, offset: i64) -> (r: bool)
        requires
            self.wf(),
        ensures
            r == self@.dom().contains((source@, offset as int)),
    {
        proof {
            lemma_tbl_map_props(self.rows@);
        }
        let n = self.rows.len();
        for i in 0..n
            invariant
                n == self.rows@.len(),
                self.wf(),
                forall|j: int|
                    0 <= j < i ==> (#[trigger] self.rows@[j]).key() != (source@, offset as int),
                forall|jj: int|
                    0 <= jj < n ==> tbl_map_of(self.rows@).dom().contains(
                        (#[trigger] self.rows@[jj]).key(),
                    ),
                forall|k: (Seq<char>, int)|
                    #[trigger] tbl_map_of(self.rows@).dom().contains(k) ==> exists|jj: int|
                        0 <= jj < n && (#[trigger] self.rows@[jj]).key() == k,
        {
            if self.rows[i].source == *source && self.rows[i].offset == offset {
                return true;
            }
        }
        false
    }

    /// One bulk write of a whole bundle, row by row in order, ignoring every
    /// key collision, so that redelivered events are absorbed silently.
    pub fn insert(&mut self, batch: &DbEventVec)
        requires
            old(self).wf(),
            batch.wf(),
        ensures
            final(self).wf(),
            final(self)@ == spec_insert_batch(old(self)@, *batch, batch.spec_len() as int),
    {
        let n = batch.len();
        for i in 0..n
            invariant
                n == batch.spec_len(),
                batch.wf(),
                self.wf(),
                self@ == spec_insert_batch(old(self)@, *batch, i as int),
        {
            if !self.contains_key(&batch.sources[i], batch.offsets[i]) {
                proof {
                    lemma_tbl_map_props(self.rows@);
                }
                let ghost before = self.rows@;
                let row = TableRow {
                    source: batch.sources[i].clone(),
                    semantics: batch.semantics[i].clone(),
                    name: batch.names[i].clone(),
                    lamport: batch.lamports[i],
                    offset: batch.offsets[i],
                    timestamp: batch.timestamps[i],
                    payload: batch.payloads[i].clone(),
                };
                self.rows.push(row);
                proof {
                    assert(self.rows@.drop_last() =~= before);
                    assert(forall|j: int|
                        0 <= j < before.len() ==> tbl_map_of(before).dom().contains(
                            (#[trigger] before[j]).key(),
                        ));
                    assert(forall|a: int, b: int|
                        0 <= a < b < self.rows@.len() ==> (#[trigger] self.rows@[a]).key()
                            != (#[trigger] self.rows@[b]).key());
                }
            }
        }
    }

    /// Number of stored rows.
    pub fn len(&self) -> (n: usize)
        requires
            self.wf(),
        ensures
            n == self@.dom().len(),
    {
        proof {
            lemma_tbl_map_props(self.rows@);
        }
        self.rows.len()
    }

    /// The resume point: per source, the highest offset of any stored row.
    /// Every stored (source, offset) is covered by the result, and every
    /// reported offset is that of some stored row.
    pub fn get_offsets(&self) -> (om: OffsetMap)
        requires
            self.wf(),
        ensures
            om.wf(),
            reports_max_offsets(self@, om@),
    {
        proof {
            lemma_tbl_map_props(self.rows@);
        }
        let mut om = OffsetMap::new();
        let n = self.rows.len();
        for i in 0..n
            invariant
                n == self.rows@.len(),
                self.wf(),
                om.wf(),
                forall|j: int|
                    0 <= j < i ==> om@.dom().contains((#[trigger] self.rows@[j]).source@)
                        && self.rows@[j].offset <= om@[self.rows@[j].source@],
                forall|s: Seq<char>|
                    #[trigger] om@.dom().contains(s) ==> exists|j: int|
                        0 <= j < i && (#[trigger] self.rows@[j]).source@ == s
                            && self.rows@[j].offset == om@[s],
        {
            let ghost before = om@;
            om.update_max(&self.rows[i].source, self.rows[i].offset as u64);
            proof {
                assert(om@ == merged_at(before, self.rows@[i as int].source@,
                    self.rows@[i as int].offset as u64));
            }
        }
        proof {
            assert(forall|s: Seq<char>, o: int|
                #[trigger] self@.dom().contains((s, o)) ==> exists|j: int|
                    0 <= j < n && (#[trigger] self.rows@[j]).key() == (s, o));
        }
        om
    }
}

impl View for Table {
    type V = Map<(Seq<char>, int), RowModel>;

    closed spec fn view(&self) -> Map<(Seq<char>, int), RowModel> {
        tbl_map_of(self.rows@)
    }
}

} // verus!
