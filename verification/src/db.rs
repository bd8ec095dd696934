use vstd::prelude::*;
use crate::offsets::OffsetMap;
use crate::rows::DbEventVec;
use crate::table::{RowModel, Table, reports_max_offsets, spec_insert_batch};

verus! {

/// Abstraction over the destination store: it reports its persisted offset
/// map and accepts columnar bundles for idempotent bulk writes.
pub trait DbConnection: Sized {
    /// The connection's view of the destination table, keyed by
    /// (source, offset).
    spec fn table_view(&self) -> Map<(Seq<char>, int), RowModel>;

    /// The connection's internal well-formedness.
    spec fn inv(&self) -> bool;

    /// One bulk write of the whole bundle, atomic per batch: on success the
    /// table is exactly the old table with the bundle written row by row
    /// under conflict-ignore semantics; on failure — fatal for the run —
    /// nothing of the bundle is committed.
    fn insert(&mut self, batch: &DbEventVec) -> (ok: bool)
        requires
            old(self).inv(),
            batch.wf(),
        ensures
            final(self).inv(),
            ok ==> final(self).table_view() == spec_insert_batch(
                old(self).table_view(),
                *batch,
                batch.spec_len() as int,
            ),
            !ok ==> final(self).table_view() == old(self).table_view(),
    ;

    /// The persisted offset map: per source, the highest offset of any
    /// stored row. It is the resume point after a restart.
    fn get_offsets(&self) -> (om: OffsetMap)
        requires
            self.inv(),
        ensures
            om.wf(),
            reports_max_offsets(self.table_view(), om@),
    ;
}

/// Factory for destination connections, chosen at construction time.
pub trait Db<C: DbConnection> {
    /// Open a connection; failure is fatal for the run.
    fn connect(&self) -> (r: Result<C, String>)
        ensures
            r matches Ok(c) ==> c.inv(),
    ;
}

impl DbConnection for Table {
    open spec fn table_view(&self) -> Map<(Seq<char>, int), RowModel> {
        self@
    }

    open spec fn inv(&self) -> bool {
        self.wf()
    }

    fn insert(&mut self, batch: &DbEventVec) -> (ok: bool) {
        Table::insert(self, batch);
        true
    }

    fn get_offsets(&self) -> (om: OffsetMap) {
        Table::get_offsets(self)
    }
}

/// An in-memory destination: the pipeline can run against it without a live
/// database, with the very same sink contract.
pub struct MemDb {}

impl Db<Table> for MemDb {
    fn connect(&self) -> (r: Result<Table, String>)
        ensures
            r is Ok,
            r matches Ok(c) ==> c@ == Map::<(Seq<char>, int), RowModel>::empty(),
    {
        Ok(Table::new())
    }
}

} // verus!
