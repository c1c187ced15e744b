//! The whole batch in one step: from the tables' rows to the ordered list
//! of store writes, with the records and the parse diagnostics alongside.

use crate::extract::{extract_records, flat_rows, malformed_rows};
use crate::load::{plan_writes, write_op_for, WriteOp};
use crate::record::{diagnostic_of_row, record_of_row, record_wf, ParseDiagnostic, Record, SourceRow};
use vstd::prelude::*;

verus! {

/// Everything the batch produces before the store is touched: the records
/// in extraction order, the diagnostics for malformed dates, and the writes
/// to issue in order.
pub struct MigrationPlan {
    pub records: Vec<Record>,
    pub diagnostics: Vec<ParseDiagnostic>,
    pub writes: Vec<WriteOp>,
}

/// The plan is faithful to the tables' rows: one record per row in order,
/// one diagnostic per malformed date in order, one write per record in
/// order.
pub open spec fn plan_of_tables(tables: Seq<Vec<SourceRow>>, p: MigrationPlan) -> bool {
    &&& p.records@.len() == flat_rows(tables).len()
    &&& forall|i: int|
        0 <= i < p.records@.len() ==> record_of_row(flat_rows(tables)[i], #[trigger] p.records@[i])
    &&& forall|i: int| 0 <= i < p.records@.len() ==> record_wf(#[trigger] p.records@[i])
    &&& p.diagnostics@.len() == malformed_rows(flat_rows(tables)).len()
    &&& forall|i: int|
        0 <= i < p.diagnostics@.len() ==> diagnostic_of_row(
            malformed_rows(flat_rows(tables))[i],
            #[trigger] p.diagnostics@[i],
        )
    &&& p.writes@.len() == p.records@.len()
    &&& forall|i: int|
        0 <= i < p.writes@.len() ==> write_op_for(p.records@[i], #[trigger] p.writes@[i])
}

/// Plan the whole migration: extract the records from the tables' rows and
/// lay out the store writes, one per record, in extraction order.
pub fn plan_migration(tables: Vec<Vec<SourceRow>>) -> (p: MigrationPlan)
    ensures
        plan_of_tables(tables@, p),
{
    let (records, diagnostics) = extract_records(tables);
    let writes = plan_writes(&records);
    MigrationPlan { records, diagnostics, writes }
}

} // verus!
