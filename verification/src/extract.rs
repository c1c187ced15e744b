//! The extractor's ordered merge: rows of several source tables, table by
//! table and row by row, become one flat sequence of records, with a
//! diagnostic for every malformed date text.

use crate::record::{
    diagnostic_of_row, record_of_row, record_wf, row_date_wf, ParseDiagnostic, Record, SourceRow,
};
use vstd::prelude::*;

verus! {

/// The rows of all tables, in table order and within-table row order.
pub open spec fn flat_rows(tables: Seq<Vec<SourceRow>>) -> Seq<SourceRow>
    decreases tables.len(),
{
    if tables.len() == 0 {
        Seq::empty()
    } else {
        tables[0]@ + flat_rows(tables.drop_first())
    }
}

/// The rows whose date text is malformed, in their order of appearance.
pub open spec fn malformed_rows(rows: Seq<SourceRow>) -> Seq<SourceRow>
    decreases rows.len(),
{
    if rows.len() == 0 {
        Seq::empty()
    } else {
        let init = malformed_rows(rows.drop_last());
        if !row_date_wf(rows.last()) {
            init.push(rows.last())
        } else {
            init
        }
    }
}

/// Flatten the tables' rows into one sequence, preserving table order and
/// within-table row order.
pub fn flatten_tables(tables: Vec<Vec<SourceRow>>) -> (rows: Vec<SourceRow>)
    ensures
        rows@ == flat_rows(tables@),
{
    let ghost all = flat_rows(tables@);
    let mut tables = tables;
    let mut rows: Vec<SourceRow> = Vec::new();
    while tables.len() > 0
        invariant
            rows@ + flat_rows(tables@) == all,
        decreases tables@.len(),
    {
        let ghost prev_tables = tables@;
        let mut table = tables.remove(0);
        proof {
            assert(tables@ =~= prev_tables.drop_first());
        }
        while table.len() > 0
            invariant
                rows@ + table@ + flat_rows(tables@) == all,
            decreases table@.len(),
        {
            let ghost prev_rows = rows@;
            let ghost prev_table = table@;
            let row = table.remove(0);
            rows.push(row);
            proof {
                assert(table@ =~= prev_table.drop_first());
                assert(rows@ + table@ =~= prev_rows + prev_table);
            }
        }
    }
    proof {
        assert(rows@ =~= all);
    }
    rows
}

/// Turn the tables' rows into records, one per row, in order; collect one
/// diagnostic per malformed date text, in order.
pub fn extract_records(tables: Vec<Vec<SourceRow>>) -> (r: (Vec<Record>, Vec<ParseDiagnostic>))
    ensures
        r.0@.len() == flat_rows(tables@).len(),
        forall|i: int|
            0 <= i < r.0@.len() ==> record_of_row(flat_rows(tables@)[i], #[trigger] r.0@[i]),
        forall|i: int| 0 <= i < r.0@.len() ==> record_wf(#[trigger] r.0@[i]),
        r.1@.len() == malformed_rows(flat_rows(tables@)).len(),
        forall|i: int|
            0 <= i < r.1@.len() ==> diagnostic_of_row(
                malformed_rows(flat_rows(tables@))[i],
                #[trigger] r.1@[i],
            ),
{
    let ghost all = flat_rows(tables@);
    let mut rows = flatten_tables(tables);
    let mut records: Vec<Record> = Vec::new();
    let mut diagnostics: Vec<ParseDiagnostic> = Vec::new();
    let ghost mut done: Seq<SourceRow> = Seq::empty();
    while rows.len() > 0
        invariant
            done + rows@ == all,
            records@.len() == done.len(),
            forall|i: int|
                0 <= i < records@.len() ==> record_of_row(done[i], #[trigger] records@[i]),
            forall|i: int| 0 <= i < records@.len() ==> record_wf(#[trigger] records@[i]),
            diagnostics@.len() == malformed_rows(done).len(),
            forall|i: int|
                0 <= i < diagnostics@.len() ==> diagnostic_of_row(
                    malformed_rows(done)[i],
                    #[trigger] diagnostics@[i],
                ),
        decreases rows@.len(),
    {
        let ghost prev_rows = rows@;
        let ghost prev_done = done;
        let row = rows.remove(0);
        let ghost the_row = row;
        let (record, diagnostic) = Record::from_row(row);
        records.push(record);
        match diagnostic {
            Some(d) => diagnostics.push(d),
            None => (),
        }
        proof {
            done = prev_done.push(the_row);
            assert(rows@ =~= prev_rows.drop_first());
            assert(done + rows@ =~= all);
            assert(done.drop_last() =~= prev_done);
            assert(done.last() == the_row);
        }
    }
    proof {
        assert(done =~= all);
    }
    (records, diagnostics)
}

} // verus!
