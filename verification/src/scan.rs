//! Scan execution path: assembling one logical dataset out of per-file
//! scan results.
//!
//! A scan yields one result per visited file, each carrying a decoded
//! batch and an optional per-row selection mask.  Masked rows are dropped,
//! the surviving batches are concatenated in encounter order, and the
//! schema of the first batch unifies the whole dataset.  This path
//! performs no sorting and no semantic comparison — it only assembles what
//! the engine produced.

use vstd::prelude::*;

use crate::batch::{batch_v, rows_v, BatchV, DataBatch};
use crate::error::Error;
use crate::schema::{schema_agrees, schema_v, schemas_match, SchemaPolicy};
use crate::value::{clone_row, row_v, ValV, Value};

verus! {

/// One per-file result of an executed scan.
pub struct ScanResult {
    /// The decoded data of the file; a scan result must always carry
    /// data, so an absent payload is a host contract violation.
    pub raw_data: Option<DataBatch>,
    /// An optional row-selection mask, one boolean per row of the data.
    pub mask: Option<Vec<bool>>,
}

/// The rows of `rows` selected by `mask`, in order.
pub open spec fn masked_rows(rows: Seq<Seq<ValV>>, mask: Seq<bool>) -> Seq<Seq<ValV>>
    recommends
        rows.len() == mask.len(),
    decreases rows.len(),
{
    if rows.len() == 0 {
        Seq::empty()
    } else {
        let prefix = masked_rows(rows.drop_last(), mask.drop_last());
        if mask[rows.len() - 1] {
            prefix.push(rows.last())
        } else {
            prefix
        }
    }
}

/// Every result of the scan carries data.
pub open spec fn all_data_present(rs: Seq<ScanResult>) -> bool {
    forall|i: int| 0 <= i < rs.len() ==> (#[trigger] rs[i]).raw_data is Some
}

/// The rows one scan result contributes: its data, filtered by its mask
/// if one is present.
pub open spec fn result_rows(r: ScanResult) -> Seq<Seq<ValV>>
    recommends
        r.raw_data is Some,
{
    let bv = batch_v(r.raw_data->0);
    match r.mask {
        Option::Some(m) => masked_rows(bv.rows, m@),
        Option::None => bv.rows,
    }
}

/// All rows the scan produced, in encounter order.
pub open spec fn scan_rows(rs: Seq<ScanResult>) -> Seq<Seq<ValV>>
    decreases rs.len(),
{
    if rs.len() == 0 {
        Seq::empty()
    } else {
        scan_rows(rs.drop_last()) + result_rows(rs.last())
    }
}

/// Every batch of the scan has the schema of the first one.
pub open spec fn schemas_uniform(rs: Seq<ScanResult>) -> bool
    recommends
        all_data_present(rs),
{
    forall|i: int|
        0 <= i < rs.len() ==> schemas_match(
            batch_v((#[trigger] rs[i]).raw_data->0).schema,
            batch_v(rs[0].raw_data->0).schema,
            SchemaPolicy::Strict,
        )
}

/// A scan result is valid when its data is well-formed and its mask, if
/// present, has one entry per row.
pub open spec fn result_wf(r: ScanResult) -> bool {
    r.raw_data is Some ==> {
        &&& batch_v(r.raw_data->0).wf()
        &&& (r.mask is Some ==> r.mask->0@.len() == batch_v(r.raw_data->0).rows.len())
    }
}

/// Drops every row whose mask entry is false; the surviving rows keep
/// their order.
pub fn apply_row_mask(batch: DataBatch, mask: &Vec<bool>) -> (r: DataBatch)
    requires
        mask@.len() == batch_v(batch).rows.len(),
    ensures
        batch_v(r).schema == batch_v(batch).schema,
        batch_v(r).rows == masked_rows(batch_v(batch).rows, mask@),
{
    let ghost bv = batch_v(batch);
    let n = batch.rows.len();
    let mut rows: Vec<Vec<Value>> = Vec::new();
    let mut i: usize = 0;
    while i < n
        invariant
            i <= n,
            n == batch.rows@.len(),
            bv == batch_v(batch),
            mask@.len() == n,
            rows_v(rows@) == masked_rows(bv.rows.take(i as int), mask@.take(i as int)),
        decreases n - i,
    {
        proof {
            assert(bv.rows.take(i + 1).drop_last() =~= bv.rows.take(i as int));
            assert(mask@.take(i + 1).drop_last() =~= mask@.take(i as int));
            assert(bv.rows.take(i + 1).last() == row_v(batch.rows@[i as int]));
        }
        if mask[i] {
            rows.push(clone_row(&batch.rows[i]));
            proof {
                assert(rows_v(rows@) =~= masked_rows(
                    bv.rows.take(i + 1),
                    mask@.take(i + 1),
                ));
            }
        } else {
            proof {
                assert(rows_v(rows@) =~= masked_rows(
                    bv.rows.take(i + 1),
                    mask@.take(i + 1),
                ));
            }
        }
        i = i + 1;
    }
    let r = DataBatch { schema: batch.schema, rows };
    proof {
        assert(bv.rows.take(n as int) =~= bv.rows);
        assert(mask@.take(n as int) =~= mask@);
    }
    r
}

/// Executes the assembly of a scan: drops masked rows, checks that every
/// batch shares the first batch's schema, and concatenates everything in
/// encounter order.
///
/// Fails with [`Error::MissingDataError`] if any result carries no data,
/// and with [`Error::SchemaMismatchError`] if a batch's schema differs
/// structurally from the first batch's.
pub fn execute_scan(results: &Vec<ScanResult>) -> (r: Result<DataBatch, Error>)
    requires
        results@.len() > 0,
        forall|i: int| 0 <= i < results@.len() ==> result_wf(#[trigger] results@[i]),
    ensures
        !all_data_present(results@) ==> (r matches Err(e) && e == Error::MissingDataError),
        all_data_present(results@) && !schemas_uniform(results@) ==> (r matches Err(e) && e
            == Error::SchemaMismatchError),
        all_data_present(results@) && schemas_uniform(results@) ==> (r matches Ok(b) && batch_v(
            b,
        ) == (BatchV {
            schema: batch_v(results@[0].raw_data->0).schema,
            rows: scan_rows(results@),
        }) && batch_v(b).wf()),
{
    let n = results.len();
    let mut i: usize = 0;
    while i < n
        invariant
            i <= n,
            n == results@.len(),
            forall|j: int| 0 <= j < i ==> (#[trigger] results@[j]).raw_data is Some,
        decreases n - i,
    {
        if results[i].raw_data.is_none() {
            return Err(Error::MissingDataError);
        }
        i = i + 1;
    }
    let first_schema = match &results[0].raw_data {
        Option::Some(b) => b.schema.clone(),
        Option::None => { return Err(Error::MissingDataError) },
    };
    let ghost fsv = batch_v(results@[0].raw_data->0).schema;
    assert(schema_v(first_schema) == fsv);
    let mut rows: Vec<Vec<Value>> = Vec::new();
    let mut i: usize = 0;
    while i < n
        invariant
            i <= n,
            n == results@.len(),
            forall|j: int| 0 <= j < n ==> (#[trigger] results@[j]).raw_data is Some,
            forall|j: int| 0 <= j < n ==> result_wf(#[trigger] results@[j]),
            schema_v(first_schema) == fsv,
            fsv == batch_v(results@[0].raw_data->0).schema,
            forall|j: int|
                0 <= j < i ==> schemas_match(
                    batch_v((#[trigger] results@[j]).raw_data->0).schema,
                    fsv,
                    SchemaPolicy::Strict,
                ),
            rows_v(rows@) == scan_rows(results@.take(i as int)),
            forall|j: int| 0 <= j < rows@.len() ==> (#[trigger] rows_v(rows@)[j]).len()
                == fsv.len(),
        decreases n - i,
    {
        proof {
            assert(results@.take(i + 1).drop_last() =~= results@.take(i as int));
            assert(results@.take(i + 1).last() == results@[i as int]);
        }
        let batch = match &results[i].raw_data {
            Option::Some(b) => b,
            Option::None => { return Err(Error::MissingDataError) },
        };
        if !schema_agrees(&batch.schema, &first_schema, SchemaPolicy::Strict) {
            return Err(Error::SchemaMismatchError);
        }
        let ghost bv = batch_v(results@[i as int].raw_data->0);
        let ghost rows_before = rows@;
        match &results[i].mask {
            Option::Some(mask) => {
                let m = batch.rows.len();
                let mut j: usize = 0;
                while j < m
                    invariant
                        j <= m,
                        i < n,
                        m == batch.rows@.len(),
                        mask@.len() == m,
                        bv == batch_v(results@[i as int].raw_data->0),
                        *batch == results@[i as int].raw_data->0,
                        results@[i as int].mask == Option::Some(*mask),
                        bv.wf(),
                        fsv.len() == bv.schema.len(),
                        rows_v(rows@) == rows_v(rows_before) + masked_rows(
                            bv.rows.take(j as int),
                            mask@.take(j as int),
                        ),
                        forall|k: int| 0 <= k < rows@.len() ==> (#[trigger] rows_v(rows@)[k]).len()
                            == fsv.len(),
                    decreases m - j,
                {
                    proof {
                        assert(bv.rows.take(j + 1).drop_last() =~= bv.rows.take(j as int));
                        assert(mask@.take(j + 1).drop_last() =~= mask@.take(j as int));
                        assert(bv.rows.take(j + 1).last() == row_v(batch.rows@[j as int]));
                        assert(bv.rows[j as int] == row_v(batch.rows@[j as int]));
                    }
                    let ghost rows_prev = rows@;
                    if mask[j] {
                        rows.push(clone_row(&batch.rows[j]));
                        proof {
                            assert(rows_v(rows@) =~= rows_v(rows_prev).push(
                                row_v(batch.rows@[j as int]),
                            ));
                            assert(rows_v(rows@)[rows@.len() - 1] == bv.rows[j as int]);
                            assert(bv.rows[j as int].len() == bv.schema.len());
                            assert(rows_v(rows@) =~= rows_v(rows_before) + masked_rows(
                                bv.rows.take(j + 1),
                                mask@.take(j + 1),
                            ));
                        }
                    } else {
                        proof {
                            assert(rows_v(rows@) =~= rows_v(rows_before) + masked_rows(
                                bv.rows.take(j + 1),
                                mask@.take(j + 1),
                            ));
                        }
                    }
                    j = j + 1;
                }
                proof {
                    assert(bv.rows.take(m as int) =~= bv.rows);
                    assert(mask@.take(m as int) =~= mask@);
                    assert(rows_v(rows@) =~= scan_rows(results@.take(i + 1)));
                }
            },
            Option::None => {
                let m = batch.rows.len();
                let mut j: usize = 0;
                while j < m
                    invariant
                        j <= m,
                        i < n,
                        m == batch.rows@.len(),
                        bv == batch_v(results@[i as int].raw_data->0),
                        *batch == results@[i as int].raw_data->0,
                        results@[i as int].mask is None,
                        bv.wf(),
                        fsv.len() == bv.schema.len(),
                        rows_v(rows@) == rows_v(rows_before) + bv.rows.take(j as int),
                        forall|k: int| 0 <= k < rows@.len() ==> (#[trigger] rows_v(rows@)[k]).len()
                            == fsv.len(),
                    decreases m - j,
                {
                    proof {
                        assert(bv.rows[j as int] == row_v(batch.rows@[j as int]));
                        assert(bv.rows.take(j + 1) =~= bv.rows.take(j as int).push(
                            bv.rows[j as int],
                        ));
                    }
                    let ghost rows_prev = rows@;
                    rows.push(clone_row(&batch.rows[j]));
                    proof {
                        assert(rows_v(rows@) =~= rows_v(rows_prev).push(
                            row_v(batch.rows@[j as int]),
                        ));
                        assert(rows_v(rows@)[rows@.len() - 1] == bv.rows[j as int]);
                        assert(bv.rows[j as int].len() == bv.schema.len());
                        assert(rows_v(rows@) =~= rows_v(rows_before) + bv.rows.take(j + 1));
                    }
                    j = j + 1;
                }
                proof {
                    assert(bv.rows.take(m as int) =~= bv.rows);
                    assert(rows_v(rows@) =~= scan_rows(results@.take(i + 1)));
                }
            },
        }
        i = i + 1;
    }
    proof {
        assert(results@.take(n as int) =~= results@);
    }
    let r = DataBatch { schema: first_schema, rows };
    proof {
        assert(batch_v(r) =~= (BatchV { schema: fsv, rows: scan_rows(results@) }));
    }
    Ok(r)
}

} // verus!
