//! Golden loader: reconstructing the reference dataset of a test case.
//!
//! The reference data of a test case lives in a directory of files, one or
//! more of which are in the columnar binary format; everything else is
//! ignored.  The selected files' batches are concatenated, in listing
//! order, under the schema of the first one.  Listing order is not
//! assumed sorted — comparability rests on later canonicalization, not on
//! load order.

use vstd::prelude::*;

use crate::batch::{batch_v, rows_v, BatchV, DataBatch};
use crate::schema::{schema_agrees, schema_v, schemas_match, SchemaPolicy};
use crate::text::str_ends_with;
use crate::value::{clone_row, row_v, ValV, Value};

verus! {

/// One object found under a test case's reference-data directory, with
/// the batches its content decodes to.
pub struct GoldenFile {
    /// Name of the object, as listed.
    pub name: String,
    /// The decoded contents of the object, in file order.
    pub batches: Vec<DataBatch>,
}

/// Whether an object holds reference data: its name ends in the columnar
/// binary format's extension.
pub open spec fn is_golden_data_file(name: Seq<char>) -> bool {
    ".parquet"@.is_suffix_of(name)
}

/// The mathematical values of a sequence of batches.
pub open spec fn batches_v(bs: Seq<DataBatch>) -> Seq<BatchV> {
    bs.map_values(|b: DataBatch| batch_v(b))
}

/// The batches of the reference files, in listing order; files of other
/// formats contribute nothing.
pub open spec fn golden_views(files: Seq<GoldenFile>) -> Seq<BatchV>
    decreases files.len(),
{
    if files.len() == 0 {
        Seq::empty()
    } else {
        golden_views(files.drop_last()) + (if is_golden_data_file(files.last().name@) {
            batches_v(files.last().batches@)
        } else {
            Seq::empty()
        })
    }
}

/// All rows of a sequence of batches, in order.
pub open spec fn concat_rows(bs: Seq<BatchV>) -> Seq<Seq<ValV>>
    decreases bs.len(),
{
    if bs.len() == 0 {
        Seq::empty()
    } else {
        concat_rows(bs.drop_last()) + bs.last().rows
    }
}

/// All batches share the schema of the first one.
pub open spec fn golden_uniform(sel: Seq<BatchV>) -> bool {
    forall|i: int|
        0 <= i < sel.len() ==> schemas_match(
            (#[trigger] sel[i]).schema,
            sel[0].schema,
            SchemaPolicy::Strict,
        )
}

/// Every batch of every file is well-formed.
pub open spec fn golden_files_wf(files: Seq<GoldenFile>) -> bool {
    forall|i: int, j: int|
        0 <= i < files.len() && 0 <= j < (#[trigger] files[i]).batches@.len() ==> batch_v(
            #[trigger] files[i].batches@[j],
        ).wf()
}

/// Reconstructs the reference dataset of a test case from the objects
/// under its reference-data directory: keeps the files whose name ends in
/// the columnar binary format's extension, and concatenates their batches
/// under the schema of the first one.
///
/// Returns `None` — distinct from an empty dataset — when no consistent
/// schema can be established: either no reference file matched at all, or
/// two decoded batches disagree on their schema.
pub fn read_golden(files: &Vec<GoldenFile>) -> (r: Option<DataBatch>)
    requires
        golden_files_wf(files@),
    ensures
        r is Some <==> (golden_views(files@).len() > 0 && golden_uniform(golden_views(files@))),
        r is Some ==> batch_v(r->0) == (BatchV {
            schema: golden_views(files@)[0].schema,
            rows: concat_rows(golden_views(files@)),
        }) && batch_v(r->0).wf(),
{
    let ghost gv = golden_views(files@);
    let n = files.len();
    let mut sel: Vec<DataBatch> = Vec::new();
    let mut i: usize = 0;
    while i < n
        invariant
            i <= n,
            n == files@.len(),
            golden_files_wf(files@),
            batches_v(sel@) == golden_views(files@.take(i as int)),
            forall|k: int| 0 <= k < sel@.len() ==> (#[trigger] batches_v(sel@)[k]).wf(),
        decreases n - i,
    {
        proof {
            assert(files@.take(i + 1).drop_last() =~= files@.take(i as int));
            assert(files@.take(i + 1).last() == files@[i as int]);
        }
        if str_ends_with(files[i].name.as_str(), ".parquet") {
            let m = files[i].batches.len();
            let mut j: usize = 0;
            while j < m
                invariant
                    j <= m,
                    i < n,
                    n == files@.len(),
                    m == files@[i as int].batches@.len(),
                    golden_files_wf(files@),
                    batches_v(sel@) == golden_views(files@.take(i as int)) + batches_v(
                        files@[i as int].batches@.take(j as int),
                    ),
                    forall|k: int| 0 <= k < sel@.len() ==> (#[trigger] batches_v(sel@)[k]).wf(),
                decreases m - j,
            {
                let ghost sel_prev = sel@;
                sel.push(files[i].batches[j].clone());
                proof {
                    assert(batches_v(sel@) =~= batches_v(sel_prev).push(
                        batch_v(files@[i as int].batches@[j as int]),
                    ));
                    assert(batches_v(files@[i as int].batches@.take(j + 1)) =~= batches_v(
                        files@[i as int].batches@.take(j as int),
                    ).push(batch_v(files@[i as int].batches@[j as int])));
                    assert(batches_v(sel@) =~= golden_views(files@.take(i as int)) + batches_v(
                        files@[i as int].batches@.take(j + 1),
                    ));
                }
                j = j + 1;
            }
            proof {
                assert(files@[i as int].batches@.take(m as int) =~= files@[i as int].batches@);
                assert(batches_v(sel@) =~= golden_views(files@.take(i + 1)));
            }
        } else {
            proof {
                assert(batches_v(sel@) =~= golden_views(files@.take(i + 1)));
            }
        }
        i = i + 1;
    }
    proof {
        assert(files@.take(n as int) =~= files@);
        assert(batches_v(sel@) == gv);
    }
    if sel.len() == 0 {
        return None;
    }
    let first_schema = sel[0].schema.clone();
    let ghost fsv = gv[0].schema;
    assert(schema_v(first_schema) == fsv);
    let k = sel.len();
    let mut rows: Vec<Vec<Value>> = Vec::new();
    let mut i: usize = 0;
    while i < k
        invariant
            i <= k,
            k == sel@.len(),
            k > 0,
            gv == golden_views(files@),
            batches_v(sel@) == gv,
            forall|j: int| 0 <= j < sel@.len() ==> (#[trigger] batches_v(sel@)[j]).wf(),
            schema_v(first_schema) == fsv,
            fsv == gv[0].schema,
            forall|j: int|
                0 <= j < i ==> schemas_match(
                    (#[trigger] gv[j]).schema,
                    fsv,
                    SchemaPolicy::Strict,
                ),
            rows_v(rows@) == concat_rows(gv.take(i as int)),
            forall|j: int| 0 <= j < rows@.len() ==> (#[trigger] rows_v(rows@)[j]).len()
                == fsv.len(),
        decreases k - i,
    {
        proof {
            assert(gv.take(i + 1).drop_last() =~= gv.take(i as int));
            assert(gv.take(i + 1).last() == gv[i as int]);
            assert(batches_v(sel@)[i as int] == batch_v(sel@[i as int]));
        }
        if !schema_agrees(&sel[i].schema, &first_schema, SchemaPolicy::Strict) {
            proof {
                assert(!golden_uniform(gv)) by {
                    if golden_uniform(gv) {
                        assert(schemas_match(gv[i as int].schema, gv[0].schema,
                            SchemaPolicy::Strict));
                    }
                }
            }
            return None;
        }
        let ghost bv = gv[i as int];
        let m = sel[i].rows.len();
        let mut j: usize = 0;
        while j < m
            invariant
                j <= m,
                i < k,
                k == sel@.len(),
                m == sel@[i as int].rows@.len(),
                batches_v(sel@) == gv,
                bv == gv[i as int],
                bv == batch_v(sel@[i as int]),
                bv.wf(),
                fsv.len() == bv.schema.len(),
                rows_v(rows@) == concat_rows(gv.take(i as int)) + bv.rows.take(j as int),
                forall|j0: int| 0 <= j0 < rows@.len() ==> (#[trigger] rows_v(rows@)[j0]).len()
                    == fsv.len(),
            decreases m - j,
        {
            proof {
                assert(bv.rows[j as int] == row_v(sel@[i as int].rows@[j as int]));
                assert(bv.rows.take(j + 1) =~= bv.rows.take(j as int).push(bv.rows[j as int]));
            }
            let ghost rows_prev = rows@;
            rows.push(clone_row(&sel[i].rows[j]));
            proof {
                assert(rows_v(rows@) =~= rows_v(rows_prev).push(
                    row_v(sel@[i as int].rows@[j as int]),
                ));
                assert(rows_v(rows@)[rows@.len() - 1] == bv.rows[j as int]);
                assert(bv.rows[j as int].len() == bv.schema.len());
                assert(rows_v(rows@) =~= concat_rows(gv.take(i as int)) + bv.rows.take(j + 1));
            }
            j = j + 1;
        }
        proof {
            assert(bv.rows.take(m as int) =~= bv.rows);
            assert(rows_v(rows@) =~= concat_rows(gv.take(i + 1)));
        }
        i = i + 1;
    }
    proof {
        assert(gv.take(k as int) =~= gv);
    }
    let r = DataBatch { schema: first_schema, rows };
    proof {
        assert(batch_v(r) =~= (BatchV { schema: fsv, rows: concat_rows(gv) }));
    }
    Some(r)
}

} // verus!
