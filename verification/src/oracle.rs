//! Conformance oracle: deciding whether a host implementation, exercised
//! through a real scan, reproduces the golden dataset of one test case.
//!
//! A test case whose root directory matches a configured skip identifier
//! reports success immediately, without looking at anything: those are
//! documented, pre-existing divergences, not failures.  Otherwise the
//! assembled scan output and the golden dataset are canonicalized and
//! compared: row count first, then column data, then schema fields — the
//! first violated check is reported as a distinct, nameable failure.
//!
//! The schema comparison deliberately ignores nullability and metadata
//! ([`SchemaPolicy::Relaxed`]): reference encodings routinely mark fields
//! nullable that the protocol's declared schema does not.

use vstd::prelude::*;

use crate::batch::{batch_v, BatchV, DataBatch};
use crate::canon::{canonical, keys_comparable, sort_record_batch};
use crate::error::Error;
use crate::golden::{concat_rows, golden_files_wf, golden_uniform, golden_views, read_golden,
    GoldenFile};
use crate::scan::{all_data_present, execute_scan, result_wf, scan_rows, schemas_uniform,
    ScanResult};
use crate::schema::{field_agrees, field_matches, schema_v, FieldV, Schema, SchemaPolicy};
use crate::text::str_ends_with;
use crate::value::{row_v, val_eq, val_v};

verus! {

/// Views of a list of identifiers.
pub open spec fn strings_v(ss: Seq<String>) -> Seq<Seq<char>> {
    ss.map_values(|s: String| s@)
}

/// Whether a test case root matches the skip configuration: some
/// configured identifier is a suffix of the root directory.
pub open spec fn skip_matches(root: Seq<char>, skips: Seq<Seq<char>>) -> bool {
    exists|i: int| 0 <= i < skips.len() && (#[trigger] skips[i]).is_suffix_of(root)
}

/// Whether the test case root ends with one of the configured skip
/// identifiers.
pub fn is_skipped(root_dir: &String, skips: &Vec<String>) -> (r: bool)
    ensures
        r == skip_matches(root_dir@, strings_v(skips@)),
{
    let n = skips.len();
    let mut i: usize = 0;
    while i < n
        invariant
            i <= n,
            n == skips@.len(),
            forall|j: int|
                0 <= j < i ==> !(#[trigger] strings_v(skips@)[j]).is_suffix_of(root_dir@),
        decreases n - i,
    {
        proof {
            assert(strings_v(skips@)[i as int] == skips@[i as int]@);
        }
        if str_ends_with(root_dir.as_str(), skips[i].as_str()) {
            proof {
                assert(strings_v(skips@)[i as int].is_suffix_of(root_dir@));
            }
            return true;
        }
        i = i + 1;
    }
    proof {
        if skip_matches(root_dir@, strings_v(skips@)) {
            let j = choose|j: int|
                0 <= j < strings_v(skips@).len() && (#[trigger] strings_v(
                    skips@,
                )[j]).is_suffix_of(root_dir@);
            assert(!strings_v(skips@)[j].is_suffix_of(root_dir@));
        }
    }
    false
}

/// The two batches agree in column `j`, cell for cell.
pub open spec fn column_equal(a: BatchV, b: BatchV, j: int) -> bool {
    forall|i: int| 0 <= i < a.rows.len() ==> (#[trigger] a.rows[i])[j] == b.rows[i][j]
}

/// Number of columns both batches declare.
pub open spec fn data_cols(a: BatchV, b: BatchV) -> int {
    if a.schema.len() <= b.schema.len() {
        a.schema.len() as int
    } else {
        b.schema.len() as int
    }
}

/// First column, from `j` on, in which the two batches differ; the shared
/// column count if none does.
pub open spec fn first_diff_col(a: BatchV, b: BatchV, j: int) -> int
    decreases data_cols(a, b) - j,
    when 0 <= j <= data_cols(a, b)
{
    if j >= data_cols(a, b) {
        j
    } else if !column_equal(a, b, j) {
        j
    } else {
        first_diff_col(a, b, j + 1)
    }
}

/// Number of fields both schemas declare.
pub open spec fn fields_min(a: Seq<FieldV>, b: Seq<FieldV>) -> int {
    if a.len() <= b.len() {
        a.len() as int
    } else {
        b.len() as int
    }
}

/// First field, from `j` on, on which the two schemas disagree under the
/// relaxed policy; the shared field count if none does.
pub open spec fn first_bad_field(a: Seq<FieldV>, b: Seq<FieldV>, j: int) -> int
    decreases fields_min(a, b) - j,
    when 0 <= j <= fields_min(a, b)
{
    if j >= fields_min(a, b) {
        j
    } else if !field_matches(a[j], b[j], SchemaPolicy::Relaxed) {
        j
    } else {
        first_bad_field(a, b, j + 1)
    }
}

/// The verdict of the field-level schema check: the first field, over the
/// shared prefix, on which the two schemas disagree under the relaxed
/// policy; nullability and metadata are not compared.
pub open spec fn schema_fields_verdict(a: Seq<FieldV>, b: Seq<FieldV>) -> Result<(), Error> {
    if first_bad_field(a, b, 0) < fields_min(a, b) {
        Err(Error::SchemaFieldMismatchError { field: first_bad_field(a, b, 0) as usize })
    } else {
        Ok(())
    }
}

/// The verdict of comparing an actual against a golden batch, both in
/// canonical order: row count first, then column data, then schema
/// fields; nullability and metadata are not compared.
pub open spec fn compare_verdict(a: BatchV, b: BatchV) -> Result<(), Error> {
    if a.rows.len() != b.rows.len() {
        Err(
            Error::RowCountMismatchError {
                actual: a.rows.len() as usize,
                golden: b.rows.len() as usize,
            },
        )
    } else if a.schema.len() != b.schema.len() {
        Err(Error::DataMismatchError { column: data_cols(a, b) as usize })
    } else if first_diff_col(a, b, 0) < data_cols(a, b) {
        Err(Error::DataMismatchError { column: first_diff_col(a, b, 0) as usize })
    } else {
        schema_fields_verdict(a.schema, b.schema)
    }
}

proof fn lemma_first_diff_skip(a: BatchV, b: BatchV, lo: int)
    requires
        0 <= lo <= data_cols(a, b),
        forall|j: int| 0 <= j < lo ==> column_equal(a, b, j),
    ensures
        first_diff_col(a, b, 0) == first_diff_col(a, b, lo),
    decreases lo,
{
    if lo > 0 {
        lemma_first_diff_skip(a, b, lo - 1);
    }
}

proof fn lemma_first_field_skip(a: Seq<FieldV>, b: Seq<FieldV>, lo: int)
    requires
        0 <= lo <= fields_min(a, b),
        forall|j: int| 0 <= j < lo ==> field_matches(a[j], b[j], SchemaPolicy::Relaxed),
    ensures
        first_bad_field(a, b, 0) == first_bad_field(a, b, lo),
    decreases lo,
{
    if lo > 0 {
        lemma_first_field_skip(a, b, lo - 1);
    }
}

/// Checks that two schemas carry the same field names, declared types
/// and dictionary identity/ordering, pairwise over their shared prefix.
/// Ignored on purpose: nullability — reference encodings mark many
/// fields nullable that the declared schema does not — and metadata,
/// which diverges between real and golden data.
pub fn assert_schema_fields_match(schema: &Schema, golden: &Schema) -> (r: Result<(), Error>)
    ensures
        r == schema_fields_verdict(schema_v(*schema), schema_v(*golden)),
{
    let ghost av = schema_v(*schema);
    let ghost gv = schema_v(*golden);
    let a_len = schema.fields.len();
    let g_len = golden.fields.len();
    let n = if a_len <= g_len {
        a_len
    } else {
        g_len
    };
    let mut j: usize = 0;
    while j < n
        invariant
            j <= n,
            av == schema_v(*schema),
            gv == schema_v(*golden),
            a_len == av.len(),
            g_len == gv.len(),
            n == fields_min(av, gv),
            forall|j0: int|
                0 <= j0 < j ==> field_matches(
                    #[trigger] av[j0],
                    gv[j0],
                    SchemaPolicy::Relaxed,
                ),
        decreases n - j,
    {
        proof {
            assert(av[j as int] == crate::schema::field_v(schema.fields@[j as int]));
            assert(gv[j as int] == crate::schema::field_v(golden.fields@[j as int]));
        }
        if !field_agrees(&schema.fields[j], &golden.fields[j], SchemaPolicy::Relaxed) {
            proof {
                lemma_first_field_skip(av, gv, j as int);
            }
            return Err(Error::SchemaFieldMismatchError { field: j });
        }
        j = j + 1;
    }
    proof {
        lemma_first_field_skip(av, gv, fields_min(av, gv));
    }
    Ok(())
}

/// Compares two canonicalized batches and reports the first violated
/// check: row count, column data, then schema fields (nullability and
/// metadata excluded).
pub fn compare_batches(actual: &DataBatch, golden: &DataBatch) -> (r: Result<(), Error>)
    requires
        batch_v(*actual).wf(),
        batch_v(*golden).wf(),
    ensures
        r == compare_verdict(batch_v(*actual), batch_v(*golden)),
{
    let ghost av = batch_v(*actual);
    let ghost gv = batch_v(*golden);
    let a_rows = actual.num_rows();
    let g_rows = golden.num_rows();
    if a_rows != g_rows {
        return Err(Error::RowCountMismatchError { actual: a_rows, golden: g_rows });
    }
    let a_cols = actual.num_columns();
    let g_cols = golden.num_columns();
    if a_cols != g_cols {
        let m = if a_cols <= g_cols {
            a_cols
        } else {
            g_cols
        };
        return Err(Error::DataMismatchError { column: m });
    }
    let mut j: usize = 0;
    while j < a_cols
        invariant
            j <= a_cols,
            av == batch_v(*actual),
            gv == batch_v(*golden),
            av.wf(),
            gv.wf(),
            a_rows == av.rows.len(),
            a_rows == gv.rows.len(),
            a_cols == av.schema.len(),
            a_cols == gv.schema.len(),
            forall|j0: int| 0 <= j0 < j ==> column_equal(av, gv, j0),
        decreases a_cols - j,
    {
        let mut i: usize = 0;
        while i < a_rows
            invariant
                i <= a_rows,
                j < a_cols,
                av == batch_v(*actual),
                gv == batch_v(*golden),
                av.wf(),
                gv.wf(),
                a_rows == av.rows.len(),
                a_rows == gv.rows.len(),
                a_cols == av.schema.len(),
                a_cols == gv.schema.len(),
                forall|j0: int| 0 <= j0 < j ==> column_equal(av, gv, j0),
                forall|i0: int| 0 <= i0 < i ==> (#[trigger] av.rows[i0])[j as int]
                    == gv.rows[i0][j as int],
            decreases a_rows - i,
        {
            proof {
                assert(av.rows[i as int] == row_v(actual.rows@[i as int]));
                assert(gv.rows[i as int] == row_v(golden.rows@[i as int]));
                assert(av.rows[i as int][j as int] == val_v(actual.rows@[i as int]@[j as int]));
                assert(gv.rows[i as int][j as int] == val_v(golden.rows@[i as int]@[j as int]));
            }
            if !val_eq(&actual.rows[i][j], &golden.rows[i][j]) {
                proof {
                    assert(!column_equal(av, gv, j as int)) by {
                        if column_equal(av, gv, j as int) {
                            assert(av.rows[i as int][j as int] == gv.rows[i as int][j as int]);
                        }
                    }
                    lemma_first_diff_skip(av, gv, j as int);
                }
                return Err(Error::DataMismatchError { column: j });
            }
            i = i + 1;
        }
        proof {
            assert(column_equal(av, gv, j as int));
        }
        j = j + 1;
    }
    proof {
        lemma_first_diff_skip(av, gv, data_cols(av, gv));
    }
    assert_schema_fields_match(&actual.schema, &golden.schema)
}

/// Oracle equivalence is symmetric on canonical form: when the actual and
/// the golden dataset hold the same multiset of rows, and their schemas
/// agree on everything but nullability and metadata, the comparison of
/// their canonical forms succeeds — whatever the original row orders
/// were.  Rows that agree on the whole sort key must be equal, since ties
/// keep their original, arbitrary order.
pub proof fn lemma_compare_canonical_success(a: BatchV, g: BatchV)
    requires
        a.schema.len() == g.schema.len(),
        forall|j: int|
            0 <= j < a.schema.len() ==> field_matches(
                #[trigger] a.schema[j],
                g.schema[j],
                SchemaPolicy::Relaxed,
            ),
        a.rows.to_multiset() == g.rows.to_multiset(),
        crate::canon::key_determined_rows(a.rows, a.schema),
    ensures
        compare_verdict(canonical(a), canonical(g)) == Ok::<(), Error>(()),
{
    broadcast use vstd::seq_lib::group_to_multiset_ensures;

    crate::canon::lemma_canonical_multiset(a);
    crate::canon::lemma_canonical_multiset(g);
    crate::canon::lemma_canonical_sorted(a);
    crate::canon::lemma_canonical_sorted(g);
    let ca = crate::canon::canonical_rows(a);
    let cg = crate::canon::canonical_rows(g);
    assert(a.rows.to_multiset().len() == a.rows.len());
    assert(g.rows.to_multiset().len() == g.rows.len());
    assert(crate::canon::key_sorted(cg, a.schema)) by {
        assert forall|k1: int, k2: int| 0 <= k1 <= k2 < cg.len() implies #[trigger] crate::canon::key_cmp(
            cg[k1],
            cg[k2],
            a.schema,
        ) <= 0 by {
            assert forall|k: int| 0 <= k < a.schema.len() implies (#[trigger] a.schema[k]).data_type
                == g.schema[k].data_type by {
                assert(field_matches(a.schema[k], g.schema[k], SchemaPolicy::Relaxed));
            }
            assert(crate::canon::key_cmp(cg[k1], cg[k2], g.schema) <= 0);
            crate::canon::lemma_key_cmp_types_only(cg[k1], cg[k2], a.schema, g.schema, 0);
        }
    }
    assert(crate::canon::key_determined_rows(ca, a.schema)) by {
        assert forall|r1: Seq<crate::value::ValV>, r2: Seq<crate::value::ValV>|
            #[trigger] ca.contains(r1) && #[trigger] ca.contains(r2) && crate::canon::key_cmp(
                r1,
                r2,
                a.schema,
            ) == 0 implies r1 == r2 by {
            assert(ca.to_multiset().count(r1) > 0);
            assert(ca.to_multiset().count(r2) > 0);
            assert(a.rows.contains(r1));
            assert(a.rows.contains(r2));
        }
    }
    crate::canon::lemma_key_sorted_unique(ca, cg, a.schema);
    assert(ca == cg);
    let x = canonical(a);
    let y = canonical(g);
    assert(x.rows.len() == y.rows.len());
    assert forall|j0: int| 0 <= j0 < data_cols(x, y) implies column_equal(x, y, j0) by {
        assert forall|i: int| 0 <= i < x.rows.len() implies (#[trigger] x.rows[i])[j0]
            == y.rows[i][j0] by {
            assert(x.rows[i] == y.rows[i]);
        }
    }
    lemma_first_diff_skip(x, y, data_cols(x, y));
    lemma_first_field_skip(x.schema, y.schema, fields_min(x.schema, y.schema));
}

/// The verdict of the conformance oracle for one test case, from what the
/// engine produced and what the reference directory holds.
pub open spec fn oracle_verdict(
    root: Seq<char>,
    skips: Seq<Seq<char>>,
    rs: Seq<ScanResult>,
    files: Seq<GoldenFile>,
) -> Result<(), Error> {
    if skip_matches(root, skips) {
        Ok(())
    } else if !all_data_present(rs) {
        Err(Error::MissingDataError)
    } else if !schemas_uniform(rs) {
        Err(Error::SchemaMismatchError)
    } else {
        let a = BatchV { schema: batch_v(rs[0].raw_data->0).schema, rows: scan_rows(rs) };
        if !keys_comparable(a) {
            Err(Error::SortError)
        } else {
            let sel = golden_views(files);
            if !(sel.len() > 0 && golden_uniform(sel)) {
                Err(Error::MissingGoldenDataError)
            } else {
                let g = BatchV { schema: sel[0].schema, rows: concat_rows(sel) };
                if !keys_comparable(g) {
                    Err(Error::SortError)
                } else {
                    compare_verdict(canonical(a), canonical(g))
                }
            }
        }
    }
}

/// Decides whether the host reproduced the golden dataset of one test
/// case.
///
/// A skip-listed test case reports success without looking at the scan
/// results or the reference files.  Otherwise the scan results are
/// assembled, both datasets are canonicalized, and the first violated
/// check is reported.
pub fn assert_scan_data(
    skips: &Vec<String>,
    root_dir: &String,
    results: &Vec<ScanResult>,
    golden_files: &Vec<GoldenFile>,
) -> (r: Result<(), Error>)
    requires
        skip_matches(root_dir@, strings_v(skips@)) || results@.len() > 0,
        forall|i: int| 0 <= i < results@.len() ==> result_wf(#[trigger] results@[i]),
        golden_files_wf(golden_files@),
    ensures
        r == oracle_verdict(root_dir@, strings_v(skips@), results@, golden_files@),
        skip_matches(root_dir@, strings_v(skips@)) ==> r == Ok::<(), Error>(()),
{
    if is_skipped(root_dir, skips) {
        return Ok(());
    }
    let assembled = match execute_scan(results) {
        Ok(b) => b,
        Err(e) => { return Err(e) },
    };
    let ghost abv = batch_v(assembled);
    let actual = match sort_record_batch(assembled) {
        Ok(b) => b,
        Err(e) => { return Err(e) },
    };
    proof {
        crate::canon::lemma_canonical_wf(abv);
    }
    let golden = match read_golden(golden_files) {
        Some(g) => g,
        None => { return Err(Error::MissingGoldenDataError) },
    };
    let ghost gbv = batch_v(golden);
    let golden_sorted = match sort_record_batch(golden) {
        Ok(b) => b,
        Err(e) => { return Err(e) },
    };
    proof {
        crate::canon::lemma_canonical_wf(gbv);
    }
    compare_batches(&actual, &golden_sorted)
}

} // verus!
