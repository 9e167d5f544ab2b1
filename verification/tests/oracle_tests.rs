use table_oracle::batch::DataBatch;
use table_oracle::error::Error;
use table_oracle::golden::{read_golden, GoldenFile};
use table_oracle::oracle::{assert_scan_data, compare_batches, is_skipped};
use table_oracle::scan::{execute_scan, ScanResult};
use table_oracle::schema::{DataType, Field, Schema};
use table_oracle::value::{val_eq, Value};

fn field(name: &str, data_type: DataType) -> Field {
    Field {
        name: name.to_string(),
        data_type,
        nullable: false,
        dict_id: None,
        dict_is_ordered: None,
        metadata: vec![],
    }
}

fn nullable_field(name: &str, data_type: DataType) -> Field {
    Field {
        name: name.to_string(),
        data_type,
        nullable: true,
        dict_id: None,
        dict_is_ordered: None,
        metadata: vec![],
    }
}

fn int_batch(name: &str, values: Vec<i64>) -> DataBatch {
    DataBatch {
        schema: Schema { fields: vec![field(name, DataType::Integer)] },
        rows: values.into_iter().map(|v| vec![Value::Int(v)]).collect(),
    }
}

fn golden_file(name: &str, batches: Vec<DataBatch>) -> GoldenFile {
    GoldenFile { name: name.to_string(), batches }
}

fn plain_result(batch: DataBatch) -> ScanResult {
    ScanResult { raw_data: Some(batch), mask: None }
}

#[test]
fn oracle_succeeds_on_reordered_single_column_batches() {
    // Actual rows [[3], [1], [2]] against golden [[1], [2], [3]]: both
    // canonicalize to [[1], [2], [3]].
    let skips: Vec<String> = vec![];
    let results = vec![plain_result(int_batch("x", vec![3, 1, 2]))];
    let files = vec![golden_file("part-0.parquet", vec![int_batch("x", vec![1, 2, 3])])];
    let r = assert_scan_data(&skips, &"/cases/simple".to_string(), &results, &files);
    assert_eq!(r, Ok(()));
}

#[test]
fn nullability_difference_is_ignored_by_the_schema_check() {
    let actual = DataBatch {
        schema: Schema { fields: vec![nullable_field("x", DataType::Integer)] },
        rows: vec![vec![Value::Int(1)]],
    };
    let golden = DataBatch {
        schema: Schema { fields: vec![field("x", DataType::Integer)] },
        rows: vec![vec![Value::Int(1)]],
    };
    assert_eq!(compare_batches(&actual, &golden), Ok(()));
}

#[test]
fn metadata_difference_is_ignored_by_the_schema_check() {
    let mut noisy = field("x", DataType::Integer);
    noisy.metadata = vec![("source".to_string(), "reference".to_string())];
    let actual = DataBatch {
        schema: Schema { fields: vec![field("x", DataType::Integer)] },
        rows: vec![vec![Value::Int(4)]],
    };
    let golden = DataBatch { schema: Schema { fields: vec![noisy] }, rows: vec![vec![Value::Int(4)]] };
    assert_eq!(compare_batches(&actual, &golden), Ok(()));
}

#[test]
fn differing_field_name_is_a_schema_field_mismatch() {
    let actual = DataBatch {
        schema: Schema { fields: vec![field("x", DataType::Integer)] },
        rows: vec![vec![Value::Int(1)]],
    };
    let golden = DataBatch {
        schema: Schema { fields: vec![field("y", DataType::Integer)] },
        rows: vec![vec![Value::Int(1)]],
    };
    assert_eq!(compare_batches(&actual, &golden), Err(Error::SchemaFieldMismatchError { field: 0 }));
}

#[test]
fn differing_cell_is_a_data_mismatch_naming_the_column() {
    let actual = DataBatch {
        schema: Schema {
            fields: vec![field("a", DataType::Integer), field("b", DataType::Integer)],
        },
        rows: vec![vec![Value::Int(1), Value::Int(2)]],
    };
    let golden = DataBatch {
        schema: Schema {
            fields: vec![field("a", DataType::Integer), field("b", DataType::Integer)],
        },
        rows: vec![vec![Value::Int(1), Value::Int(9)]],
    };
    assert_eq!(compare_batches(&actual, &golden), Err(Error::DataMismatchError { column: 1 }));
}

#[test]
fn row_count_mismatch_is_reported_before_data() {
    // Ten actual rows against nine golden rows: even though all nine
    // golden rows are present in actual, the verdict is the row count.
    let actual = int_batch("x", (0..10).collect());
    let golden = int_batch("x", (0..9).collect());
    let skips: Vec<String> = vec![];
    let results = vec![plain_result(actual)];
    let files = vec![golden_file("part-0.parquet", vec![golden])];
    let r = assert_scan_data(&skips, &"/cases/counts".to_string(), &results, &files);
    assert_eq!(r, Err(Error::RowCountMismatchError { actual: 10, golden: 9 }));
}

#[test]
fn zero_matching_golden_files_fail_with_missing_golden_data() {
    let skips: Vec<String> = vec![];
    let results = vec![plain_result(int_batch("x", vec![1]))];
    let files = vec![
        golden_file("_committed_123", vec![]),
        golden_file("notes.txt", vec![int_batch("x", vec![1])]),
    ];
    assert!(read_golden(&files).is_none());
    let r = assert_scan_data(&skips, &"/cases/empty".to_string(), &results, &files);
    assert_eq!(r, Err(Error::MissingGoldenDataError));
}

#[test]
fn skip_listed_case_succeeds_without_engine_or_golden_data() {
    // The skip decision comes first: no scan results and no golden data
    // are ever needed.
    let skips = vec!["iceberg_compat_v1".to_string(), "multi_partitioned_2".to_string()];
    let results: Vec<ScanResult> = vec![];
    let files: Vec<GoldenFile> = vec![];
    let r = assert_scan_data(&skips, &"/cases/multi_partitioned_2".to_string(), &results, &files);
    assert_eq!(r, Ok(()));
}

#[test]
fn suffix_matching_decides_the_skip() {
    let skips = vec!["iceberg_compat_v1".to_string()];
    assert!(is_skipped(&"/t/iceberg_compat_v1".to_string(), &skips));
    assert!(!is_skipped(&"/t/iceberg_compat_v1/extra".to_string(), &skips));
    assert!(!is_skipped(&"/t/other_case".to_string(), &skips));
}

#[test]
fn golden_batches_concatenate_across_files() {
    let files = vec![
        golden_file("part-0.parquet", vec![int_batch("x", vec![2])]),
        golden_file("_schema.json", vec![]),
        golden_file("part-1.parquet", vec![int_batch("x", vec![1]), int_batch("x", vec![3])]),
    ];
    let golden = read_golden(&files).unwrap();
    assert_eq!(golden.rows.len(), 3);
    assert!(val_eq(&golden.rows[0][0], &Value::Int(2)));
    assert!(val_eq(&golden.rows[1][0], &Value::Int(1)));
    assert!(val_eq(&golden.rows[2][0], &Value::Int(3)));
}

#[test]
fn inconsistent_golden_schemas_give_none() {
    let files = vec![
        golden_file("part-0.parquet", vec![int_batch("x", vec![1])]),
        golden_file("part-1.parquet", vec![int_batch("y", vec![2])]),
    ];
    assert!(read_golden(&files).is_none());
}

#[test]
fn execute_scan_applies_row_masks() {
    let result = ScanResult {
        raw_data: Some(int_batch("x", vec![10, 20, 30])),
        mask: Some(vec![true, false, true]),
    };
    let assembled = execute_scan(&vec![result]).unwrap();
    assert_eq!(assembled.rows.len(), 2);
    assert!(val_eq(&assembled.rows[0][0], &Value::Int(10)));
    assert!(val_eq(&assembled.rows[1][0], &Value::Int(30)));
}

#[test]
fn execute_scan_concatenates_in_encounter_order() {
    let results = vec![
        plain_result(int_batch("x", vec![5])),
        plain_result(int_batch("x", vec![4])),
    ];
    let assembled = execute_scan(&results).unwrap();
    assert_eq!(assembled.rows.len(), 2);
    assert!(val_eq(&assembled.rows[0][0], &Value::Int(5)));
    assert!(val_eq(&assembled.rows[1][0], &Value::Int(4)));
}

#[test]
fn missing_payload_is_a_missing_data_error() {
    let results = vec![ScanResult { raw_data: None, mask: None }];
    assert!(matches!(execute_scan(&results), Err(Error::MissingDataError)));
}

#[test]
fn differing_scan_schemas_are_a_schema_mismatch() {
    let results = vec![
        plain_result(int_batch("x", vec![1])),
        plain_result(int_batch("y", vec![2])),
    ];
    assert!(matches!(execute_scan(&results), Err(Error::SchemaMismatchError)));
}

#[test]
fn differing_declared_types_on_empty_batches_are_a_schema_field_mismatch() {
    // With no rows the data check has nothing to compare; the declared
    // type difference is caught by the schema field check.
    let actual = DataBatch {
        schema: Schema { fields: vec![field("x", DataType::Integer)] },
        rows: vec![],
    };
    let golden = DataBatch {
        schema: Schema { fields: vec![field("x", DataType::Text)] },
        rows: vec![],
    };
    assert_eq!(compare_batches(&actual, &golden), Err(Error::SchemaFieldMismatchError { field: 0 }));
}

#[test]
fn differing_column_counts_are_a_data_mismatch() {
    let actual = DataBatch {
        schema: Schema {
            fields: vec![field("a", DataType::Integer), field("b", DataType::Integer)],
        },
        rows: vec![vec![Value::Int(1), Value::Int(2)]],
    };
    let golden = DataBatch {
        schema: Schema { fields: vec![field("a", DataType::Integer)] },
        rows: vec![vec![Value::Int(1)]],
    };
    assert_eq!(compare_batches(&actual, &golden), Err(Error::DataMismatchError { column: 1 }));
}

#[test]
fn evaluation_error_carries_no_payload_and_compares_by_kind() {
    assert_ne!(Error::EvaluationError, Error::UnsupportedExpressionError);
    assert_eq!(Error::SortError, Error::SortError);
}
