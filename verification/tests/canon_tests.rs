use table_oracle::batch::DataBatch;
use table_oracle::canon::sort_record_batch;
use table_oracle::error::Error;
use table_oracle::schema::{DataType, Field, Schema};
use table_oracle::value::{val_eq, Value};

fn field(name: &str, data_type: DataType) -> Field {
    Field {
        name: name.to_string(),
        data_type,
        nullable: false,
        dict_id: None,
        dict_is_ordered: None,
        metadata: vec![],
    }
}

fn int_batch(name: &str, values: Vec<i64>) -> DataBatch {
    DataBatch {
        schema: Schema { fields: vec![field(name, DataType::Integer)] },
        rows: values.into_iter().map(|v| vec![Value::Int(v)]).collect(),
    }
}

fn rows_equal(a: &DataBatch, b: &DataBatch) -> bool {
    if a.rows.len() != b.rows.len() {
        return false;
    }
    for (ra, rb) in a.rows.iter().zip(b.rows.iter()) {
        if ra.len() != rb.len() {
            return false;
        }
        for (x, y) in ra.iter().zip(rb.iter()) {
            if !val_eq(x, y) {
                return false;
            }
        }
    }
    true
}

#[test]
fn sorts_single_integer_column() {
    let sorted = sort_record_batch(int_batch("x", vec![3, 1, 2])).unwrap();
    assert!(rows_equal(&sorted, &int_batch("x", vec![1, 2, 3])));
}

#[test]
fn sorting_is_idempotent_on_concrete_batch() {
    let once = sort_record_batch(int_batch("x", vec![5, 5, 0, -7, 5])).unwrap();
    let again = sort_record_batch(once).unwrap();
    assert!(rows_equal(&again, &int_batch("x", vec![-7, 0, 5, 5, 5])));
}

#[test]
fn row_permutation_gives_same_canonical_form() {
    let a = sort_record_batch(int_batch("x", vec![9, -1, 4, 4, 0])).unwrap();
    let b = sort_record_batch(int_batch("x", vec![4, 0, 9, 4, -1])).unwrap();
    assert!(rows_equal(&a, &b));
}

#[test]
fn nulls_sort_first() {
    let batch = DataBatch {
        schema: Schema { fields: vec![field("x", DataType::Integer)] },
        rows: vec![vec![Value::Int(1)], vec![Value::Null], vec![Value::Int(0)]],
    };
    let sorted = sort_record_batch(batch).unwrap();
    assert!(val_eq(&sorted.rows[0][0], &Value::Null));
    assert!(val_eq(&sorted.rows[1][0], &Value::Int(0)));
    assert!(val_eq(&sorted.rows[2][0], &Value::Int(1)));
}

#[test]
fn text_sorts_lexicographically() {
    let batch = DataBatch {
        schema: Schema { fields: vec![field("name", DataType::Text)] },
        rows: vec![
            vec![Value::Str("pear".to_string())],
            vec![Value::Str("apple".to_string())],
            vec![Value::Str("apricot".to_string())],
        ],
    };
    let sorted = sort_record_batch(batch).unwrap();
    assert!(val_eq(&sorted.rows[0][0], &Value::Str("apple".to_string())));
    assert!(val_eq(&sorted.rows[1][0], &Value::Str("apricot".to_string())));
    assert!(val_eq(&sorted.rows[2][0], &Value::Str("pear".to_string())));
}

#[test]
fn composite_column_is_excluded_from_key_but_carried() {
    // Key column "k" decides the order; the list column rides along.
    let batch = DataBatch {
        schema: Schema {
            fields: vec![field("k", DataType::Integer), field("tags", DataType::List)],
        },
        rows: vec![
            vec![Value::Int(2), Value::Composite(vec![Value::Int(20)])],
            vec![Value::Int(1), Value::Composite(vec![Value::Int(10)])],
        ],
    };
    let sorted = sort_record_batch(batch).unwrap();
    assert!(val_eq(&sorted.rows[0][0], &Value::Int(1)));
    assert!(val_eq(&sorted.rows[0][1], &Value::Composite(vec![Value::Int(10)])));
    assert!(val_eq(&sorted.rows[1][0], &Value::Int(2)));
    assert!(val_eq(&sorted.rows[1][1], &Value::Composite(vec![Value::Int(20)])));
}

#[test]
fn ties_keep_original_relative_order() {
    // Both rows have the same key; the excluded record column shows that
    // their original order is kept.
    let batch = DataBatch {
        schema: Schema {
            fields: vec![field("k", DataType::Integer), field("payload", DataType::Record)],
        },
        rows: vec![
            vec![Value::Int(7), Value::Composite(vec![Value::Bool(true)])],
            vec![Value::Int(7), Value::Composite(vec![Value::Bool(false)])],
        ],
    };
    let sorted = sort_record_batch(batch).unwrap();
    assert!(val_eq(&sorted.rows[0][1], &Value::Composite(vec![Value::Bool(true)])));
    assert!(val_eq(&sorted.rows[1][1], &Value::Composite(vec![Value::Bool(false)])));
}

#[test]
fn orderable_column_with_composite_cell_is_a_sort_error() {
    let batch = DataBatch {
        schema: Schema { fields: vec![field("x", DataType::Integer)] },
        rows: vec![vec![Value::Composite(vec![])]],
    };
    assert!(matches!(sort_record_batch(batch), Err(Error::SortError)));
}

#[test]
fn key_compares_column_by_column_in_schema_order() {
    let batch = DataBatch {
        schema: Schema {
            fields: vec![field("a", DataType::Integer), field("b", DataType::Integer)],
        },
        rows: vec![
            vec![Value::Int(2), Value::Int(0)],
            vec![Value::Int(1), Value::Int(9)],
            vec![Value::Int(1), Value::Int(3)],
        ],
    };
    let sorted = sort_record_batch(batch).unwrap();
    assert!(val_eq(&sorted.rows[0][0], &Value::Int(1)));
    assert!(val_eq(&sorted.rows[0][1], &Value::Int(3)));
    assert!(val_eq(&sorted.rows[1][0], &Value::Int(1)));
    assert!(val_eq(&sorted.rows[1][1], &Value::Int(9)));
    assert!(val_eq(&sorted.rows[2][0], &Value::Int(2)));
}

#[test]
fn false_sorts_before_true() {
    let batch = DataBatch {
        schema: Schema { fields: vec![field("flag", DataType::Boolean)] },
        rows: vec![vec![Value::Bool(true)], vec![Value::Bool(false)]],
    };
    let sorted = sort_record_batch(batch).unwrap();
    assert!(val_eq(&sorted.rows[0][0], &Value::Bool(false)));
    assert!(val_eq(&sorted.rows[1][0], &Value::Bool(true)));
}

#[test]
fn empty_batch_sorts_to_itself() {
    let sorted = sort_record_batch(int_batch("x", vec![])).unwrap();
    assert_eq!(sorted.rows.len(), 0);
    assert_eq!(sorted.schema.fields.len(), 1);
}
