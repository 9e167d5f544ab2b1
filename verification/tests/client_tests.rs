use table_oracle::batch::DataBatch;
use table_oracle::client::{Expression, ExpressionEvaluator, FileHandler, FileMeta, FileSlice,
    FileSystemClient};
use table_oracle::error::Error;
use table_oracle::schema::{schema_agrees, DataType, Field, Schema, SchemaPolicy};
use table_oracle::value::Value;

fn meta(location: &str) -> FileMeta {
    FileMeta { location: location.to_string(), last_modified: 0, size: 16 }
}

/// A host file system over an in-memory listing, kept sorted by location.
struct MemFileSystem {
    files: Vec<FileMeta>,
}

impl FileSystemClient for MemFileSystem {
    fn list_from(&self, path: &String) -> Result<Vec<FileMeta>, Error> {
        let mut out: Vec<FileMeta> = self
            .files
            .iter()
            .filter(|f| f.location.as_str() >= path.as_str())
            .cloned()
            .collect();
        out.sort_by(|a, b| a.location.cmp(&b.location));
        Ok(out)
    }

    fn read_files(&self, files: &Vec<FileSlice>) -> Result<Vec<Vec<u8>>, Error> {
        Ok(files.iter().map(|s| vec![0u8; s.end.saturating_sub(s.start)]).collect())
    }
}

/// A host file handler whose read context is the file description itself.
struct PassThroughFiles;

impl FileHandler for PassThroughFiles {
    type FileReadContext = FileMeta;

    fn contextualize_file_reads(
        &self,
        files: Vec<FileMeta>,
        _predicate: Option<Expression>,
    ) -> Result<Vec<FileMeta>, Error> {
        Ok(files)
    }
}

/// A host evaluator bound to one input schema, returning its input.
struct IdentityEvaluator {
    schema: Schema,
}

impl ExpressionEvaluator for IdentityEvaluator {
    fn evaluate(&self, batch: &DataBatch) -> Result<DataBatch, Error> {
        if schema_agrees(&batch.schema, &self.schema, SchemaPolicy::Strict) {
            Ok(batch.clone())
        } else {
            Err(Error::EvaluationError)
        }
    }
}

fn int_schema(name: &str) -> Schema {
    Schema {
        fields: vec![Field {
            name: name.to_string(),
            data_type: DataType::Integer,
            nullable: false,
            dict_id: None,
            dict_is_ordered: None,
            metadata: vec![],
        }],
    }
}

#[test]
fn list_from_is_sorted_and_bounded_below() {
    let fs = MemFileSystem {
        files: vec![meta("t/c.parquet"), meta("t/a.parquet"), meta("t/b.parquet")],
    };
    let listed = fs.list_from(&"t/b".to_string()).unwrap();
    assert_eq!(listed.len(), 2);
    assert_eq!(listed[0].location, "t/b.parquet");
    assert_eq!(listed[1].location, "t/c.parquet");
    for w in listed.windows(2) {
        assert!(w[0].location < w[1].location);
    }
    for f in &listed {
        assert!(f.location.as_str() >= "t/b");
    }
}

#[test]
fn read_files_returns_one_buffer_per_slice() {
    let fs = MemFileSystem { files: vec![] };
    let slices = vec![
        FileSlice { location: "a".to_string(), start: 0, end: 4 },
        FileSlice { location: "a".to_string(), start: 2, end: 8 },
        FileSlice { location: "b".to_string(), start: 0, end: 0 },
    ];
    let buffers = fs.read_files(&slices).unwrap();
    assert_eq!(buffers.len(), slices.len());
    assert_eq!(buffers[1].len(), 6);
}

#[test]
fn contextualize_returns_one_context_per_file_in_order() {
    let handler = PassThroughFiles;
    let files = vec![meta("t/1"), meta("t/2"), meta("t/3")];
    let n = files.len();
    let contexts = handler
        .contextualize_file_reads(files, Some(Expression { handle: 7 }))
        .unwrap();
    assert_eq!(contexts.len(), n);
    assert_eq!(contexts[0].location, "t/1");
    assert_eq!(contexts[2].location, "t/3");
}

#[test]
fn evaluator_rejects_batches_of_another_schema() {
    let evaluator = IdentityEvaluator { schema: int_schema("x") };
    let good = DataBatch { schema: int_schema("x"), rows: vec![vec![Value::Int(1)]] };
    let bad = DataBatch { schema: int_schema("y"), rows: vec![vec![Value::Int(1)]] };
    let out = evaluator.evaluate(&good).unwrap();
    assert_eq!(out.rows.len(), 1);
    assert!(matches!(evaluator.evaluate(&bad), Err(Error::EvaluationError)));
}
