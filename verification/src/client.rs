//! Capability traits: the complete surface a host must implement so the
//! protocol core can read a table.
//!
//! The core is engine-agnostic: it assumes no particular file system,
//! runtime or decoder, and delegates every I/O- and compute-heavy
//! operation through these traits.  The contracts written here are the
//! engine boundary: what the core may rely on of any host, and all a host
//! has to guarantee.  Per-format read contexts stay opaque — the core
//! threads them from [`FileHandler::contextualize_file_reads`] into the
//! matching read call, one to one and in order, without inspecting them.

use vstd::prelude::*;

use crate::batch::{batch_v, DataBatch};
use crate::error::Error;
use crate::schema::{schema_v, FieldV, Schema};
use crate::text::{chars_le, chars_lt};

verus! {

/// The metadata that describes an object.
pub struct FileMeta {
    /// The fully qualified path to the object.
    pub location: String,
    /// The last modified time, in milliseconds.
    pub last_modified: i64,
    /// The size in bytes of the object.
    pub size: usize,
}

impl Clone for FileMeta {
    /// Cloning preserves every attribute of the description.
    fn clone(&self) -> (r: Self)
        ensures
            r.location@ == self.location@,
            r.last_modified == self.last_modified,
            r.size == self.size,
    {
        FileMeta {
            location: self.location.clone(),
            last_modified: self.last_modified,
            size: self.size,
        }
    }
}

/// A request for a contiguous byte range of one object.  Several slices
/// may name the same object, with overlapping ranges or not.
pub struct FileSlice {
    /// The object to read from.
    pub location: String,
    /// First byte offset of the range.
    pub start: usize,
    /// One past the last byte offset of the range.
    pub end: usize,
}

/// An opaque, already-parsed predicate/compute tree, built by the caller
/// and handed through the core without inspection.
pub struct Expression {
    /// Host-meaningful handle of the tree; the core never interprets it.
    pub handle: u64,
}

/// Data read from a table file, with the scan file it came from.
pub type FileDataReadResult = (FileMeta, DataBatch);

/// Evaluates one bound expression against columnar batches.
///
/// The evaluator is created for a specific expression and input schema
/// and may be invoked many times.
pub trait ExpressionEvaluator {
    /// Evaluates the expression on the given batch: one output value per
    /// input row.  Fails with [`Error::EvaluationError`], and only with
    /// it, when the batch's schema is not the one the evaluator was
    /// built for.
    fn evaluate(&self, batch: &DataBatch) -> (r: Result<DataBatch, Error>)
        ensures
            r matches Ok(out) ==> batch_v(out).rows.len() == batch_v(*batch).rows.len()
                && batch_v(out).wf(),
            r matches Err(e) ==> e == Error::EvaluationError,
    ;
}

/// Provides expression evaluation capability to the protocol core.
pub trait ExpressionHandler {
    /// The evaluator type this host builds.
    type Evaluator: ExpressionEvaluator;

    /// Binds an expression to an input schema once; the returned
    /// evaluator may be invoked many times.  No side effects.  Fails with
    /// [`Error::UnsupportedExpressionError`] if the host cannot evaluate
    /// that expression shape.
    fn get_evaluator(&self, schema: &Schema, expression: Expression) -> (r: Result<
        Self::Evaluator,
        Error,
    >)
        ensures
            r matches Err(e) ==> e == Error::UnsupportedExpressionError,
    ;
}

/// Provides file system related functionality to the protocol core.
pub trait FileSystemClient {
    /// Lists the objects whose location is lexicographically at or after
    /// `path` (UTF-8 code point order), in strictly ascending order by
    /// location — callers rely on this for resumable, prefix-bounded
    /// listing.  Fails with [`Error::IoError`] on a listing failure.
    fn list_from(&self, path: &String) -> (r: Result<Vec<FileMeta>, Error>)
        ensures
            r matches Ok(v) ==> forall|i: int|
                0 <= i < v@.len() ==> chars_le(path@, (#[trigger] v@[i]).location@),
            r matches Ok(v) ==> forall|i: int, j: int|
                0 <= i < j < v@.len() ==> chars_lt(
                    (#[trigger] v@[i]).location@,
                    (#[trigger] v@[j]).location@,
                ),
            r matches Err(e) ==> e == Error::IoError,
    ;

    /// Reads the byte ranges named by the slices: one buffer per slice,
    /// in the same order.  A single failure fails the whole call with
    /// [`Error::IoError`]; there is no partial success.
    fn read_files(&self, files: &Vec<FileSlice>) -> (r: Result<Vec<Vec<u8>>, Error>)
        ensures
            r matches Ok(v) ==> v@.len() == files@.len(),
            r matches Err(e) ==> e == Error::IoError,
    ;
}

/// Provides file handling functionality to the protocol core.
///
/// A host attaches, per scan file, whatever context it needs to later
/// execute the actual read — split boundaries, pushed-down predicate
/// hints.  The core never interprets the context.
pub trait FileHandler {
    /// Opaque per-file token, threaded from contextualization into the
    /// matching read call.
    type FileReadContext;

    /// Associates one read context with each scan file: exactly one per
    /// input, in the same order.  This is a pure transformation; it
    /// performs no I/O.  The predicate is an optimization hint only — a
    /// host may ignore it, and no downstream row result may depend on
    /// whether it was used.
    fn contextualize_file_reads(&self, files: Vec<FileMeta>, predicate: Option<Expression>) -> (r:
        Result<Vec<Self::FileReadContext>, Error>)
        ensures
            r matches Ok(v) ==> v@.len() == files@.len(),
    ;
}

/// Provides document parsing and reading to the protocol core.
pub trait JsonHandler: FileHandler {
    /// Parses one document per input string, projecting only the fields
    /// named by `output_schema`: one output row per input string.  A
    /// string that cannot be parsed fails the whole call with
    /// [`Error::ParseError`] — there is no row-level partial tolerance at
    /// this layer.
    fn parse_json(&self, json_strings: &Vec<String>, output_schema: &Schema) -> (r: Result<
        DataBatch,
        Error,
    >)
        ensures
            r matches Ok(b) ==> batch_v(b).rows.len() == json_strings@.len() && batch_v(b).schema
                == schema_v(*output_schema) && batch_v(b).wf(),
            r matches Err(e) ==> e == Error::ParseError,
    ;

    /// Reads and decodes each context's underlying file: one result per
    /// context, in the same order, each projected to `physical_schema`.
    fn read_json_files(&self, files: Vec<Self::FileReadContext>, physical_schema: &Schema) -> (r:
        Result<Vec<FileDataReadResult>, Error>)
        ensures
            r matches Ok(v) ==> v@.len() == files@.len() && forall|i: int|
                0 <= i < v@.len() ==> batch_v((#[trigger] v@[i]).1).schema == schema_v(
                    *physical_schema,
                ) && batch_v(v@[i].1).wf(),
    ;
}

/// Provides columnar binary file reading to the protocol core.
pub trait ParquetHandler: FileHandler {
    /// Reads and decodes each context's underlying file: one result per
    /// context, in the same order, each projected to `physical_schema`.
    fn read_parquet_files(&self, files: Vec<Self::FileReadContext>, physical_schema: &Schema) -> (
        r: Result<Vec<FileDataReadResult>, Error>)
        ensures
            r matches Ok(v) ==> v@.len() == files@.len() && forall|i: int|
                0 <= i < v@.len() ==> batch_v((#[trigger] v@[i]).1).schema == schema_v(
                    *physical_schema,
                ) && batch_v(v@[i].1).wf(),
    ;
}

/// Everything the protocol core needs from a host in order to read a
/// table: one long-lived instance of each capability.  The per-format
/// read context types are fixed by the host for the client's lifetime.
pub trait TableClient {
    /// The host's expression handler.
    type Expressions: ExpressionHandler;

    /// The host's file system client.
    type FileSystem: FileSystemClient;

    /// The host's document handler.
    type Json: JsonHandler;

    /// The host's columnar binary handler.
    type Parquet: ParquetHandler;

    /// The host-provided expression handler.
    fn get_expression_handler(&self) -> &Self::Expressions;

    /// The host-provided file system client.
    fn get_file_system_client(&self) -> &Self::FileSystem;

    /// The host-provided document handler.
    fn get_json_handler(&self) -> &Self::Json;

    /// The host-provided columnar binary handler.
    fn get_parquet_handler(&self) -> &Self::Parquet;
}

} // verus!
