//! Failure taxonomy of the capability layer and the conformance oracle.

use vstd::prelude::*;

verus! {

/// Every distinct, nameable failure of the capability layer, the scan
/// execution path, the golden loader and the conformance oracle.
///
/// Oracle failures carry the index of the offending column or field so a
/// test harness can attribute a failure precisely.
#[derive(Clone, Copy, PartialEq, Eq, Structural, Debug)]
pub enum Error {
    /// A listing or read against storage failed.
    IoError,
    /// File content could not be decoded.
    DecodeError,
    /// A document string could not be parsed.
    ParseError,
    /// Batches with structurally different schemas cannot be concatenated.
    SchemaMismatchError,
    /// An expression was evaluated against a batch whose schema differs
    /// from the one the evaluator was built for.
    EvaluationError,
    /// The host cannot evaluate that expression shape.
    UnsupportedExpressionError,
    /// A scan result carried no payload where one was required.
    MissingDataError,
    /// A declared-orderable column held a value the sort routine cannot
    /// compare.
    SortError,
    /// No golden dataset exists for the test case.
    MissingGoldenDataError,
    /// Actual and golden data differ in the named column.
    DataMismatchError { column: usize },
    /// Actual and golden schemas differ structurally at the named field.
    SchemaFieldMismatchError { field: usize },
    /// Actual and golden datasets have different row counts.
    RowCountMismatchError { actual: usize, golden: usize },
}

} // verus!
