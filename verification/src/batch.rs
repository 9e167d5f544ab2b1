//! Columnar batches: the uniform container for decoded file contents,
//! expression evaluation and golden/actual comparison.

use vstd::prelude::*;

use crate::schema::{schema_v, FieldV, Schema};
use crate::value::{clone_row, row_v, ValV, Value};

verus! {

/// An immutable, schema-typed container of rows.
///
/// Each row holds one cell per schema field, in field order.
pub struct DataBatch {
    /// Names, types and attributes of the columns.
    pub schema: Schema,
    /// The data, one row at a time; row `i`, cell `j` belongs to column
    /// `j` of the schema.
    pub rows: Vec<Vec<Value>>,
}

/// The mathematical mirror of a [`DataBatch`].
#[verifier::ext_equal]
pub struct BatchV {
    pub schema: Seq<FieldV>,
    pub rows: Seq<Seq<ValV>>,
}

impl BatchV {
    /// Every row has exactly one cell per schema field.
    pub open spec fn wf(self) -> bool {
        forall|i: int|
            0 <= i < self.rows.len() ==> (#[trigger] self.rows[i]).len() == self.schema.len()
    }
}

/// The mathematical values of a sequence of rows.
pub open spec fn rows_v(rs: Seq<Vec<Value>>) -> Seq<Seq<ValV>> {
    rs.map_values(|r: Vec<Value>| row_v(r))
}

/// The mathematical value of a batch.
pub open spec fn batch_v(b: DataBatch) -> BatchV {
    BatchV { schema: schema_v(b.schema), rows: rows_v(b.rows@) }
}

impl DataBatch {
    /// Number of rows in the batch.
    pub fn num_rows(&self) -> (n: usize)
        ensures
            n == batch_v(*self).rows.len(),
    {
        self.rows.len()
    }

    /// Number of columns in the batch's schema.
    pub fn num_columns(&self) -> (n: usize)
        ensures
            n == batch_v(*self).schema.len(),
    {
        self.schema.fields.len()
    }

    /// Whether every row has one cell per schema field.
    pub fn well_formed(&self) -> (r: bool)
        ensures
            r == batch_v(*self).wf(),
    {
        let cols = self.schema.fields.len();
        let n = self.rows.len();
        let mut i: usize = 0;
        while i < n
            invariant
                i <= n,
                n == self.rows@.len(),
                cols == self.schema.fields@.len(),
                forall|j: int| 0 <= j < i ==> (#[trigger] batch_v(*self).rows[j]).len() == batch_v(
                    *self,
                ).schema.len(),
            decreases n - i,
        {
            proof {
                assert(batch_v(*self).rows[i as int] == row_v(self.rows@[i as int]));
            }
            if self.rows[i].len() != cols {
                return false;
            }
            i = i + 1;
        }
        true
    }
}

impl Clone for DataBatch {
    /// Cloning preserves the mathematical value of the batch.
    fn clone(&self) -> (r: Self)
        ensures
            batch_v(r) == batch_v(*self),
    {
        let n = self.rows.len();
        let mut rows: Vec<Vec<Value>> = Vec::new();
        let mut i: usize = 0;
        while i < n
            invariant
                i <= n,
                n == self.rows@.len(),
                rows@.len() == i,
                forall|j: int| 0 <= j < i ==> row_v(#[trigger] rows@[j]) == row_v(self.rows@[j]),
            decreases n - i,
        {
            rows.push(clone_row(&self.rows[i]));
            i = i + 1;
        }
        let r = DataBatch { schema: self.schema.clone(), rows };
        proof {
            assert(batch_v(r).rows =~= batch_v(*self).rows);
            assert(batch_v(r) =~= batch_v(*self));
        }
        r
    }
}

} // verus!
