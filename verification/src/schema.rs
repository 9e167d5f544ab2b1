//! Schemas of columnar batches.
//!
//! A schema is a sequence of named, typed fields.  Two notions of schema
//! agreement are used: a strict one (every declared property equal), and a
//! structural one that deliberately ignores nullability and key/value
//! metadata — reference encodings routinely mark fields nullable that a
//! protocol's declared schema does not, and metadata is not semantically
//! load-bearing.  The relaxation is an explicit, named policy
//! ([`SchemaPolicy`]), never a silent default.

use vstd::prelude::*;

use crate::text::str_cmp;

verus! {

/// Declared type of one column.
///
/// `Record`, `List` and `Mapping` are the non-orderable composite kinds;
/// their cells hold [`crate::value::Value::Composite`] contents.
#[derive(Clone, Copy, PartialEq, Eq, Structural)]
pub enum DataType {
    Boolean,
    Integer,
    Text,
    Record,
    List,
    Mapping,
}

/// Whether a column of this type takes part in the canonical sort key.
pub open spec fn orderable(t: DataType) -> bool {
    !(t is Record || t is List || t is Mapping)
}

/// Executable form of [`orderable`].
pub fn is_orderable(t: DataType) -> (r: bool)
    ensures
        r == orderable(t),
{
    match t {
        DataType::Record | DataType::List | DataType::Mapping => false,
        _ => true,
    }
}

/// One field of a schema.
pub struct Field {
    /// Column name.
    pub name: String,
    /// Declared type of the column.
    pub data_type: DataType,
    /// Whether the column may hold nulls.
    pub nullable: bool,
    /// Identity of the dictionary encoding, if the column is
    /// dictionary-encoded.
    pub dict_id: Option<i64>,
    /// Whether the dictionary is ordered, if the column is
    /// dictionary-encoded.
    pub dict_is_ordered: Option<bool>,
    /// Arbitrary key/value metadata attached to the field.
    pub metadata: Vec<(String, String)>,
}

/// The mathematical mirror of a [`Field`].
pub struct FieldV {
    pub name: Seq<char>,
    pub data_type: DataType,
    pub nullable: bool,
    pub dict_id: Option<i64>,
    pub dict_is_ordered: Option<bool>,
    pub metadata: Seq<(Seq<char>, Seq<char>)>,
}

/// The mathematical value of a field's metadata list.
pub open spec fn field_meta_v(m: Vec<(String, String)>) -> Seq<(Seq<char>, Seq<char>)> {
    m@.map_values(|p: (String, String)| (p.0@, p.1@))
}

/// The mathematical value of a field.
pub open spec fn field_v(f: Field) -> FieldV {
    FieldV {
        name: f.name@,
        data_type: f.data_type,
        nullable: f.nullable,
        dict_id: f.dict_id,
        dict_is_ordered: f.dict_is_ordered,
        metadata: field_meta_v(f.metadata),
    }
}

/// Schema of a batch: one field per column, in column order.
pub struct Schema {
    pub fields: Vec<Field>,
}

/// The mathematical value of a schema.
pub open spec fn schema_v(s: Schema) -> Seq<FieldV> {
    s.fields@.map_values(|f: Field| field_v(f))
}

/// How two schemas are compared.
#[derive(Clone, Copy, PartialEq, Eq, Structural)]
pub enum SchemaPolicy {
    /// Field name, declared type and dictionary identity/ordering must
    /// match; nullability and metadata are ignored.
    Relaxed,
    /// Every declared property must match.
    Strict,
}

/// Field agreement under the structural policy.
pub open spec fn field_structural_eq(a: FieldV, b: FieldV) -> bool {
    &&& a.name == b.name
    &&& a.data_type == b.data_type
    &&& a.dict_id == b.dict_id
    &&& a.dict_is_ordered == b.dict_is_ordered
}

/// Field agreement under the chosen policy.
pub open spec fn field_matches(a: FieldV, b: FieldV, policy: SchemaPolicy) -> bool {
    match policy {
        SchemaPolicy::Relaxed => field_structural_eq(a, b),
        SchemaPolicy::Strict => field_structural_eq(a, b) && a.nullable == b.nullable
            && a.metadata == b.metadata,
    }
}

/// Schema agreement: same field count, fields agree pairwise.
pub open spec fn schemas_match(a: Seq<FieldV>, b: Seq<FieldV>, policy: SchemaPolicy) -> bool {
    a.len() == b.len() && forall|i: int|
        0 <= i < a.len() ==> field_matches(#[trigger] a[i], b[i], policy)
}

fn opt_i64_eq(a: &Option<i64>, b: &Option<i64>) -> (r: bool)
    ensures
        r == (*a == *b),
{
    match (a, b) {
        (Option::None, Option::None) => true,
        (Option::Some(x), Option::Some(y)) => *x == *y,
        _ => false,
    }
}

fn opt_bool_eq(a: &Option<bool>, b: &Option<bool>) -> (r: bool)
    ensures
        r == (*a == *b),
{
    match (a, b) {
        (Option::None, Option::None) => true,
        (Option::Some(x), Option::Some(y)) => *x == *y,
        _ => false,
    }
}

fn metadata_eq(a: &Vec<(String, String)>, b: &Vec<(String, String)>) -> (r: bool)
    ensures
        r == (field_meta_v(*a) == field_meta_v(*b)),
{
    if a.len() != b.len() {
        proof {
            assert(field_meta_v(*a).len() != field_meta_v(*b).len());
        }
        return false;
    }
    let n = a.len();
    let mut i: usize = 0;
    while i < n
        invariant
            i <= n,
            n == a@.len(),
            n == b@.len(),
            forall|j: int| 0 <= j < i ==> #[trigger] field_meta_v(*a)[j] == field_meta_v(*b)[j],
        decreases n - i,
    {
        let ka = str_cmp(a[i].0.as_str(), b[i].0.as_str());
        let va = str_cmp(a[i].1.as_str(), b[i].1.as_str());
        proof {
            assert(field_meta_v(*a)[i as int] == (a@[i as int].0@, a@[i as int].1@));
            assert(field_meta_v(*b)[i as int] == (b@[i as int].0@, b@[i as int].1@));
        }
        if ka != 0 || va != 0 {
            return false;
        }
        i = i + 1;
    }
    proof {
        assert(field_meta_v(*a) =~= field_meta_v(*b));
    }
    true
}

/// Whether two fields agree under the chosen policy.
pub fn field_agrees(a: &Field, b: &Field, policy: SchemaPolicy) -> (r: bool)
    ensures
        r == field_matches(field_v(*a), field_v(*b), policy),
{
    let names = str_cmp(a.name.as_str(), b.name.as_str()) == 0;
    let types = a.data_type == b.data_type;
    let dicts = opt_i64_eq(&a.dict_id, &b.dict_id);
    let dict_ord = opt_bool_eq(&a.dict_is_ordered, &b.dict_is_ordered);
    let structural = names && types && dicts && dict_ord;
    match policy {
        SchemaPolicy::Relaxed => structural,
        SchemaPolicy::Strict => structural && a.nullable == b.nullable && metadata_eq(
            &a.metadata,
            &b.metadata,
        ),
    }
}

/// Whether two schemas agree under the chosen policy.
pub fn schema_agrees(a: &Schema, b: &Schema, policy: SchemaPolicy) -> (r: bool)
    ensures
        r == schemas_match(schema_v(*a), schema_v(*b), policy),
{
    if a.fields.len() != b.fields.len() {
        return false;
    }
    let n = a.fields.len();
    let mut i: usize = 0;
    while i < n
        invariant
            i <= n,
            n == a.fields@.len(),
            n == b.fields@.len(),
            forall|j: int|
                0 <= j < i ==> field_matches(
                    #[trigger] schema_v(*a)[j],
                    schema_v(*b)[j],
                    policy,
                ),
        decreases n - i,
    {
        proof {
            assert(schema_v(*a)[i as int] == field_v(a.fields@[i as int]));
            assert(schema_v(*b)[i as int] == field_v(b.fields@[i as int]));
        }
        if !field_agrees(&a.fields[i], &b.fields[i], policy) {
            return false;
        }
        i = i + 1;
    }
    true
}

impl Clone for Field {
    /// Cloning preserves the mathematical value of the field.
    fn clone(&self) -> (r: Self)
        ensures
            field_v(r) == field_v(*self),
    {
        let mut meta: Vec<(String, String)> = Vec::new();
        let n = self.metadata.len();
        let mut i: usize = 0;
        while i < n
            invariant
                i <= n,
                n == self.metadata@.len(),
                meta@.len() == i,
                forall|j: int|
                    0 <= j < i ==> (#[trigger] meta@[j].0@, meta@[j].1@) == (
                        self.metadata@[j].0@,
                        self.metadata@[j].1@,
                    ),
            decreases n - i,
        {
            meta.push((self.metadata[i].0.clone(), self.metadata[i].1.clone()));
            i = i + 1;
        }
        proof {
            assert(field_meta_v(meta) =~= field_meta_v(self.metadata));
        }
        Field {
            name: self.name.clone(),
            data_type: self.data_type,
            nullable: self.nullable,
            dict_id: self.dict_id,
            dict_is_ordered: self.dict_is_ordered,
            metadata: meta,
        }
    }
}

impl Clone for Schema {
    /// Cloning preserves the mathematical value of the schema.
    fn clone(&self) -> (r: Self)
        ensures
            schema_v(r) == schema_v(*self),
    {
        let mut fields: Vec<Field> = Vec::new();
        let n = self.fields.len();
        let mut i: usize = 0;
        while i < n
            invariant
                i <= n,
                n == self.fields@.len(),
                fields@.len() == i,
                forall|j: int| 0 <= j < i ==> schema_v(Schema { fields })[j] == schema_v(
                    *self,
                )[j],
            decreases n - i,
        {
            fields.push(self.fields[i].clone());
            i = i + 1;
        }
        proof {
            assert(schema_v(Schema { fields }) =~= schema_v(*self));
        }
        Schema { fields }
    }
}

} // verus!
