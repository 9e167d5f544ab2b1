//! Cell values of a columnar batch and their canonical ordering.
//!
//! A cell is either null, a primitive (boolean, integer, text), or a
//! composite (the contents of a nested record, list or map cell).  The
//! mathematical mirror of a cell is [`ValV`]; every contract in this crate
//! speaks of values through [`val_v`].
//!
//! The order [`val_lt`] sorts nulls first, then primitives by their natural
//! order; composites are never below one another, which matches their
//! exclusion from sort keys.

use vstd::prelude::*;

use crate::text::{chars_lt, lemma_chars_lt_asymmetric, lemma_chars_lt_connected,
    lemma_chars_lt_irreflexive, lemma_chars_lt_transitive, str_cmp};

verus! {

/// One cell of a column.
pub enum Value {
    Null,
    Bool(bool),
    Int(i64),
    Str(String),
    Composite(Vec<Value>),
}

/// The mathematical mirror of a [`Value`].
pub enum ValV {
    Null,
    Bool(bool),
    Int(int),
    Str(Seq<char>),
    Composite(Seq<ValV>),
}

/// The mathematical value of a cell.
pub open spec fn val_v(v: Value) -> ValV
    decreases v,
    via val_v_decreases
{
    match v {
        Value::Null => ValV::Null,
        Value::Bool(b) => ValV::Bool(b),
        Value::Int(i) => ValV::Int(i as int),
        Value::Str(s) => ValV::Str(s@),
        Value::Composite(vs) => ValV::Composite(vals_v(vs@)),
    }
}

/// The mathematical values of a sequence of cells.
pub open spec fn vals_v(vs: Seq<Value>) -> Seq<ValV>
    decreases vs,
{
    if vs.len() == 0 {
        Seq::empty()
    } else {
        seq![val_v(vs[0])] + vals_v(vs.drop_first())
    }
}

#[via_fn]
proof fn val_v_decreases(v: Value) {
    match v {
        Value::Composite(vs) => {
            assert(decreases_to!(v => v->Composite_0));
            assert(decreases_to!(v->Composite_0 => v->Composite_0@));
            assert(v->Composite_0 == vs);
        },
        _ => {},
    }
}

/// `vals_v` maps `val_v` over the sequence.
pub proof fn lemma_vals_v(vs: Seq<Value>)
    ensures
        vals_v(vs).len() == vs.len(),
        forall|i: int| 0 <= i < vs.len() ==> #[trigger] vals_v(vs)[i] == val_v(vs[i]),
    decreases vs.len(),
{
    if vs.len() > 0 {
        lemma_vals_v(vs.drop_first());
    }
}

/// The mathematical value of a row of cells.
pub open spec fn row_v(r: Vec<Value>) -> Seq<ValV> {
    r@.map_values(|v: Value| val_v(v))
}

/// Rank of a value's kind; nulls sort before every primitive, composites
/// after everything.
pub open spec fn rank(v: ValV) -> int {
    match v {
        ValV::Null => 0,
        ValV::Bool(_) => 1,
        ValV::Int(_) => 2,
        ValV::Str(_) => 3,
        ValV::Composite(_) => 4,
    }
}

/// Strict order on cell values: by rank, then by the primitive's natural
/// order.  Composites of equal rank are never ordered.
pub open spec fn val_lt(a: ValV, b: ValV) -> bool {
    if rank(a) != rank(b) {
        rank(a) < rank(b)
    } else {
        match (a, b) {
            (ValV::Bool(x), ValV::Bool(y)) => !x && y,
            (ValV::Int(x), ValV::Int(y)) => x < y,
            (ValV::Str(x), ValV::Str(y)) => chars_lt(x, y),
            _ => false,
        }
    }
}

pub proof fn lemma_val_lt_irreflexive(a: ValV)
    ensures
        !val_lt(a, a),
{
    if a is Str {
        lemma_chars_lt_irreflexive(a->Str_0);
    }
}

pub proof fn lemma_val_lt_asymmetric(a: ValV, b: ValV)
    requires
        val_lt(a, b),
    ensures
        !val_lt(b, a),
{
    if a is Str && b is Str {
        lemma_chars_lt_asymmetric(a->Str_0, b->Str_0);
    }
}

pub proof fn lemma_val_lt_transitive(a: ValV, b: ValV, c: ValV)
    requires
        val_lt(a, b),
        val_lt(b, c),
    ensures
        val_lt(a, c),
{
    if a is Str && b is Str && c is Str {
        lemma_chars_lt_transitive(a->Str_0, b->Str_0, c->Str_0);
    }
}

/// Two values neither of which is below the other are equal, unless both
/// are composites.
pub proof fn lemma_val_unordered(a: ValV, b: ValV)
    requires
        !val_lt(a, b),
        !val_lt(b, a),
    ensures
        a == b || (a is Composite && b is Composite),
{
    if a is Str && b is Str && a != b {
        lemma_chars_lt_connected(a->Str_0, b->Str_0);
    }
}

/// Rank of a value, executable form.
fn rank_of(v: &Value) -> (r: u8)
    ensures
        r as int == rank(val_v(*v)),
{
    match v {
        Value::Null => 0,
        Value::Bool(_) => 1,
        Value::Int(_) => 2,
        Value::Str(_) => 3,
        Value::Composite(_) => 4,
    }
}

/// Three-way comparison of two cells under [`val_lt`]; zero means the two
/// cells are unordered (equal, or both composite).
pub fn val_cmp(a: &Value, b: &Value) -> (c: i32)
    ensures
        c < 0 <==> val_lt(val_v(*a), val_v(*b)),
        c > 0 <==> val_lt(val_v(*b), val_v(*a)),
        -1 <= c <= 1,
{
    let ra = rank_of(a);
    let rb = rank_of(b);
    if ra < rb {
        return -1;
    }
    if rb < ra {
        return 1;
    }
    match (a, b) {
        (Value::Bool(x), Value::Bool(y)) => {
            if *x == *y {
                0
            } else if !*x {
                -1
            } else {
                1
            }
        },
        (Value::Int(x), Value::Int(y)) => {
            if *x < *y {
                -1
            } else if *y < *x {
                1
            } else {
                0
            }
        },
        (Value::Str(x), Value::Str(y)) => {
            let c = str_cmp(x.as_str(), y.as_str());
            if c < 0 {
                -1
            } else if c > 0 {
                1
            } else {
                0
            }
        },
        _ => 0,
    }
}

/// Deep equality of two cells' mathematical values.
pub fn val_eq(a: &Value, b: &Value) -> (r: bool)
    ensures
        r == (val_v(*a) == val_v(*b)),
    decreases *a,
{
    match (a, b) {
        (Value::Null, Value::Null) => true,
        (Value::Bool(x), Value::Bool(y)) => *x == *y,
        (Value::Int(x), Value::Int(y)) => *x == *y,
        (Value::Str(x), Value::Str(y)) => str_cmp(x.as_str(), y.as_str()) == 0,
        (Value::Composite(xs), Value::Composite(ys)) => {
            proof {
                lemma_vals_v(xs@);
                lemma_vals_v(ys@);
            }
            if xs.len() != ys.len() {
                assert(val_v(*a) != val_v(*b)) by {
                    assert(val_v(*a)->Composite_0.len() != val_v(*b)->Composite_0.len());
                }
                return false;
            }
            let n = xs.len();
            let mut i: usize = 0;
            while i < n
                invariant
                    i <= n,
                    n == xs@.len(),
                    n == ys@.len(),
                    a == Value::Composite(*xs),
                    b == Value::Composite(*ys),
                    forall|j: int| 0 <= j < i ==> val_v(xs@[j]) == val_v(ys@[j]),
                decreases n - i,
            {
                proof {
                    lemma_vals_v(xs@);
                    lemma_vals_v(ys@);
                }
                if !val_eq(&xs[i], &ys[i]) {
                    assert(val_v(*a) != val_v(*b)) by {
                        assert(val_v(*a)->Composite_0[i as int] != val_v(
                            *b,
                        )->Composite_0[i as int]);
                    }
                    return false;
                }
                i = i + 1;
            }
            proof {
                lemma_vals_v(xs@);
                lemma_vals_v(ys@);
                assert(val_v(*a)->Composite_0 =~= val_v(*b)->Composite_0);
            }
            true
        },
        _ => false,
    }
}

impl Clone for Value {
    /// Cloning preserves the mathematical value of the cell.
    fn clone(&self) -> (r: Self)
        ensures
            val_v(r) == val_v(*self),
        decreases *self,
    {
        match self {
            Value::Null => Value::Null,
            Value::Bool(b) => Value::Bool(*b),
            Value::Int(i) => Value::Int(*i),
            Value::Str(s) => Value::Str(s.clone()),
            Value::Composite(vs) => {
                let n = vs.len();
                let mut out: Vec<Value> = Vec::new();
                let mut i: usize = 0;
                while i < n
                    invariant
                        i <= n,
                        n == vs@.len(),
                        self == Value::Composite(*vs),
                        out@.len() == i,
                        forall|j: int| 0 <= j < i ==> val_v(out@[j]) == val_v(vs@[j]),
                    decreases n - i,
                {
                    proof {
                        assert(decreases_to!(*self => self->Composite_0));
                        assert(decreases_to!(self->Composite_0 => self->Composite_0@));
                        assert(decreases_to!(
                            self->Composite_0@ => self->Composite_0@[i as int]
                        ));
                        assert(self->Composite_0 == *vs);
                    }
                    out.push(vs[i].clone());
                    i = i + 1;
                }
                proof {
                    lemma_vals_v(out@);
                    lemma_vals_v(vs@);
                    assert(val_v(Value::Composite(out))->Composite_0 =~= val_v(
                        *self,
                    )->Composite_0);
                }
                Value::Composite(out)
            },
        }
    }
}

/// Cloning a row preserves its mathematical value.
pub fn clone_row(r: &Vec<Value>) -> (out: Vec<Value>)
    ensures
        row_v(out) == row_v(*r),
{
    let n = r.len();
    let mut out: Vec<Value> = Vec::new();
    let mut i: usize = 0;
    while i < n
        invariant
            i <= n,
            n == r@.len(),
            out@.len() == i,
            forall|j: int| 0 <= j < i ==> val_v(out@[j]) == val_v(r@[j]),
        decreases n - i,
    {
        out.push(r[i].clone());
        i = i + 1;
    }
    proof {
        assert(row_v(out) =~= row_v(*r));
    }
    out
}

} // verus!
