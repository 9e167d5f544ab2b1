//! Canonical row order of a batch.
//!
//! A scan does not guarantee any row order across files and partitions, so
//! two result sets are made comparable by sorting their rows into a
//! deterministic canonical order first.  Columns of a non-orderable
//! composite kind are excluded from the sort key; the remaining columns
//! form an ordered composite key, compared column by column in schema
//! order, ascending, nulls first.  Ties keep their original relative
//! order, so the canonical form of a batch is uniquely determined.

use vstd::prelude::*;
use vstd::multiset::Multiset;
use vstd::relations::{sorted_by, total_ordering};
use vstd::seq_lib::lemma_sorted_unique;

use crate::batch::{batch_v, BatchV, DataBatch};
use crate::error::Error;
use crate::schema::{is_orderable, orderable, schema_v, FieldV, Schema};
use crate::value::{clone_row, lemma_val_lt_asymmetric, lemma_val_lt_irreflexive,
    lemma_val_lt_transitive, lemma_val_unordered, row_v, val_cmp, val_lt, val_v, ValV, Value};

verus! {

/// Three-way comparison of two rows over the orderable columns of
/// `fields`, starting at column `j`: negative, zero or positive as `a`
/// sorts below, with or above `b`.
pub open spec fn key_cmp_from(a: Seq<ValV>, b: Seq<ValV>, fields: Seq<FieldV>, j: int) -> int
    decreases fields.len() - j,
    when 0 <= j <= fields.len()
{
    if j >= fields.len() {
        0
    } else if !orderable(fields[j].data_type) {
        key_cmp_from(a, b, fields, j + 1)
    } else if val_lt(a[j], b[j]) {
        -1
    } else if val_lt(b[j], a[j]) {
        1
    } else {
        key_cmp_from(a, b, fields, j + 1)
    }
}

/// Three-way comparison of two rows over the orderable columns of
/// `fields`.
pub open spec fn key_cmp(a: Seq<ValV>, b: Seq<ValV>, fields: Seq<FieldV>) -> int {
    key_cmp_from(a, b, fields, 0)
}

proof fn lemma_key_cmp_refl(a: Seq<ValV>, fields: Seq<FieldV>, j: int)
    requires
        0 <= j <= fields.len(),
    ensures
        key_cmp_from(a, a, fields, j) == 0,
    decreases fields.len() - j,
{
    if j < fields.len() {
        lemma_val_lt_irreflexive(a[j]);
        lemma_key_cmp_refl(a, fields, j + 1);
    }
}

proof fn lemma_key_cmp_antisym(a: Seq<ValV>, b: Seq<ValV>, fields: Seq<FieldV>, j: int)
    requires
        0 <= j <= fields.len(),
    ensures
        key_cmp_from(a, b, fields, j) == -key_cmp_from(b, a, fields, j),
    decreases fields.len() - j,
{
    if j < fields.len() {
        if val_lt(a[j], b[j]) {
            lemma_val_lt_asymmetric(a[j], b[j]);
        }
        if val_lt(b[j], a[j]) {
            lemma_val_lt_asymmetric(b[j], a[j]);
        }
        lemma_key_cmp_antisym(a, b, fields, j + 1);
    }
}

/// A value below one of two unordered values is below the other.
proof fn lemma_val_lt_through(a: ValV, b: ValV, c: ValV)
    requires
        val_lt(a, b),
        !val_lt(b, c),
        !val_lt(c, b),
    ensures
        val_lt(a, c),
{
    lemma_val_unordered(b, c);
}

/// A value above one of two unordered values is above the other.
proof fn lemma_val_gt_through(a: ValV, b: ValV, c: ValV)
    requires
        val_lt(b, c),
        !val_lt(a, b),
        !val_lt(b, a),
    ensures
        val_lt(a, c),
{
    lemma_val_unordered(a, b);
}

proof fn lemma_key_cmp_trans(a: Seq<ValV>, b: Seq<ValV>, c: Seq<ValV>, fields: Seq<FieldV>, j: int)
    requires
        0 <= j <= fields.len(),
        key_cmp_from(a, b, fields, j) <= 0,
        key_cmp_from(b, c, fields, j) <= 0,
    ensures
        key_cmp_from(a, c, fields, j) <= 0,
        key_cmp_from(a, b, fields, j) < 0 || key_cmp_from(b, c, fields, j) < 0
            ==> key_cmp_from(a, c, fields, j) < 0,
    decreases fields.len() - j,
{
    if j < fields.len() {
        if !orderable(fields[j].data_type) {
            lemma_key_cmp_trans(a, b, c, fields, j + 1);
        } else {
            let x = a[j];
            let y = b[j];
            let z = c[j];
            if val_lt(x, y) {
                // key_cmp(a, b) is decided here.
                if val_lt(y, z) {
                    lemma_val_lt_transitive(x, y, z);
                } else {
                    lemma_val_lt_through(x, y, z);
                }
                lemma_val_lt_asymmetric(x, z);
            } else if val_lt(y, x) {
                // contradicts key_cmp_from(a, b, fields, j) <= 0
            } else {
                if val_lt(y, z) {
                    lemma_val_gt_through(x, y, z);
                    lemma_val_lt_asymmetric(x, z);
                } else if val_lt(z, y) {
                    // contradicts key_cmp_from(b, c, fields, j) <= 0
                } else {
                    lemma_val_unordered(x, y);
                    lemma_val_unordered(y, z);
                    if x == y || y == z {
                    } else {
                        assert(x is Composite && z is Composite);
                        lemma_val_lt_irreflexive(x);
                        lemma_val_lt_irreflexive(z);
                        assert(!val_lt(x, z) && !val_lt(z, x));
                    }
                    lemma_key_cmp_trans(a, b, c, fields, j + 1);
                }
            }
        }
    }
}

/// The key comparison depends only on the columns' declared types, not on
/// names, nullability or any other field attribute.
pub proof fn lemma_key_cmp_types_only(
    a: Seq<ValV>,
    b: Seq<ValV>,
    f1: Seq<FieldV>,
    f2: Seq<FieldV>,
    j: int,
)
    requires
        0 <= j <= f1.len(),
        f1.len() == f2.len(),
        forall|k: int| 0 <= k < f1.len() ==> (#[trigger] f1[k]).data_type == f2[k].data_type,
    ensures
        key_cmp_from(a, b, f1, j) == key_cmp_from(a, b, f2, j),
    decreases f1.len() - j,
{
    if j < f1.len() {
        lemma_key_cmp_types_only(a, b, f1, f2, j + 1);
    }
}

/// The order in which two row indices of a batch appear in the canonical
/// form: by the rows' sort key, ties by original position.
pub open spec fn row_le(bv: BatchV) -> spec_fn(int, int) -> bool {
    |i: int, j: int|
        {
            let c = key_cmp(bv.rows[i], bv.rows[j], bv.schema);
            c < 0 || (c == 0 && i <= j)
        }
}

/// The tie-breaking index order is a total ordering, whatever the batch
/// holds.
pub proof fn lemma_row_le_total(bv: BatchV)
    ensures
        total_ordering(row_le(bv)),
{
    let leq = row_le(bv);
    assert forall|i: int| #[trigger] leq(i, i) by {
        lemma_key_cmp_refl(bv.rows[i], bv.schema, 0);
    }
    assert forall|i: int, j: int| #[trigger] leq(i, j) && #[trigger] leq(j, i) implies i == j by {
        lemma_key_cmp_antisym(bv.rows[i], bv.rows[j], bv.schema, 0);
    }
    assert forall|i: int, j: int, k: int| #[trigger] leq(i, j) && #[trigger] leq(j, k) implies leq(
        i,
        k,
    ) by {
        lemma_key_cmp_antisym(bv.rows[i], bv.rows[j], bv.schema, 0);
        lemma_key_cmp_antisym(bv.rows[j], bv.rows[k], bv.schema, 0);
        lemma_key_cmp_trans(bv.rows[i], bv.rows[j], bv.rows[k], bv.schema, 0);
    }
    assert forall|i: int, j: int| !(#[trigger] leq(i, j)) implies leq(j, i) by {
        lemma_key_cmp_antisym(bv.rows[i], bv.rows[j], bv.schema, 0);
    }
}

/// The sequence `0, 1, ..., n - 1`.
pub open spec fn identity_perm(n: nat) -> Seq<int> {
    Seq::new(n, |i: int| i)
}

/// The permutation of row indices that yields the canonical order.
pub open spec fn canonical_perm(bv: BatchV) -> Seq<int> {
    identity_perm(bv.rows.len()).sort_by(row_le(bv))
}

/// The rows of the batch in canonical order.
pub open spec fn canonical_rows(bv: BatchV) -> Seq<Seq<ValV>> {
    canonical_perm(bv).map_values(|i: int| bv.rows[i])
}

/// The canonical form of a batch: the same schema, the same rows, in
/// canonical order.
pub open spec fn canonical(bv: BatchV) -> BatchV {
    BatchV { schema: bv.schema, rows: canonical_rows(bv) }
}

/// The canonical permutation is sorted, ranges over the batch's row
/// indices, and holds each of them exactly once.
pub proof fn lemma_canonical_perm_facts(bv: BatchV)
    ensures
        canonical_perm(bv).len() == bv.rows.len(),
        sorted_by(canonical_perm(bv), row_le(bv)),
        canonical_perm(bv).to_multiset() == identity_perm(bv.rows.len()).to_multiset(),
        forall|k: int|
            0 <= k < canonical_perm(bv).len() ==> 0 <= #[trigger] canonical_perm(bv)[k]
                < bv.rows.len(),
{
    broadcast use vstd::seq_lib::group_to_multiset_ensures;

    let n = bv.rows.len();
    let ident = identity_perm(n);
    let p = canonical_perm(bv);
    lemma_row_le_total(bv);
    ident.lemma_sort_by_ensures(row_le(bv));
    assert(p.to_multiset() == ident.to_multiset());
    assert(p.len() == p.to_multiset().len());
    assert(ident.len() == ident.to_multiset().len());
    assert forall|k: int| 0 <= k < p.len() implies 0 <= #[trigger] p[k] < n by {
        assert(p.contains(p[k]));
        assert(p.to_multiset().count(p[k]) > 0);
        assert(ident.contains(p[k]));
        let m = choose|m: int| 0 <= m < ident.len() && ident[m] == p[k];
        assert(ident[m] == m);
    }
}

/// The rows of a batch are weakly sorted by their keys.
pub open spec fn key_sorted(s: Seq<Seq<ValV>>, fields: Seq<FieldV>) -> bool {
    forall|k1: int, k2: int|
        0 <= k1 <= k2 < s.len() ==> #[trigger] key_cmp(s[k1], s[k2], fields) <= 0
}

/// Rows that agree on the whole sort key are equal.
pub open spec fn key_determined_rows(rows: Seq<Seq<ValV>>, fields: Seq<FieldV>) -> bool {
    forall|r1: Seq<ValV>, r2: Seq<ValV>|
        #[trigger] rows.contains(r1) && #[trigger] rows.contains(r2) && key_cmp(r1, r2, fields)
            == 0 ==> r1 == r2
}

/// The canonical form of a batch is weakly sorted by row keys.
pub proof fn lemma_canonical_sorted(bv: BatchV)
    ensures
        canonical_rows(bv).len() == bv.rows.len(),
        key_sorted(canonical_rows(bv), bv.schema),
{
    lemma_canonical_perm_facts(bv);
    let p = canonical_perm(bv);
    let cr = canonical_rows(bv);
    assert forall|k1: int, k2: int| 0 <= k1 <= k2 < cr.len() implies #[trigger] key_cmp(
        cr[k1],
        cr[k2],
        bv.schema,
    ) <= 0 by {
        if k1 == k2 {
            lemma_key_cmp_refl(cr[k1], bv.schema, 0);
        } else {
            assert(row_le(bv)(p[k1], p[k2]));
        }
    }
}

proof fn lemma_multiset_remove_cancel<A>(m1: Multiset<A>, m2: Multiset<A>, v: A)
    requires
        m1.count(v) > 0,
        m2.count(v) > 0,
        m1.remove(v) == m2.remove(v),
    ensures
        m1 == m2,
{
    broadcast use vstd::multiset::group_multiset_axioms;

    assert forall|u: A| m1.count(u) == m2.count(u) by {
        if u == v {
            assert(m1.remove(v).count(v) == m1.count(v) - 1);
            assert(m2.remove(v).count(v) == m2.count(v) - 1);
        } else {
            assert(m1.remove(v).count(u) == m1.count(u));
            assert(m2.remove(v).count(u) == m2.count(u));
        }
    }
    assert(m1 =~= m2);
}

/// Mapping a function over two sequences with equal multisets yields
/// sequences with equal multisets.
proof fn lemma_map_multiset<A, B>(f: spec_fn(A) -> B, p: Seq<A>, q: Seq<A>)
    requires
        p.to_multiset() == q.to_multiset(),
    ensures
        p.map_values(f).to_multiset() == q.map_values(f).to_multiset(),
    decreases p.len(),
{
    broadcast use vstd::seq_lib::group_to_multiset_ensures;
    broadcast use vstd::multiset::group_multiset_axioms;

    assert(p.to_multiset().len() == p.len());
    assert(q.to_multiset().len() == q.len());
    if p.len() == 0 {
        assert(q.len() == 0);
        assert(p.map_values(f) =~= Seq::<B>::empty());
        assert(q.map_values(f) =~= Seq::<B>::empty());
    } else {
        let x = p[0];
        assert(p.contains(x));
        assert(q.to_multiset().count(x) > 0);
        assert(q.contains(x));
        let m = choose|m: int| 0 <= m < q.len() && q[m] == x;
        let p1 = p.remove(0);
        let q1 = q.remove(m);
        assert(p1.to_multiset() == p.to_multiset().remove(x));
        assert(q1.to_multiset() == q.to_multiset().remove(x));
        lemma_map_multiset(f, p1, q1);
        assert(p.map_values(f).remove(0) =~= p1.map_values(f));
        assert(q.map_values(f).remove(m) =~= q1.map_values(f));
        assert(p.map_values(f)[0] == f(x));
        assert(q.map_values(f)[m] == f(x));
        assert(p.map_values(f).remove(0).to_multiset() == p.map_values(f).to_multiset().remove(
            f(x),
        ));
        assert(q.map_values(f).remove(m).to_multiset() == q.map_values(f).to_multiset().remove(
            f(x),
        ));
        assert(p.map_values(f).contains(f(x)));
        assert(q.map_values(f).contains(f(x)));
        lemma_multiset_remove_cancel(
            p.map_values(f).to_multiset(),
            q.map_values(f).to_multiset(),
            f(x),
        );
    }
}

/// The canonical form holds exactly the rows of the batch: a permutation
/// changes no row's multiplicity.
pub proof fn lemma_canonical_multiset(bv: BatchV)
    ensures
        canonical_rows(bv).to_multiset() == bv.rows.to_multiset(),
{
    lemma_canonical_perm_facts(bv);
    let n = bv.rows.len();
    let f = |i: int| bv.rows[i];
    lemma_map_multiset(f, canonical_perm(bv), identity_perm(n));
    assert(canonical_rows(bv) =~= canonical_perm(bv).map_values(f));
    assert(identity_perm(n).map_values(f) =~= bv.rows);
}

/// Canonicalization is idempotent: the canonical form of a canonical form
/// is itself.
pub proof fn lemma_canonical_idempotent(bv: BatchV)
    ensures
        canonical(canonical(bv)) == canonical(bv),
{
    let c = canonical(bv);
    let n = bv.rows.len();
    lemma_canonical_perm_facts(bv);
    lemma_canonical_sorted(bv);
    assert(c.rows.len() == n);
    lemma_row_le_total(c);
    assert(sorted_by(identity_perm(n), row_le(c))) by {
        assert forall|k1: int, k2: int| 0 <= k1 < k2 < n implies #[trigger] row_le(c)(
            identity_perm(n)[k1],
            identity_perm(n)[k2],
        ) by {
            assert(key_cmp(c.rows[k1], c.rows[k2], c.schema) <= 0);
        }
    }
    identity_perm(n).lemma_sort_by_ensures(row_le(c));
    lemma_canonical_perm_facts(c);
    lemma_sorted_unique(canonical_perm(c), identity_perm(n), row_le(c));
    assert(canonical_perm(c) == identity_perm(n));
    assert(canonical_rows(c) =~= c.rows);
    assert(canonical(c) =~= c);
}

/// Weakly key-sorted sequences with equal row multisets are equal, as long
/// as rows that agree on the whole key are equal.
pub proof fn lemma_key_sorted_unique(s1: Seq<Seq<ValV>>, s2: Seq<Seq<ValV>>, fields: Seq<FieldV>)
    requires
        s1.to_multiset() == s2.to_multiset(),
        key_sorted(s1, fields),
        key_sorted(s2, fields),
        key_determined_rows(s1, fields),
    ensures
        s1 =~= s2,
    decreases s1.len(),
{
    broadcast use vstd::seq_lib::group_to_multiset_ensures;
    broadcast use vstd::multiset::group_multiset_axioms;

    assert(s1.to_multiset().len() == s1.len());
    assert(s2.to_multiset().len() == s2.len());
    if s1.len() == 0 {
        assert(s2.len() == 0);
    } else {
        assert(s2.len() > 0);
        assert(s2.contains(s2[0]));
        assert(s1.to_multiset().count(s2[0]) > 0);
        assert(s1.contains(s2[0]));
        let i = choose|i: int| 0 <= i < s1.len() && s1[i] == s2[0];
        assert(key_cmp(s1[0], s1[i], fields) <= 0);
        assert(s1.contains(s1[0]));
        assert(s2.to_multiset().count(s1[0]) > 0);
        assert(s2.contains(s1[0]));
        let m = choose|m: int| 0 <= m < s2.len() && s2[m] == s1[0];
        assert(key_cmp(s2[0], s2[m], fields) <= 0);
        lemma_key_cmp_antisym(s1[0], s2[0], fields, 0);
        assert(key_cmp(s1[0], s2[0], fields) == 0);
        assert(s1[0] == s2[0]);
        let t1 = s1.remove(0);
        let t2 = s2.remove(0);
        assert(t1.to_multiset() == s1.to_multiset().remove(s1[0]));
        assert(t2.to_multiset() == s2.to_multiset().remove(s1[0]));
        assert(key_sorted(t1, fields)) by {
            assert forall|k1: int, k2: int| 0 <= k1 <= k2 < t1.len() implies #[trigger] key_cmp(
                t1[k1],
                t1[k2],
                fields,
            ) <= 0 by {
                assert(t1[k1] == s1[k1 + 1]);
                assert(t1[k2] == s1[k2 + 1]);
                assert(key_cmp(s1[k1 + 1], s1[k2 + 1], fields) <= 0);
            }
        }
        assert(key_sorted(t2, fields)) by {
            assert forall|k1: int, k2: int| 0 <= k1 <= k2 < t2.len() implies #[trigger] key_cmp(
                t2[k1],
                t2[k2],
                fields,
            ) <= 0 by {
                assert(t2[k1] == s2[k1 + 1]);
                assert(t2[k2] == s2[k2 + 1]);
                assert(key_cmp(s2[k1 + 1], s2[k2 + 1], fields) <= 0);
            }
        }
        assert(key_determined_rows(t1, fields)) by {
            assert forall|r1: Seq<ValV>, r2: Seq<ValV>|
                #[trigger] t1.contains(r1) && #[trigger] t1.contains(r2) && key_cmp(
                    r1,
                    r2,
                    fields,
                ) == 0 implies r1 == r2 by {
                let k1 = choose|k1: int| 0 <= k1 < t1.len() && t1[k1] == r1;
                let k2 = choose|k2: int| 0 <= k2 < t1.len() && t1[k2] == r2;
                assert(s1[k1 + 1] == r1);
                assert(s1[k2 + 1] == r2);
                assert(s1.contains(r1));
                assert(s1.contains(r2));
            }
        }
        lemma_key_sorted_unique(t1, t2, fields);
        assert forall|k: int| 0 <= k < s1.len() implies s1[k] == s2[k] by {
            if k > 0 {
                assert(t1[k - 1] == s1[k]);
                assert(t2[k - 1] == s2[k]);
            }
        }
    }
}

/// The canonical form of a well-formed batch is well-formed.
pub proof fn lemma_canonical_wf(bv: BatchV)
    requires
        bv.wf(),
    ensures
        canonical(bv).wf(),
{
    lemma_canonical_perm_facts(bv);
}

/// Canonicalization is insensitive to row order: two batches with the same
/// schema and the same multiset of rows have the same canonical form,
/// provided rows that agree on the whole sort key are equal.
pub proof fn lemma_canonical_order_insensitive(b1: BatchV, b2: BatchV)
    requires
        b2.schema == b1.schema,
        b2.rows.to_multiset() == b1.rows.to_multiset(),
        key_determined_rows(b1.rows, b1.schema),
    ensures
        canonical(b2) == canonical(b1),
{
    broadcast use vstd::seq_lib::group_to_multiset_ensures;

    lemma_canonical_multiset(b1);
    lemma_canonical_multiset(b2);
    lemma_canonical_sorted(b1);
    lemma_canonical_sorted(b2);
    let c1 = canonical_rows(b1);
    let c2 = canonical_rows(b2);
    assert(key_determined_rows(c1, b1.schema)) by {
        assert forall|r1: Seq<ValV>, r2: Seq<ValV>|
            #[trigger] c1.contains(r1) && #[trigger] c1.contains(r2) && key_cmp(r1, r2, b1.schema)
                == 0 implies r1 == r2 by {
            assert(c1.to_multiset().count(r1) > 0);
            assert(c1.to_multiset().count(r2) > 0);
            assert(b1.rows.contains(r1));
            assert(b1.rows.contains(r2));
        }
    }
    lemma_key_sorted_unique(c1, c2, b1.schema);
    assert(canonical(b1) =~= canonical(b2));
}

/// Every cell of a declared-orderable column is comparable (not a
/// composite).
pub open spec fn keys_comparable(bv: BatchV) -> bool {
    forall|i: int, j: int|
        0 <= i < bv.rows.len() && 0 <= j < bv.schema.len() && orderable(bv.schema[j].data_type)
            ==> !((#[trigger] bv.rows[i][j]) is Composite)
}

fn keys_comparable_check(b: &DataBatch) -> (r: bool)
    requires
        batch_v(*b).wf(),
    ensures
        r == keys_comparable(batch_v(*b)),
{
    let n = b.rows.len();
    let cols = b.schema.fields.len();
    let mut i: usize = 0;
    while i < n
        invariant
            i <= n,
            n == b.rows@.len(),
            cols == b.schema.fields@.len(),
            batch_v(*b).wf(),
            forall|i0: int, j0: int|
                0 <= i0 < i && 0 <= j0 < cols && orderable(batch_v(*b).schema[j0].data_type)
                    ==> !((#[trigger] batch_v(*b).rows[i0][j0]) is Composite),
        decreases n - i,
    {
        let mut j: usize = 0;
        while j < cols
            invariant
                i < n,
                j <= cols,
                n == b.rows@.len(),
                cols == b.schema.fields@.len(),
                batch_v(*b).wf(),
                forall|i0: int, j0: int|
                    0 <= i0 < i && 0 <= j0 < cols && orderable(batch_v(*b).schema[j0].data_type)
                        ==> !((#[trigger] batch_v(*b).rows[i0][j0]) is Composite),
                forall|j0: int|
                    0 <= j0 < j && orderable(batch_v(*b).schema[j0].data_type) ==> !((
                    #[trigger] batch_v(*b).rows[i as int][j0]) is Composite),
            decreases cols - j,
        {
            proof {
                assert(batch_v(*b).schema[j as int] == crate::schema::field_v(
                    b.schema.fields@[j as int],
                ));
                assert(batch_v(*b).rows[i as int] == row_v(b.rows@[i as int]));
                assert(batch_v(*b).rows[i as int][j as int] == val_v(b.rows@[i as int]@[j as int]));
            }
            if is_orderable(b.schema.fields[j].data_type) {
                let is_composite = match &b.rows[i][j] {
                    Value::Composite(_) => true,
                    _ => false,
                };
                if is_composite {
                    return false;
                }
            }
            j = j + 1;
        }
        i = i + 1;
    }
    true
}

fn row_cmp(a: &Vec<Value>, b: &Vec<Value>, schema: &Schema) -> (c: i32)
    requires
        a@.len() == schema.fields@.len(),
        b@.len() == schema.fields@.len(),
    ensures
        c as int == key_cmp(row_v(*a), row_v(*b), schema_v(*schema)),
        -1 <= c <= 1,
{
    let n = schema.fields.len();
    let mut j: usize = 0;
    while j < n
        invariant
            j <= n,
            n == schema.fields@.len(),
            a@.len() == n,
            b@.len() == n,
            key_cmp(row_v(*a), row_v(*b), schema_v(*schema)) == key_cmp_from(
                row_v(*a),
                row_v(*b),
                schema_v(*schema),
                j as int,
            ),
        decreases n - j,
    {
        proof {
            assert(schema_v(*schema)[j as int] == crate::schema::field_v(
                schema.fields@[j as int],
            ));
            assert(row_v(*a)[j as int] == val_v(a@[j as int]));
            assert(row_v(*b)[j as int] == val_v(b@[j as int]));
        }
        if is_orderable(schema.fields[j].data_type) {
            let c = val_cmp(&a[j], &b[j]);
            if c != 0 {
                return c;
            }
        }
        j = j + 1;
    }
    0
}

/// The values of an index sequence, as mathematical integers.
pub open spec fn perm_ints(p: Seq<usize>) -> Seq<int> {
    Seq::new(p.len(), |k: int| p[k] as int)
}

fn insert_position(b: &DataBatch, perm: &Vec<usize>, i: usize) -> (pos: usize)
    requires
        batch_v(*b).wf(),
        i < b.rows@.len(),
        forall|k: int| 0 <= k < perm@.len() ==> (#[trigger] perm@[k]) < b.rows@.len(),
    ensures
        pos <= perm@.len(),
        forall|k: int|
            0 <= k < pos ==> key_cmp(
                batch_v(*b).rows[#[trigger] perm@[k] as int],
                batch_v(*b).rows[i as int],
                batch_v(*b).schema,
            ) <= 0,
        pos < perm@.len() ==> key_cmp(
            batch_v(*b).rows[perm@[pos as int] as int],
            batch_v(*b).rows[i as int],
            batch_v(*b).schema,
        ) > 0,
{
    let n = perm.len();
    let mut pos: usize = 0;
    while pos < n
        invariant
            pos <= n,
            n == perm@.len(),
            batch_v(*b).wf(),
            i < b.rows@.len(),
            forall|k: int| 0 <= k < n ==> (#[trigger] perm@[k]) < b.rows@.len(),
            forall|k: int|
                0 <= k < pos ==> key_cmp(
                    batch_v(*b).rows[#[trigger] perm@[k] as int],
                    batch_v(*b).rows[i as int],
                    batch_v(*b).schema,
                ) <= 0,
        decreases n - pos,
    {
        proof {
            assert(batch_v(*b).rows[perm@[pos as int] as int] == row_v(
                b.rows@[perm@[pos as int] as int],
            ));
            assert(batch_v(*b).rows[i as int] == row_v(b.rows@[i as int]));
        }
        let c = row_cmp(&b.rows[perm[pos]], &b.rows[i], &b.schema);
        if c > 0 {
            return pos;
        }
        pos = pos + 1;
    }
    pos
}

fn canonical_permutation(b: &DataBatch) -> (perm: Vec<usize>)
    requires
        batch_v(*b).wf(),
    ensures
        perm@.len() == b.rows@.len(),
        forall|k: int| 0 <= k < perm@.len() ==> (#[trigger] perm@[k]) < b.rows@.len(),
        perm_ints(perm@) == canonical_perm(batch_v(*b)),
{
    broadcast use vstd::seq_lib::group_to_multiset_ensures;
    broadcast use vstd::multiset::group_multiset_axioms;

    let ghost bv = batch_v(*b);
    let ghost leq = row_le(bv);
    let n = b.rows.len();
    let mut perm: Vec<usize> = Vec::new();
    let mut i: usize = 0;
    while i < n
        invariant
            i <= n,
            n == b.rows@.len(),
            bv == batch_v(*b),
            leq == row_le(bv),
            batch_v(*b).wf(),
            perm@.len() == i,
            forall|k: int| 0 <= k < i ==> (#[trigger] perm@[k]) < i,
            sorted_by(perm_ints(perm@), leq),
            perm_ints(perm@).to_multiset() == identity_perm(i as nat).to_multiset(),
        decreases n - i,
    {
        let ghost old_perm = perm@;
        let pos = insert_position(b, &perm, i);
        perm.insert(pos, i);
        proof {
            broadcast use vstd::seq_lib::group_to_multiset_ensures;
            broadcast use vstd::multiset::group_multiset_axioms;

            let q = perm_ints(old_perm);
            let qn = perm_ints(perm@);
            assert(perm@ == old_perm.insert(pos as int, i));
            // Sortedness of the extended permutation.
            assert forall|k1: int, k2: int| 0 <= k1 < k2 < qn.len() implies #[trigger] leq(
                qn[k1],
                qn[k2],
            ) by {
                lemma_row_le_total(bv);
                if k1 < pos && k2 < pos {
                    assert(qn[k1] == q[k1] && qn[k2] == q[k2]);
                } else if k1 < pos && k2 == pos {
                    assert(qn[k1] == q[k1] && qn[k2] == i);
                    assert(key_cmp(bv.rows[q[k1]], bv.rows[i as int], bv.schema) <= 0);
                } else if k1 < pos && k2 > pos {
                    assert(qn[k1] == q[k1] && qn[k2] == q[k2 - 1]);
                } else if k1 == pos {
                    assert(qn[k1] == i && qn[k2] == q[k2 - 1]);
                    assert(key_cmp(bv.rows[q[pos as int]], bv.rows[i as int], bv.schema) > 0);
                    lemma_key_cmp_antisym(bv.rows[q[pos as int]], bv.rows[i as int], bv.schema, 0);
                    if k2 - 1 > pos {
                        assert(leq(q[pos as int], q[k2 - 1]));
                        lemma_key_cmp_antisym(
                            bv.rows[q[pos as int]],
                            bv.rows[q[k2 - 1]],
                            bv.schema,
                            0,
                        );
                        lemma_key_cmp_trans(
                            bv.rows[i as int],
                            bv.rows[q[pos as int]],
                            bv.rows[q[k2 - 1]],
                            bv.schema,
                            0,
                        );
                    }
                } else {
                    assert(qn[k1] == q[k1 - 1] && qn[k2] == q[k2 - 1]);
                }
            }
            // Multiset of the extended permutation.
            assert(qn.remove(pos as int) =~= q);
            assert(qn[pos as int] == i as int);
            assert(qn.remove(pos as int).to_multiset() == qn.to_multiset().remove(
                qn[pos as int],
            ));
            assert(q.to_multiset() == qn.to_multiset().remove(i as int));
            assert(qn.contains(i as int));
            assert(qn.to_multiset().count(i as int) > 0);
            assert((identity_perm(i as nat).to_multiset().insert(i as int)).remove(i as int)
                == identity_perm(i as nat).to_multiset());
            lemma_multiset_remove_cancel(
                qn.to_multiset(),
                identity_perm(i as nat).to_multiset().insert(i as int),
                i as int,
            );
            assert(identity_perm((i + 1) as nat) =~= identity_perm(i as nat).push(i as int));
            assert(identity_perm(i as nat).push(i as int).to_multiset() == identity_perm(
                i as nat,
            ).to_multiset().insert(i as int));
        }
        i = i + 1;
    }
    proof {
        lemma_row_le_total(bv);
        lemma_canonical_perm_facts(bv);
        lemma_sorted_unique(perm_ints(perm@), canonical_perm(bv), leq);
        assert(perm_ints(perm@) == canonical_perm(bv));
    }
    perm
}

/// Returns the batch with its rows in canonical order: sorted by the
/// composite key of the orderable columns, column by column in schema
/// order, ascending, nulls first, ties in their original relative order.
/// Every column — orderable or excluded — is carried by the same
/// permutation.
///
/// Fails with [`Error::SortError`] only if a declared-orderable column
/// holds a composite cell the sort routine cannot compare.
pub fn sort_record_batch(batch: DataBatch) -> (r: Result<DataBatch, Error>)
    requires
        batch_v(batch).wf(),
    ensures
        keys_comparable(batch_v(batch)) ==> (r matches Ok(c) && batch_v(c) == canonical(
            batch_v(batch),
        )),
        !keys_comparable(batch_v(batch)) ==> (r matches Err(e) && e == Error::SortError),
{
    if !keys_comparable_check(&batch) {
        return Err(Error::SortError);
    }
    let ghost bv = batch_v(batch);
    let perm = canonical_permutation(&batch);
    let n = perm.len();
    let mut rows: Vec<Vec<Value>> = Vec::new();
    let mut k: usize = 0;
    while k < n
        invariant
            k <= n,
            n == perm@.len(),
            n == batch.rows@.len(),
            bv == batch_v(batch),
            forall|j: int| 0 <= j < n ==> (#[trigger] perm@[j]) < n,
            perm_ints(perm@) == canonical_perm(bv),
            rows@.len() == k,
            forall|j: int| 0 <= j < k ==> row_v(#[trigger] rows@[j]) == bv.rows[perm@[j] as int],
        decreases n - k,
    {
        proof {
            assert(bv.rows[perm@[k as int] as int] == row_v(batch.rows@[perm@[k as int] as int]));
        }
        rows.push(clone_row(&batch.rows[perm[k]]));
        k = k + 1;
    }
    let r = DataBatch { schema: batch.schema, rows };
    proof {
        lemma_canonical_perm_facts(bv);
        assert forall|j: int| 0 <= j < n implies batch_v(r).rows[j] == canonical_rows(bv)[j] by {
            assert(batch_v(r).rows[j] == row_v(r.rows@[j]));
            assert(canonical_rows(bv)[j] == bv.rows[canonical_perm(bv)[j]]);
            assert(canonical_perm(bv)[j] == perm_ints(perm@)[j]);
        }
        assert(batch_v(r).rows =~= canonical_rows(bv));
        assert(batch_v(r) =~= canonical(bv));
    }
    Ok(r)
}

} // verus!
