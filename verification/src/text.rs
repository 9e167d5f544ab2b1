//! Lexicographic ordering and equality for character sequences.
//!
//! Locations and names are compared by code point, which for valid UTF-8
//! coincides with byte ordering of the encoded text.

use vstd::prelude::*;

verus! {

/// Strict lexicographic order on character sequences, by code point.
pub open spec fn chars_lt(a: Seq<char>, b: Seq<char>) -> bool
    decreases a.len(),
{
    if b.len() == 0 {
        false
    } else if a.len() == 0 {
        true
    } else if a[0] == b[0] {
        chars_lt(a.drop_first(), b.drop_first())
    } else {
        (a[0] as u32) < (b[0] as u32)
    }
}

/// Non-strict lexicographic order on character sequences.
pub open spec fn chars_le(a: Seq<char>, b: Seq<char>) -> bool {
    chars_lt(a, b) || a == b
}

/// A non-empty sequence is its first element followed by the rest.
proof fn lemma_head_tail(a: Seq<char>)
    requires
        a.len() > 0,
    ensures
        a =~= seq![a[0]] + a.drop_first(),
{
}

pub proof fn lemma_chars_lt_irreflexive(a: Seq<char>)
    ensures
        !chars_lt(a, a),
    decreases a.len(),
{
    if a.len() > 0 {
        lemma_chars_lt_irreflexive(a.drop_first());
    }
}

pub proof fn lemma_chars_lt_asymmetric(a: Seq<char>, b: Seq<char>)
    requires
        chars_lt(a, b),
    ensures
        !chars_lt(b, a),
    decreases a.len(),
{
    if a.len() > 0 && b.len() > 0 && a[0] == b[0] {
        lemma_chars_lt_asymmetric(a.drop_first(), b.drop_first());
    }
}

pub proof fn lemma_chars_lt_connected(a: Seq<char>, b: Seq<char>)
    requires
        a != b,
    ensures
        chars_lt(a, b) || chars_lt(b, a),
    decreases a.len(),
{
    if a.len() == 0 && b.len() == 0 {
        assert(a =~= b);
    } else if a.len() > 0 && b.len() > 0 && a[0] == b[0] {
        if a.drop_first() == b.drop_first() {
            lemma_head_tail(a);
            lemma_head_tail(b);
            assert(a == b);
        } else {
            lemma_chars_lt_connected(a.drop_first(), b.drop_first());
        }
    } else if a.len() > 0 && b.len() > 0 {
        vstd::utf8::char_u32_cast(a[0], a[0] as u32);
        vstd::utf8::char_u32_cast(b[0], b[0] as u32);
        assert((a[0] as u32) != (b[0] as u32));
    }
}

pub proof fn lemma_chars_lt_transitive(a: Seq<char>, b: Seq<char>, c: Seq<char>)
    requires
        chars_lt(a, b),
        chars_lt(b, c),
    ensures
        chars_lt(a, c),
    decreases a.len(),
{
    if a.len() > 0 && b.len() > 0 && c.len() > 0 {
        if a[0] == b[0] && b[0] == c[0] {
            lemma_chars_lt_transitive(a.drop_first(), b.drop_first(), c.drop_first());
        }
    }
}

/// Three-way comparison of two text values; negative, zero or positive as
/// `a` is lexicographically below, equal to or above `b`.
pub fn str_cmp(a: &str, b: &str) -> (c: i32)
    ensures
        c < 0 <==> chars_lt(a@, b@),
        c > 0 <==> chars_lt(b@, a@),
        c == 0 <==> a@ == b@,
{
    let a_len = a.unicode_len();
    let b_len = b.unicode_len();
    let mut i: usize = 0;
    loop
        invariant
            i <= a_len,
            i <= b_len,
            a_len == a@.len(),
            b_len == b@.len(),
            a@.subrange(0, i as int) =~= b@.subrange(0, i as int),
        decreases a_len - i,
    {
        proof {
            lemma_chars_cmp_step(a@, b@, i as int);
            lemma_chars_lt_irreflexive(a@);
            if chars_lt(a@, b@) {
                lemma_chars_lt_asymmetric(a@, b@);
            }
            if chars_lt(b@, a@) {
                lemma_chars_lt_asymmetric(b@, a@);
            }
        }
        if i == a_len || i == b_len {
            if a_len == b_len {
                proof {
                    assert(a@ =~= b@);
                }
                return 0;
            } else if a_len < b_len {
                return -1;
            } else {
                return 1;
            }
        }
        let ca = a.get_char(i);
        let cb = b.get_char(i);
        if ca as u32 != cb as u32 {
            if (ca as u32) < (cb as u32) {
                return -1;
            } else {
                return 1;
            }
        }
        proof {
            assert(a@.subrange(0, i + 1) =~= a@.subrange(0, i as int).push(a@[i as int]));
            assert(b@.subrange(0, i + 1) =~= b@.subrange(0, i as int).push(b@[i as int]));
        }
        i = i + 1;
    }
}

/// When `a` and `b` agree on their first `i` characters, their order is
/// decided at position `i`.
proof fn lemma_chars_cmp_step(a: Seq<char>, b: Seq<char>, i: int)
    requires
        0 <= i <= a.len(),
        0 <= i <= b.len(),
        a.subrange(0, i) == b.subrange(0, i),
    ensures
        i == a.len() && i == b.len() ==> a == b,
        i == a.len() && i < b.len() ==> chars_lt(a, b),
        i == b.len() && i < a.len() ==> chars_lt(b, a),
        i < a.len() && i < b.len() && (a[i] as u32) < (b[i] as u32) ==> chars_lt(a, b),
        i < a.len() && i < b.len() && (b[i] as u32) < (a[i] as u32) ==> chars_lt(b, a),
    decreases i,
{
    if i == 0 {
        if a.len() == 0 && b.len() == 0 {
            assert(a =~= b);
        }
    } else {
        assert(a[0] == a.subrange(0, i)[0]);
        assert(b[0] == b.subrange(0, i)[0]);
        assert(a.drop_first().subrange(0, i - 1) =~= a.subrange(0, i).drop_first());
        assert(b.drop_first().subrange(0, i - 1) =~= b.subrange(0, i).drop_first());
        lemma_chars_cmp_step(a.drop_first(), b.drop_first(), i - 1);
        if i == a.len() && i == b.len() {
            assert(a.drop_first() == b.drop_first());
            lemma_head_tail(a);
            lemma_head_tail(b);
        }
        if i < a.len() {
            assert(a.drop_first()[i - 1] == a[i]);
        }
        if i < b.len() {
            assert(b.drop_first()[i - 1] == b[i]);
        }
    }
}

/// Whether the character sequence `suffix` ends `whole`.
pub fn str_ends_with(whole: &str, suffix: &str) -> (r: bool)
    ensures
        r == suffix@.is_suffix_of(whole@),
{
    let w_len = whole.unicode_len();
    let s_len = suffix.unicode_len();
    if s_len > w_len {
        return false;
    }
    let offset = w_len - s_len;
    let mut i: usize = 0;
    while i < s_len
        invariant
            i <= s_len,
            s_len <= w_len,
            offset == w_len - s_len,
            w_len == whole@.len(),
            s_len == suffix@.len(),
            forall|j: int| 0 <= j < i ==> whole@[offset + j] == suffix@[j],
        decreases s_len - i,
    {
        let cw = whole.get_char(offset + i);
        let cs = suffix.get_char(i);
        if cw as u32 != cs as u32 {
            assert(!suffix@.is_suffix_of(whole@)) by {
                if suffix@.is_suffix_of(whole@) {
                    assert(suffix@[i as int] == whole@.subrange(
                        offset as int,
                        w_len as int,
                    )[i as int]);
                }
            }
            return false;
        }
        i = i + 1;
    }
    assert(suffix@ =~= whole@.subrange(offset as int, w_len as int));
    true
}

} // verus!
