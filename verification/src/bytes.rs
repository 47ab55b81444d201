//! Byte strings of fixed length: equality and the lexicographic order.

use vstd::prelude::*;

verus! {

/// `a` comes strictly before `b` in the lexicographic order of byte strings
/// of one length: at the first place where the two differ, `a` holds the
/// smaller byte.
pub open spec fn lex_lt(a: Seq<u8>, b: Seq<u8>) -> bool {
    exists|k: int| first_difference(a, b, k) && a[k] < b[k]
}

/// `k` is the first place at which `a` and `b` hold different bytes.
pub open spec fn first_difference(a: Seq<u8>, b: Seq<u8>, k: int) -> bool {
    &&& 0 <= k < a.len()
    &&& k < b.len()
    &&& a[k] != b[k]
    &&& forall|j: int| 0 <= j < k ==> a[j] == b[j]
}

/// Two strings have at most one first difference.
pub proof fn lemma_first_difference_is_one(a: Seq<u8>, b: Seq<u8>, k: int, m: int)
    requires
        first_difference(a, b, k),
        first_difference(a, b, m),
    ensures
        k == m,
{
    if k < m {
        assert(a[k] == b[k]);
    }
    if m < k {
        assert(a[m] == b[m]);
    }
}

/// Nothing comes before itself, and of two strings at most one comes before
/// the other.
pub proof fn lemma_lex_lt_asymmetric(a: Seq<u8>, b: Seq<u8>)
    ensures
        !lex_lt(a, a),
        !(lex_lt(a, b) && lex_lt(b, a)),
{
    if lex_lt(a, b) && lex_lt(b, a) {
        let k = choose|k: int| first_difference(a, b, k) && a[k] < b[k];
        let m = choose|m: int| first_difference(b, a, m) && b[m] < a[m];
        assert(first_difference(a, b, m));
        lemma_first_difference_is_one(a, b, k, m);
    }
}

/// The order is transitive on strings of one length.
pub proof fn lemma_lex_lt_transitive(a: Seq<u8>, b: Seq<u8>, c: Seq<u8>)
    requires
        a.len() == b.len(),
        b.len() == c.len(),
        lex_lt(a, b),
        lex_lt(b, c),
    ensures
        lex_lt(a, c),
{
    let k = choose|k: int| first_difference(a, b, k) && a[k] < b[k];
    let m = choose|m: int| first_difference(b, c, m) && b[m] < c[m];
    let n = if k <= m {
        k
    } else {
        m
    };
    assert forall|j: int| 0 <= j < n implies a[j] == c[j] by {
        assert(a[j] == b[j]);
        assert(b[j] == c[j]);
    }
    if k < m {
        assert(b[k] == c[k]);
    }
    if m < k {
        assert(a[m] == b[m]);
    }
    assert(first_difference(a, c, n) && a[n] < c[n]);
}

/// Of two different strings of one length, one comes before the other.
pub proof fn lemma_lex_lt_total(a: Seq<u8>, b: Seq<u8>)
    requires
        a.len() == b.len(),
    ensures
        a == b || lex_lt(a, b) || lex_lt(b, a),
{
    lemma_differ_from(a, b, 0);
}

/// Two strings that agree before place `k` are equal or differ first at some
/// later place.
proof fn lemma_differ_from(a: Seq<u8>, b: Seq<u8>, k: int)
    requires
        a.len() == b.len(),
        0 <= k <= a.len(),
        forall|j: int| 0 <= j < k ==> a[j] == b[j],
    ensures
        a == b || lex_lt(a, b) || lex_lt(b, a),
    decreases a.len() - k,
{
    if k == a.len() {
        assert(a =~= b);
    } else if a[k] != b[k] {
        assert(first_difference(a, b, k));
        assert(first_difference(b, a, k));
    } else {
        lemma_differ_from(a, b, k + 1);
    }
}

/// Tells whether two arrays hold the same bytes.
pub fn array_eq<const N: usize>(a: &[u8; N], b: &[u8; N]) -> (same: bool)
    ensures
        same == (*a == *b),
        same == (a@ == b@),
{
    let mut i: usize = 0;
    while i < N
        invariant
            0 <= i <= N,
            forall|j: int| 0 <= j < i ==> a[j] == b[j],
        decreases N - i,
    {
        if a[i] != b[i] {
            assert(a@[i as int] != b@[i as int]);
            return false;
        }
        i += 1;
    }
    assert(*a =~= *b);
    true
}

/// Tells whether `a` comes strictly before `b` in the lexicographic order.
pub fn array_lt<const N: usize>(a: &[u8; N], b: &[u8; N]) -> (before: bool)
    ensures
        before == lex_lt(a@, b@),
        !before ==> (*a == *b || lex_lt(b@, a@)),
{
    let mut i: usize = 0;
    while i < N
        invariant
            0 <= i <= N,
            forall|j: int| 0 <= j < i ==> a@[j] == b@[j],
        decreases N - i,
    {
        if a[i] != b[i] {
            proof {
                assert(first_difference(a@, b@, i as int));
                assert(first_difference(b@, a@, i as int));
                lemma_lex_lt_asymmetric(a@, b@);
            }
            return a[i] < b[i];
        }
        i += 1;
    }
    proof {
        assert(*a =~= *b);
        lemma_lex_lt_asymmetric(a@, b@);
    }
    false
}

} // verus!
