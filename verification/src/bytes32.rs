//! Fixed 32-byte strings: equality and byte order.

use vstd::prelude::*;

verus! {

/// Byte order on strings of equal length: `a` comes before `b` when, at the
/// first place where they differ, the byte of `a` is the smaller one.
pub open spec fn precedes(a: Seq<u8>, b: Seq<u8>) -> bool {
    exists|k: int| differs_first_at(a, b, k)
}

/// `a` and `b` agree on every place before `k`, and at `k` the byte of `a`
/// is smaller than that of `b`.
pub open spec fn differs_first_at(a: Seq<u8>, b: Seq<u8>, k: int) -> bool {
    &&& 0 <= k < a.len()
    &&& k < b.len()
    &&& a[k] < b[k]
    &&& forall|j: int| 0 <= j < k ==> a[j] == b[j]
}

/// No string comes before itself.
pub proof fn lemma_precedes_irreflexive(a: Seq<u8>)
    ensures
        !precedes(a, a),
{
}

/// Of two strings at most one comes before the other.
pub proof fn lemma_precedes_asymmetric(a: Seq<u8>, b: Seq<u8>)
    requires
        precedes(a, b),
    ensures
        !precedes(b, a),
        a != b,
{
    let k = choose|k: int| differs_first_at(a, b, k);
    if precedes(b, a) {
        let m = choose|m: int| differs_first_at(b, a, m);
        if k < m {
            assert(b[k] == a[k]);
        } else if m < k {
            assert(a[m] == b[m]);
        }
    }
}

/// Byte order is transitive.
pub proof fn lemma_precedes_transitive(a: Seq<u8>, b: Seq<u8>, c: Seq<u8>)
    requires
        precedes(a, b),
        precedes(b, c),
    ensures
        precedes(a, c),
{
    let k = choose|k: int| differs_first_at(a, b, k);
    let m = choose|m: int| differs_first_at(b, c, m);
    if k <= m {
        assert(differs_first_at(a, c, k)) by {
            if k < m {
                assert(b[k] == c[k]);
            }
        }
    } else {
        assert(a[m] == b[m]);
        assert(differs_first_at(a, c, m));
    }
}

/// Two strings of one length are equal, or one of them comes before the other.
pub proof fn lemma_precedes_total(a: Seq<u8>, b: Seq<u8>)
    requires
        a.len() == b.len(),
    ensures
        a == b || precedes(a, b) || precedes(b, a),
{
    lemma_first_difference(a, b, 0);
}

proof fn lemma_first_difference(a: Seq<u8>, b: Seq<u8>, from: int)
    requires
        a.len() == b.len(),
        0 <= from <= a.len(),
        forall|j: int| 0 <= j < from ==> a[j] == b[j],
    ensures
        a == b || precedes(a, b) || precedes(b, a),
    decreases a.len() - from,
{
    if from == a.len() {
        assert(a =~= b);
    } else if a[from] < b[from] {
        assert(differs_first_at(a, b, from));
    } else if b[from] < a[from] {
        assert(differs_first_at(b, a, from));
    } else {
        lemma_first_difference(a, b, from + 1);
    }
}

/// Whether two 32-byte strings hold the same bytes.
pub fn bytes32_eq(a: &[u8; 32], b: &[u8; 32]) -> (r: bool)
    ensures
        r == (a@ == b@),
        r == (*a == *b),
{
    let mut i: usize = 0;
    while i < 32
        invariant
            i <= 32,
            forall|j: int| 0 <= j < i ==> a@[j] == b@[j],
        decreases 32 - i,
    {
        if a[i] != b[i] {
            return false;
        }
        i += 1;
    }
    assert(a@ =~= b@);
    assert(*a =~= *b);
    true
}

/// Whether `a` comes before `b` in byte order.
pub fn bytes32_precedes(a: &[u8; 32], b: &[u8; 32]) -> (r: bool)
    ensures
        r == precedes(a@, b@),
{
    let mut i: usize = 0;
    while i < 32
        invariant
            i <= 32,
            forall|j: int| 0 <= j < i ==> a@[j] == b@[j],
        decreases 32 - i,
    {
        if a[i] < b[i] {
            assert(differs_first_at(a@, b@, i as int));
            return true;
        }
        if a[i] > b[i] {
            proof {
                assert(differs_first_at(b@, a@, i as int));
                lemma_precedes_asymmetric(b@, a@);
            }
            return false;
        }
        i += 1;
    }
    proof {
        assert(a@ =~= b@);
        lemma_precedes_irreflexive(a@);
    }
    false
}

} // verus!
