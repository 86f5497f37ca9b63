use core::cmp::Ordering;
use vstd::prelude::*;

verus! {

/// `a` and `b` hold the same bytes at their first `k` places.
pub open spec fn agree_upto(a: Seq<u8>, b: Seq<u8>, k: int) -> bool {
    &&& 0 <= k <= a.len()
    &&& k <= b.len()
    &&& forall|j: int| 0 <= j < k ==> a[j] == b[j]
}

/// `a` and `b` part at place `k`, and `a` is the lesser there: it has
/// ended while `b` goes on, or it holds the smaller byte.
pub open spec fn parts_below(a: Seq<u8>, b: Seq<u8>, k: int) -> bool {
    &&& agree_upto(a, b, k)
    &&& k < b.len()
    &&& k < a.len() ==> a[k] < b[k]
}

/// `a` comes strictly before `b` in lexicographic order.
pub open spec fn lex_less(a: Seq<u8>, b: Seq<u8>) -> bool {
    exists|k: int| parts_below(a, b, k)
}

/// How `a` stands to `b` in lexicographic order.
pub open spec fn lex_order(a: Seq<u8>, b: Seq<u8>) -> Ordering {
    if lex_less(a, b) {
        Ordering::Less
    } else if lex_less(b, a) {
        Ordering::Greater
    } else {
        Ordering::Equal
    }
}

/// No sequence comes before itself.
pub proof fn lemma_lex_irreflexive(a: Seq<u8>)
    ensures
        !lex_less(a, a),
{
}

/// Of two sequences at most one comes before the other.
pub proof fn lemma_lex_asymmetric(a: Seq<u8>, b: Seq<u8>)
    requires
        lex_less(a, b),
    ensures
        !lex_less(b, a),
{
    let k = choose|k: int| parts_below(a, b, k);
    if lex_less(b, a) {
        let m = choose|m: int| parts_below(b, a, m);
        if k < m {
            assert(b[k] == a[k]);
        } else if m < k {
            assert(a[m] == b[m]);
        }
    }
}

/// Two sequences of which neither comes before the other are the same.
pub proof fn lemma_lex_total(a: Seq<u8>, b: Seq<u8>)
    requires
        !lex_less(a, b),
        !lex_less(b, a),
    ensures
        a == b,
{
    assert forall|k: int| 0 <= k <= a.len() && k <= b.len() implies agree_upto(a, b, k) by {
        lemma_agree_when_unordered(a, b, k);
    }
    let n = if a.len() <= b.len() { a.len() as int } else { b.len() as int };
    assert(agree_upto(a, b, n));
    assert(agree_upto(b, a, n));
    if a.len() < b.len() {
        assert(parts_below(a, b, n));
    } else if b.len() < a.len() {
        assert(parts_below(b, a, n));
    }
    assert(a =~= b);
}

proof fn lemma_agree_when_unordered(a: Seq<u8>, b: Seq<u8>, k: int)
    requires
        !lex_less(a, b),
        !lex_less(b, a),
        0 <= k <= a.len(),
        k <= b.len(),
    ensures
        agree_upto(a, b, k),
    decreases k,
{
    if k > 0 {
        lemma_agree_when_unordered(a, b, k - 1);
        assert(agree_upto(b, a, k - 1));
        if a[k - 1] < b[k - 1] {
            assert(parts_below(a, b, k - 1));
        } else if b[k - 1] < a[k - 1] {
            assert(parts_below(b, a, k - 1));
        }
    }
}

/// What comes before something that comes before `c` comes before `c`.
pub proof fn lemma_lex_transitive(a: Seq<u8>, b: Seq<u8>, c: Seq<u8>)
    requires
        lex_less(a, b),
        lex_less(b, c),
    ensures
        lex_less(a, c),
{
    let k = choose|k: int| parts_below(a, b, k);
    let m = choose|m: int| parts_below(b, c, m);
    let n = if k <= m { k } else { m };
    assert(parts_below(a, c, n));
}

/// The order is decided by what the sequences hold: `Equal` is given to
/// equal sequences only, and swapping the two sides swaps `Less` and
/// `Greater`.
pub proof fn lemma_lex_order_laws(a: Seq<u8>, b: Seq<u8>)
    ensures
        lex_order(a, b) == Ordering::Equal <==> a == b,
        lex_order(a, b) == Ordering::Less <==> lex_order(b, a) == Ordering::Greater,
{
    lemma_lex_irreflexive(a);
    if lex_less(a, b) {
        lemma_lex_asymmetric(a, b);
    } else if !lex_less(b, a) {
        lemma_lex_total(a, b);
    }
}

/// Finds how `a` stands to `b`: `-1` where it comes before, `1` where it
/// comes after, `0` where the two are the same.
pub fn lex_sign(a: &[u8], b: &[u8]) -> (sign: i8)
    ensures
        sign == -1 || sign == 0 || sign == 1,
        sign == -1 <==> lex_less(a@, b@),
        sign == 1 <==> lex_less(b@, a@),
        sign == 0 <==> a@ == b@,
{
    let mut i: usize = 0;
    while i < a.len() && i < b.len()
        invariant
            agree_upto(a@, b@, i as int),
        decreases a.len() - i,
    {
        if a[i] < b[i] {
            assert(parts_below(a@, b@, i as int));
            proof {
                lemma_lex_asymmetric(a@, b@);
            }
            return -1;
        }
        if a[i] > b[i] {
            assert(agree_upto(b@, a@, i as int));
            assert(parts_below(b@, a@, i as int));
            proof {
                lemma_lex_asymmetric(b@, a@);
            }
            return 1;
        }
        i += 1;
    }
    assert(agree_upto(b@, a@, i as int));
    if a.len() < b.len() {
        assert(parts_below(a@, b@, i as int));
        proof {
            lemma_lex_asymmetric(a@, b@);
        }
        -1
    } else if a.len() > b.len() {
        assert(parts_below(b@, a@, i as int));
        proof {
            lemma_lex_asymmetric(b@, a@);
        }
        1
    } else {
        assert(a@ =~= b@);
        proof {
            lemma_lex_irreflexive(a@);
        }
        0
    }
}

/// Compares two byte strings lexicographically.
pub fn compare_bytes(a: &[u8], b: &[u8]) -> (o: Ordering)
    ensures
        o == lex_order(a@, b@),
{
    let sign = lex_sign(a, b);
    if sign < 0 {
        Ordering::Less
    } else if sign > 0 {
        Ordering::Greater
    } else {
        Ordering::Equal
    }
}

} // verus!
