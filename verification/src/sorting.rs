//! A stable ordering of byte-string keys, as a stable sort of strings by their
//! natural order gives: keys in lexicographic byte order, ties in their given
//! order.

use vstd::prelude::*;

verus! {

/// `a` comes strictly before `b` in lexicographic byte order.
pub open spec fn lex_lt(a: Seq<u8>, b: Seq<u8>) -> bool
    decreases a.len(),
{
    if a.len() == 0 {
        b.len() > 0
    } else if b.len() == 0 {
        false
    } else if a[0] < b[0] {
        true
    } else if a[0] > b[0] {
        false
    } else {
        lex_lt(a.drop_first(), b.drop_first())
    }
}

/// Exactly one of `a < b`, `b < a`, `a == b` holds.
pub proof fn lemma_lex_trichotomy(a: Seq<u8>, b: Seq<u8>)
    ensures
        lex_lt(a, b) || lex_lt(b, a) || a == b,
        !(lex_lt(a, b) && lex_lt(b, a)),
        !(lex_lt(a, b) && a == b),
    decreases a.len(),
{
    if a.len() > 0 && b.len() > 0 && a[0] == b[0] {
        lemma_lex_trichotomy(a.drop_first(), b.drop_first());
        if a.drop_first() == b.drop_first() {
            assert(a =~= seq![a[0]] + a.drop_first());
            assert(b =~= seq![b[0]] + b.drop_first());
        }
    }
    if a.len() == 0 && b.len() == 0 {
        assert(a =~= b);
    }
}

/// The order is transitive.
pub proof fn lemma_lex_transitive(a: Seq<u8>, b: Seq<u8>, c: Seq<u8>)
    requires
        lex_lt(a, b),
        lex_lt(b, c),
    ensures
        lex_lt(a, c),
    decreases a.len(),
{
    if a.len() > 0 && b.len() > 0 && c.len() > 0 && a[0] == b[0] && b[0] == c[0] {
        lemma_lex_transitive(a.drop_first(), b.drop_first(), c.drop_first());
    }
}

/// Computes `lex_lt(a, b)`.
pub fn bytes_lt(a: &[u8], b: &[u8]) -> (r: bool)
    ensures
        r == lex_lt(a@, b@),
{
    let n = a.len();
    let m = b.len();
    let mut i: usize = 0;
    assert(a@.skip(0) =~= a@);
    assert(b@.skip(0) =~= b@);
    while i < n && i < m
        invariant
            n == a@.len(),
            m == b@.len(),
            0 <= i <= n,
            i <= m,
            lex_lt(a@, b@) == lex_lt(a@.skip(i as int), b@.skip(i as int)),
        decreases n - i,
    {
        if a[i] < b[i] {
            return true;
        }
        if a[i] > b[i] {
            return false;
        }
        assert(a@.skip(i as int).drop_first() =~= a@.skip(i + 1));
        assert(b@.skip(i as int).drop_first() =~= b@.skip(i + 1));
        i = i + 1;
    }
    i < m
}

/// `order` holds each index below `n` exactly once.
pub open spec fn is_permutation(order: Seq<usize>, n: int) -> bool {
    &&& order.len() == n
    &&& forall|k: int| 0 <= k < n ==> #[trigger] order[k] < n
    &&& forall|k: int, l: int| 0 <= k < l < n ==> #[trigger] order[k] != #[trigger] order[l]
}

/// Along `order`, keys never decrease, and equal keys keep their given
/// order.
pub open spec fn stably_sorted(order: Seq<usize>, keys: Seq<Seq<u8>>) -> bool {
    forall|k: int, l: int|
        0 <= k < l < order.len() ==> !lex_lt(keys[#[trigger] order[l] as int], keys[#[trigger] order[k] as int]) && (
        keys[order[l] as int] == keys[order[k] as int] ==> order[k] < order[l])
}

/// The order in which the keys' owners are listed: by key, ties in their
/// given order.
pub fn stable_order(keys: &Vec<Vec<u8>>) -> (order: Vec<usize>)
    ensures
        is_permutation(order@, keys@.len() as int),
        stably_sorted(order@, keys@.map_values(|k: Vec<u8>| k@)),
{
    let ghost kv = keys@.map_values(|k: Vec<u8>| k@);
    let n = keys.len();
    let mut order: Vec<usize> = Vec::new();
    let mut i: usize = 0;
    while i < n
        invariant
            n == keys@.len(),
            kv == keys@.map_values(|k: Vec<u8>| k@),
            0 <= i <= n,
            order@.len() == i,
            forall|k: int| 0 <= k < i ==> #[trigger] order@[k] < i,
            forall|k: int, l: int| 0 <= k < l < i ==> #[trigger] order@[k] != #[trigger] order@[l],
            stably_sorted(order@, kv),
        decreases n - i,
    {
        // the first position whose key is strictly greater than key i
        let mut p: usize = 0;
        while p < i && !bytes_lt(keys[i].as_slice(), keys[order[p]].as_slice())
            invariant
                n == keys@.len(),
                kv == keys@.map_values(|k: Vec<u8>| k@),
                0 <= i < n,
                order@.len() == i,
                0 <= p <= i,
                forall|k: int| 0 <= k < i ==> #[trigger] order@[k] < i,
                forall|k: int| 0 <= k < p ==> !lex_lt(kv[i as int], kv[#[trigger] order@[k] as int]),
            decreases i - p,
        {
            p = p + 1;
        }
        let ghost old_order = order@;
        order.insert(p, i);
        proof {
            let o = order@;
            assert(o == old_order.insert(p as int, i));
            assert forall|k: int| 0 <= k < i + 1 implies #[trigger] o[k] < i + 1 by {
                if k < p {
                    assert(o[k] == old_order[k]);
                } else if k > p {
                    assert(o[k] == old_order[k - 1]);
                }
            }
            assert forall|k: int, l: int| 0 <= k < l < i + 1 implies #[trigger] o[k] != #[trigger] o[l] by {
                if k < p && l < p {
                    assert(old_order[k] != old_order[l]);
                } else if k < p && l > p {
                    assert(old_order[k] != old_order[l - 1]);
                } else if k > p && l > p {
                    assert(old_order[k - 1] != old_order[l - 1]);
                } else if k == p {
                    assert(o[l] == old_order[l - 1]);
                } else {
                    assert(o[k] == old_order[k]);
                }
            }
            assert forall|k: int, l: int| 0 <= k < l < o.len() implies !lex_lt(kv[#[trigger] o[l] as int], kv[#[trigger] o[k] as int])
                && (kv[o[l] as int] == kv[o[k] as int] ==> o[k] < o[l]) by {
                let ki = kv[i as int];
                if k < p && l < p {
                    assert(o[k] == old_order[k] && o[l] == old_order[l]);
                } else if k > p && l > p {
                    assert(o[k] == old_order[k - 1] && o[l] == old_order[l - 1]);
                } else if k < p && l > p {
                    assert(o[k] == old_order[k] && o[l] == old_order[l - 1]);
                } else if l == p {
                    // o[k] is an earlier key not greater than key i
                    assert(o[k] == old_order[k]);
                    assert(!lex_lt(ki, kv[old_order[k] as int]));
                    assert(old_order[k] < i);
                } else {
                    // k == p: key i is strictly below every later key
                    assert(o[l] == old_order[l - 1]);
                    let q = old_order[p as int];
                    assert(lex_lt(ki, kv[q as int]));
                    if l - 1 > p {
                        assert(!lex_lt(kv[old_order[l - 1] as int], kv[old_order[p as int] as int]));
                        lemma_lex_trichotomy(kv[old_order[l - 1] as int], kv[q as int]);
                        if lex_lt(kv[q as int], kv[old_order[l - 1] as int]) {
                            lemma_lex_transitive(ki, kv[q as int], kv[old_order[l - 1] as int]);
                        }
                    }
                    lemma_lex_trichotomy(ki, kv[o[l] as int]);
                }
            }
        }
        i = i + 1;
    }
    order
}

} // verus!
