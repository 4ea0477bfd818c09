//! Stable sorting by string keys.

use vstd::prelude::*;
use crate::text::{lemma_lex_antisym, lemma_lex_total, lemma_lex_trans, lex_le, lex_le_exec};

verus! {

/// `a` may come before `b`: in ascending order `a <= b`, in descending order `b <= a`.
pub open spec fn in_order(a: Seq<char>, b: Seq<char>, descending: bool) -> bool {
    if descending {
        lex_le(b, a)
    } else {
        lex_le(a, b)
    }
}

proof fn lemma_in_order_total(a: Seq<char>, b: Seq<char>, d: bool)
    ensures
        in_order(a, b, d) || in_order(b, a, d),
{
    lemma_lex_total(a, b);
}

proof fn lemma_in_order_trans(a: Seq<char>, b: Seq<char>, c: Seq<char>, d: bool)
    requires
        in_order(a, b, d),
        in_order(b, c, d),
    ensures
        in_order(a, c, d),
{
    if d {
        lemma_lex_trans(c, b, a);
    } else {
        lemma_lex_trans(a, b, c);
    }
}

/// `order` lists the indices of `keys` once each, so that the keys come in order
/// (ascending, or descending with `descending`) and items with equal keys keep their
/// original relative order: the order a stable sort produces.
pub open spec fn is_stable_order(keys: Seq<Seq<char>>, order: Seq<int>, descending: bool) -> bool {
    &&& order.len() == keys.len()
    &&& forall|i: int| 0 <= i < order.len() ==> 0 <= #[trigger] order[i] < keys.len()
    &&& forall|i: int, j: int| 0 <= i < j < order.len() ==> #[trigger] order[i] != #[trigger] order[j]
    &&& forall|i: int, j: int|
        0 <= i < j < order.len() ==> in_order(#[trigger] keys[order[i]], #[trigger] keys[order[j]], descending)
    &&& forall|i: int, j: int|
        0 <= i < j < order.len() && #[trigger] keys[order[i]] == #[trigger] keys[order[j]] ==> order[i] < order[j]
}

/// An order that lists `n` indices below `n` once each lists every one of them.
proof fn lemma_order_covers(order: Seq<int>, n: int, k: int)
    requires
        order.len() == n,
        forall|i: int| 0 <= i < n ==> 0 <= #[trigger] order[i] < n,
        forall|i: int, j: int| 0 <= i < j < n ==> #[trigger] order[i] != #[trigger] order[j],
        0 <= k < n,
    ensures
        exists|i: int| 0 <= i < n && order[i] == k,
{
    if !(exists|i: int| 0 <= i < n && order[i] == k) {
        assert(order.no_duplicates()) by {
            assert forall|i: int, j: int| 0 <= i < order.len() && 0 <= j < order.len() && i != j implies order[i]
                != order[j] by {
                if i < j {
                    assert(order[i] != order[j]);
                } else {
                    assert(order[j] != order[i]);
                }
            }
        }
        order.unique_seq_to_set();
        vstd::set_lib::lemma_int_range(0, n);
        let range = vstd::set_lib::set_int_range(0, n);
        assert(order.to_set().subset_of(range.remove(k))) by {
            assert forall|v: int| #[trigger] order.to_set().contains(v) implies range.remove(k).contains(v) by {
                let i = choose|i: int| 0 <= i < order.len() && order[i] == v;
                assert(0 <= order[i] < n);
            }
        }
        vstd::set_lib::lemma_len_subset(order.to_set(), range.remove(k));
        assert(range.contains(k));
        assert(false);
    }
}

/// Sorting is deterministic: for given keys there is exactly one stable order, so a
/// stable sort places equal inputs identically every time.
pub proof fn law_stable_order_is_unique(keys: Seq<Seq<char>>, a: Seq<int>, b: Seq<int>, descending: bool)
    requires
        is_stable_order(keys, a, descending),
        is_stable_order(keys, b, descending),
    ensures
        a == b,
{
    let n = keys.len() as int;
    assert forall|i: int| 0 <= i < n implies a[i] == b[i] by {
        lemma_stable_orders_agree(keys, a, b, descending, i);
    }
    assert(a =~= b);
}

/// Two stable orders of the same keys agree at every position (induction on the position).
proof fn lemma_stable_orders_agree(keys: Seq<Seq<char>>, a: Seq<int>, b: Seq<int>, d: bool, i: int)
    requires
        is_stable_order(keys, a, d),
        is_stable_order(keys, b, d),
        0 <= i < keys.len(),
    ensures
        a[i] == b[i],
    decreases i,
{
    let n = keys.len() as int;
    assert forall|t: int| 0 <= t < i implies a[t] == b[t] by {
        lemma_stable_orders_agree(keys, a, b, d, t);
    }
    let (x, y) = (a[i], b[i]);
    if x != y {
        assert(0 <= y < n && 0 <= x < n);
        lemma_order_covers(a, n, y);
        lemma_order_covers(b, n, x);
        let j = choose|j: int| 0 <= j < n && a[j] == y;
        let k = choose|k: int| 0 <= k < n && b[k] == x;
        if j < i {
            assert(b[j] == y);
            assert(b[j] != b[i]);
        }
        if k < i {
            assert(a[k] == x);
            assert(a[k] != a[i]);
        }
        assert(j > i && k > i);
        assert(in_order(keys[a[i]], keys[a[j]], d));
        assert(in_order(keys[b[i]], keys[b[k]], d));
        lemma_lex_antisym(keys[x], keys[y]);
        assert(keys[a[i]] == keys[a[j]]);
        assert(a[i] < a[j]);
        assert(keys[b[i]] == keys[b[k]]);
        assert(b[i] < b[k]);
    }
}

/// The order in which a stable sort by `keys` places the items (see [`is_stable_order`]).
pub fn stable_order(keys: &Vec<Vec<char>>, descending: bool) -> (order: Vec<usize>)
    ensures
        is_stable_order(keys@.map_values(|k: Vec<char>| k@), order@.map_values(|i: usize| i as int), descending),
{
    let ghost ks = keys@.map_values(|k: Vec<char>| k@);
    let mut order: Vec<usize> = Vec::new();
    let mut n: usize = 0;
    while n < keys.len()
        invariant
            ks == keys@.map_values(|k: Vec<char>| k@),
            n <= keys@.len(),
            order@.len() == n,
            forall|i: int| 0 <= i < order@.len() ==> #[trigger] order@[i] < n,
            forall|i: int, j: int| 0 <= i < j < order@.len() ==> #[trigger] order@[i] != #[trigger] order@[j],
            forall|i: int, j: int|
                0 <= i < j < order@.len() ==> in_order(
                    #[trigger] ks[order@[i] as int],
                    #[trigger] ks[order@[j] as int],
                    descending,
                ),
            forall|i: int, j: int|
                0 <= i < j < order@.len() && #[trigger] ks[order@[i] as int] == #[trigger] ks[order@[j] as int]
                    ==> order@[i] < order@[j],
        decreases keys@.len() - n,
    {
        let mut pos: usize = 0;
        while pos < order.len()
            invariant
                ks == keys@.map_values(|k: Vec<char>| k@),
                n < keys@.len(),
                pos <= order@.len(),
                forall|i: int| 0 <= i < order@.len() ==> #[trigger] order@[i] < n,
                forall|i: int| 0 <= i < pos ==> in_order(#[trigger] ks[order@[i] as int], ks[n as int], descending),
            ensures
                pos <= order@.len(),
                forall|i: int| 0 <= i < pos ==> in_order(#[trigger] ks[order@[i] as int], ks[n as int], descending),
                pos < order@.len() ==> !in_order(ks[order@[pos as int] as int], ks[n as int], descending),
            decreases order@.len() - pos,
        {
            let k = order[pos];
            let fits = if descending {
                lex_le_exec(&keys[n], &keys[k])
            } else {
                lex_le_exec(&keys[k], &keys[n])
            };
            if !fits {
                break;
            }
            pos = pos + 1;
        }
        let ghost old_order = order@;
        order.insert(pos, n);
        proof {
            let new_key = ks[n as int];
            if pos < old_order.len() {
                let first = ks[old_order[pos as int] as int];
                assert(!in_order(first, new_key, descending));
                lemma_in_order_total(first, new_key, descending);
            }
            assert forall|i: int| 0 <= i < order@.len() implies #[trigger] order@[i] < n + 1 by {
                if i < pos {
                    assert(order@[i] == old_order[i]);
                } else if i > pos {
                    assert(order@[i] == old_order[i - 1]);
                }
            }
            assert forall|i: int, j: int| 0 <= i < j < order@.len() implies #[trigger] order@[i]
                != #[trigger] order@[j] by {
                if i < pos && j < pos {
                    assert(old_order[i] != old_order[j]);
                } else if i > pos && j > pos {
                    assert(old_order[i - 1] != old_order[j - 1]);
                } else if i < pos && j > pos {
                    assert(old_order[i] != old_order[j - 1]);
                }
            }
            assert forall|i: int, j: int| 0 <= i < j < order@.len() implies in_order(
                #[trigger] ks[order@[i] as int],
                #[trigger] ks[order@[j] as int],
                descending,
            ) by {
                if i < pos && j < pos {
                    assert(in_order(ks[old_order[i] as int], ks[old_order[j] as int], descending));
                } else if i > pos && j > pos {
                    assert(in_order(ks[old_order[i - 1] as int], ks[old_order[j - 1] as int], descending));
                } else if i < pos && j > pos {
                    assert(in_order(ks[old_order[i] as int], ks[old_order[j - 1] as int], descending));
                } else if i == pos {
                    let first = ks[old_order[pos as int] as int];
                    if j - 1 > pos {
                        assert(in_order(first, ks[old_order[j - 1] as int], descending));
                        lemma_in_order_trans(new_key, first, ks[old_order[j - 1] as int], descending);
                    }
                } else {
                    assert(in_order(ks[old_order[i] as int], new_key, descending));
                }
            }
            assert forall|i: int, j: int|
                0 <= i < j < order@.len() && #[trigger] ks[order@[i] as int] == #[trigger] ks[order@[j] as int]
                    implies order@[i] < order@[j] by {
                if i < pos && j < pos {
                    assert(ks[old_order[i] as int] == ks[old_order[j] as int]);
                } else if i > pos && j > pos {
                    assert(ks[old_order[i - 1] as int] == ks[old_order[j - 1] as int]);
                } else if i < pos && j > pos {
                    assert(ks[old_order[i] as int] == ks[old_order[j - 1] as int]);
                } else if i == pos {
                    let first = ks[old_order[pos as int] as int];
                    let other = ks[old_order[j - 1] as int];
                    if j - 1 > pos {
                        assert(in_order(first, other, descending));
                    }
                    assert(in_order(first, other, descending));
                    assert(!in_order(first, new_key, descending));
                    assert(false);
                } else {
                    assert(old_order[i] < n);
                }
            }
        }
        n = n + 1;
    }
    proof {
        let om = order@.map_values(|i: usize| i as int);
        assert forall|i: int| 0 <= i < om.len() implies 0 <= #[trigger] om[i] < ks.len() by {
            assert(order@[i] < n);
        }
        assert forall|i: int, j: int| 0 <= i < j < om.len() implies #[trigger] om[i] != #[trigger] om[j] by {
            assert(order@[i] != order@[j]);
        }
        assert forall|i: int, j: int| 0 <= i < j < om.len() implies in_order(
            #[trigger] ks[om[i]],
            #[trigger] ks[om[j]],
            descending,
        ) by {
            assert(in_order(ks[order@[i] as int], ks[order@[j] as int], descending));
        }
        assert forall|i: int, j: int|
            0 <= i < j < om.len() && #[trigger] ks[om[i]] == #[trigger] ks[om[j]] implies om[i] < om[j] by {
            assert(ks[order@[i] as int] == ks[order@[j] as int]);
        }
    }
    order
}

} // verus!
