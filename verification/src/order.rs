//! Stable sorting of rows by a text key.
use vstd::prelude::*;
use crate::watcher::{lemma_lex_total, lemma_lex_transitive, lex_lt, lex_lt_exec};

verus! {

/// Whether row `i` comes before row `j`: by key, then by position.
pub open spec fn key_before(keys: Seq<Seq<char>>, i: int, j: int) -> bool {
    lex_lt(keys[i], keys[j]) || (keys[i] == keys[j] && i < j)
}

/// Whether `order` lists every row once, sorted by key with ties kept in
/// their order: the stable sort of the rows.
pub open spec fn stably_sorted(keys: Seq<Seq<char>>, order: Seq<usize>) -> bool {
    &&& order.len() == keys.len()
    &&& forall|k: int| 0 <= k < order.len() ==> #[trigger] order[k] < keys.len()
    &&& forall|a: int, b: int|
        0 <= a < b < order.len() ==> key_before(keys, #[trigger] order[a] as int, #[trigger] order[b] as int)
}

proof fn lemma_key_before_trans(keys: Seq<Seq<char>>, i: int, j: int, k: int)
    requires
        key_before(keys, i, j),
        key_before(keys, j, k),
    ensures
        key_before(keys, i, k),
{
    if lex_lt(keys[i], keys[j]) && lex_lt(keys[j], keys[k]) {
        lemma_lex_transitive(keys[i], keys[j], keys[k]);
    }
}

/// The stable sort of rows by their keys, as positions.
pub fn stable_order(keys: &Vec<Vec<char>>) -> (order: Vec<usize>)
    ensures
        stably_sorted(keys.deep_view(), order@),
{
    let ghost kv = keys.deep_view();
    proof {
        crate::text::lemma_deep_view_chars(*keys);
    }
    let n = keys.len();
    let mut order: Vec<usize> = Vec::new();
    let mut i: usize = 0;
    while i < n
        invariant
            i <= n == keys@.len() == kv.len(),
            kv == keys.deep_view(),
            forall|k: int| 0 <= k < n ==> #[trigger] kv[k] == keys@[k]@,
            order@.len() == i,
            forall|k: int| 0 <= k < order@.len() ==> #[trigger] order@[k] < i,
            forall|a: int, b: int|
                0 <= a < b < order@.len() ==> key_before(kv, #[trigger] order@[a] as int, #[trigger] order@[b] as int),
        decreases n - i,
    {
        let mut p: usize = 0;
        while p < order.len() && (lex_lt_exec(keys[order[p]].as_slice(), keys[i].as_slice())
            || crate::text::chars_eq(keys[order[p]].as_slice(), keys[i].as_slice()))
            invariant
                p <= order@.len(),
                keys@.len() == n == kv.len(),
                i < n,
                forall|k: int| 0 <= k < n ==> #[trigger] kv[k] == keys@[k]@,
                forall|k: int| 0 <= k < order@.len() ==> #[trigger] order@[k] < i,
                forall|m: int| 0 <= m < p ==> key_before(kv, #[trigger] order@[m] as int, i as int),
            decreases order@.len() - p,
        {
            p += 1;
        }
        let ghost old_order = order@;
        proof {
            if p < old_order.len() {
                let q = old_order[p as int] as int;
                assert(!key_before(kv, q, i as int));
                assert forall|m: int| p <= m < old_order.len() implies key_before(kv, i as int, #[trigger] old_order[m] as int) by {
                    let r = old_order[m] as int;
                    if kv[q] != kv[i as int] {
                        lemma_lex_total(kv[q], kv[i as int]);
                    }
                    if m > p {
                        assert(key_before(kv, q, r));
                        lemma_key_before_trans(kv, i as int, q, r);
                    }
                }
            }
        }
        order.insert(p, i);
        proof {
            assert forall|a: int, b: int| 0 <= a < b < order@.len() implies key_before(kv, #[trigger] order@[a] as int, #[trigger] order@[b] as int) by {
                if b < p {
                    assert(order@[a] == old_order[a] && order@[b] == old_order[b]);
                } else if b == p {
                    assert(order@[a] == old_order[a]);
                } else if a == p {
                    assert(order@[b] == old_order[b - 1]);
                } else if a < p {
                    assert(order@[a] == old_order[a] && order@[b] == old_order[b - 1]);
                } else {
                    assert(order@[a] == old_order[a - 1] && order@[b] == old_order[b - 1]);
                }
            }
        }
        i += 1;
    }
    order
}

/// Whether row `i` comes before row `j` in descending order of `lens`, ties
/// kept in their order.
pub open spec fn longer_before(lens: Seq<usize>, i: int, j: int) -> bool {
    lens[i] > lens[j] || (lens[i] == lens[j] && i < j)
}

/// Whether `order` lists every row once, longest first, with ties kept in
/// their order.
pub open spec fn sorted_longest_first(lens: Seq<usize>, order: Seq<usize>) -> bool {
    &&& order.len() == lens.len()
    &&& forall|k: int| 0 <= k < order.len() ==> #[trigger] order[k] < lens.len()
    &&& forall|a: int, b: int|
        0 <= a < b < order.len() ==> longer_before(lens, #[trigger] order[a] as int, #[trigger] order[b] as int)
}

/// The stable sort of rows by descending length, as positions.
pub fn longest_first(lens: &Vec<usize>) -> (order: Vec<usize>)
    ensures
        sorted_longest_first(lens@, order@),
{
    let n = lens.len();
    let mut order: Vec<usize> = Vec::new();
    let mut i: usize = 0;
    while i < n
        invariant
            i <= n == lens@.len(),
            order@.len() == i,
            forall|k: int| 0 <= k < order@.len() ==> #[trigger] order@[k] < i,
            forall|a: int, b: int|
                0 <= a < b < order@.len() ==> longer_before(lens@, #[trigger] order@[a] as int, #[trigger] order@[b] as int),
        decreases n - i,
    {
        let mut p: usize = 0;
        while p < order.len() && lens[order[p]] >= lens[i]
            invariant
                p <= order@.len(),
                lens@.len() == n,
                i < n,
                forall|k: int| 0 <= k < order@.len() ==> #[trigger] order@[k] < i,
                forall|m: int| 0 <= m < p ==> longer_before(lens@, #[trigger] order@[m] as int, i as int),
            decreases order@.len() - p,
        {
            p += 1;
        }
        let ghost old_order = order@;
        proof {
            if p < old_order.len() {
                let q = old_order[p as int] as int;
                assert forall|m: int| p <= m < old_order.len() implies longer_before(lens@, i as int, #[trigger] old_order[m] as int) by {
                    if m > p {
                        assert(longer_before(lens@, q, old_order[m] as int));
                    }
                }
            }
        }
        order.insert(p, i);
        proof {
            assert forall|a: int, b: int| 0 <= a < b < order@.len() implies longer_before(lens@, #[trigger] order@[a] as int, #[trigger] order@[b] as int) by {
                if b < p {
                    assert(order@[a] == old_order[a] && order@[b] == old_order[b]);
                } else if b == p {
                    assert(order@[a] == old_order[a]);
                } else if a == p {
                    assert(order@[b] == old_order[b - 1]);
                } else if a < p {
                    assert(order@[a] == old_order[a] && order@[b] == old_order[b - 1]);
                } else {
                    assert(order@[a] == old_order[a - 1] && order@[b] == old_order[b - 1]);
                }
            }
        }
        i += 1;
    }
    order
}

} // verus!
