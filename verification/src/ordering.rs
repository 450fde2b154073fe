//! Stable ordering of positions by pairs of integer keys (compared
//! lexicographically): the order that std's stable
//! `sort_by` and `sort_by_key` give, stated as insertion of each position
//! after every earlier position whose key is not greater.
use vstd::prelude::*;

verus! {

/// Lexicographic order on pairs of keys.
pub open spec fn key_le(a: (i128, i128), b: (i128, i128)) -> bool {
    a.0 < b.0 || (a.0 == b.0 && a.1 <= b.1)
}

fn key_le_exec(a: (i128, i128), b: (i128, i128)) -> (r: bool)
    ensures
        r == key_le(a, b),
{
    a.0 < b.0 || (a.0 == b.0 && a.1 <= b.1)
}

/// `sorted` with position `i` inserted after the last entry whose key is not
/// greater than the key of `i`.
pub open spec fn insert_position(sorted: Seq<usize>, i: usize, keys: Seq<(i128, i128)>) -> Seq<usize>
    decreases sorted.len(),
{
    if sorted.len() == 0 {
        seq![i]
    } else if key_le(keys[sorted.last() as int], keys[i as int]) {
        sorted.push(i)
    } else {
        insert_position(sorted.drop_last(), i, keys).push(sorted.last())
    }
}

/// Positions `0..n` ordered by `keys`, equal keys in position order.
pub open spec fn stable_order_prefix(keys: Seq<(i128, i128)>, n: nat) -> Seq<usize>
    decreases n,
{
    if n == 0 {
        seq![]
    } else {
        insert_position(stable_order_prefix(keys, (n - 1) as nat), (n - 1) as usize, keys)
    }
}

/// Positions of `keys` ordered by key, equal keys in position order.
pub open spec fn stable_order(keys: Seq<(i128, i128)>) -> Seq<usize> {
    stable_order_prefix(keys, keys.len())
}

/// `o` lists every position below `n` exactly once.
pub open spec fn is_permutation_of_range(o: Seq<usize>, n: nat) -> bool {
    &&& o.len() == n
    &&& forall|a: int| 0 <= a < o.len() ==> o[a] < n
    &&& forall|a: int, b: int| 0 <= a < b < o.len() ==> o[a] != o[b]
}

/// Keys along `o` never decrease, and equal keys keep their positions' order.
pub open spec fn is_stably_sorted(o: Seq<usize>, keys: Seq<(i128, i128)>) -> bool {
    &&& forall|a: int, b: int|
        0 <= a < b < o.len() ==> key_le(keys[o[a] as int], keys[o[b] as int])
    &&& forall|a: int, b: int|
        0 <= a < b < o.len() && keys[o[a] as int] == keys[o[b] as int] ==> o[a] < o[b]
}

proof fn lemma_insert_split(sorted: Seq<usize>, i: usize, keys: Seq<(i128, i128)>, j: int)
    requires
        0 <= j <= sorted.len(),
        forall|k: int| j <= k < sorted.len() ==> !key_le(keys[sorted[k] as int], keys[i as int]),
        j > 0 ==> key_le(keys[sorted[j - 1] as int], keys[i as int]),
    ensures
        insert_position(sorted, i, keys) == sorted.take(j) + seq![i] + sorted.skip(j),
    decreases sorted.len(),
{
    if sorted.len() == 0 {
        assert(sorted.take(j) + seq![i] + sorted.skip(j) =~= seq![i]);
    } else if key_le(keys[sorted.last() as int], keys[i as int]) {
        assert(j == sorted.len());
        assert(sorted.take(j) + seq![i] + sorted.skip(j) =~= sorted.push(i));
    } else {
        let s2 = sorted.drop_last();
        lemma_insert_split(s2, i, keys, j);
        assert(s2.take(j) + seq![i] + s2.skip(j) + seq![sorted.last()] =~= sorted.take(j) + seq![i]
            + sorted.skip(j));
    }
}

proof fn lemma_insert_properties(sorted: Seq<usize>, i: usize, keys: Seq<(i128, i128)>, n: nat)
    requires
        is_permutation_of_range(sorted, n),
        is_stably_sorted(sorted, keys),
        i == n,
        n < keys.len(),
    ensures
        is_permutation_of_range(insert_position(sorted, i, keys), n + 1),
        is_stably_sorted(insert_position(sorted, i, keys), keys),
        insert_position(sorted, i, keys).contains(i),
        forall|k: usize| sorted.contains(k) ==> #[trigger] insert_position(sorted, i, keys).contains(k),
{
    let j = choose_split(sorted, i, keys);
    lemma_choose_split(sorted, i, keys);
    lemma_insert_split(sorted, i, keys, j);
    let r = insert_position(sorted, i, keys);
    assert(r == sorted.take(j) + seq![i] + sorted.skip(j));
    assert(r.len() == n + 1);
    assert forall|a: int| 0 <= a < r.len() implies r[a] < n + 1 by {
        if a < j {
            assert(r[a] == sorted[a]);
        } else if a > j {
            assert(r[a] == sorted[a - 1]);
        }
    }
    assert forall|a: int, b: int| 0 <= a < b < r.len() implies r[a] != r[b] by {
        if a < j && b < j {
            assert(r[a] == sorted[a] && r[b] == sorted[b]);
        } else if a < j && b == j {
            assert(r[a] == sorted[a]);
        } else if a < j && b > j {
            assert(r[a] == sorted[a] && r[b] == sorted[b - 1]);
        } else if a == j {
            assert(r[b] == sorted[b - 1]);
        } else {
            assert(r[a] == sorted[a - 1] && r[b] == sorted[b - 1]);
        }
    }
    assert forall|a: int, b: int| 0 <= a < b < r.len() implies key_le(keys[r[a] as int], keys[r[b]
        as int]) by {
        if a < j && b < j {
            assert(r[a] == sorted[a] && r[b] == sorted[b]);
        } else if a < j && b == j {
            assert(r[a] == sorted[a]);
            if a < j - 1 {
                assert(key_le(keys[sorted[a] as int], keys[sorted[j - 1] as int]));
            }
        } else if a < j && b > j {
            assert(r[a] == sorted[a] && r[b] == sorted[b - 1]);
        } else if a == j {
            assert(r[b] == sorted[b - 1]);
        } else {
            assert(r[a] == sorted[a - 1] && r[b] == sorted[b - 1]);
        }
    }
    assert(r[j] == i);
    assert forall|k: usize| sorted.contains(k) implies #[trigger] r.contains(k) by {
        let a = choose|a: int| 0 <= a < sorted.len() && sorted[a] == k;
        if a < j {
            assert(r[a] == k);
        } else {
            assert(r[a + 1] == k);
        }
    }
    assert forall|a: int, b: int|
        0 <= a < b < r.len() && keys[r[a] as int] == keys[r[b] as int] implies r[a] < r[b] by {
        if a < j && b < j {
            assert(r[a] == sorted[a] && r[b] == sorted[b]);
        } else if a < j && b == j {
            assert(r[a] == sorted[a]);
        } else if a < j && b > j {
            assert(r[a] == sorted[a] && r[b] == sorted[b - 1]);
        } else if a == j {
            assert(r[b] == sorted[b - 1]);
        } else {
            assert(r[a] == sorted[a - 1] && r[b] == sorted[b - 1]);
        }
    }
}

/// The place where `i` goes in `sorted`: after the last entry whose key is
/// not greater than the key of `i`.
spec fn choose_split(sorted: Seq<usize>, i: usize, keys: Seq<(i128, i128)>) -> int
    decreases sorted.len(),
{
    if sorted.len() == 0 {
        0
    } else if key_le(keys[sorted.last() as int], keys[i as int]) {
        sorted.len() as int
    } else {
        choose_split(sorted.drop_last(), i, keys)
    }
}

proof fn lemma_choose_split(sorted: Seq<usize>, i: usize, keys: Seq<(i128, i128)>)
    requires
        is_stably_sorted(sorted, keys),
    ensures
        0 <= choose_split(sorted, i, keys) <= sorted.len(),
        forall|k: int|
            choose_split(sorted, i, keys) <= k < sorted.len() ==> !key_le(
                keys[sorted[k] as int],
                keys[i as int],
            ),
        choose_split(sorted, i, keys) > 0 ==> key_le(keys[sorted[choose_split(sorted, i, keys) - 1]
            as int], keys[i as int]),
    decreases sorted.len(),
{
    if sorted.len() == 0 {
    } else if key_le(keys[sorted.last() as int], keys[i as int]) {
    } else {
        let s2 = sorted.drop_last();
        assert forall|a: int, b: int| 0 <= a < b < s2.len() implies key_le(keys[s2[a] as int],
            keys[s2[b] as int]) by {
            assert(s2[a] == sorted[a] && s2[b] == sorted[b]);
        }
        assert forall|a: int, b: int|
            0 <= a < b < s2.len() && keys[s2[a] as int] == keys[s2[b] as int] implies s2[a]
            < s2[b] by {
            assert(s2[a] == sorted[a] && s2[b] == sorted[b]);
        }
        lemma_choose_split(s2, i, keys);
        assert forall|k: int|
            choose_split(sorted, i, keys) <= k < sorted.len() implies !key_le(keys[sorted[k] as int],
            keys[i as int]) by {
            if k < sorted.len() - 1 {
                assert(s2[k] == sorted[k]);
            }
        }
    }
}

/// The stable order of positions `0..n` lists each once and is stably sorted.
pub proof fn lemma_stable_order_prefix(keys: Seq<(i128, i128)>, n: nat)
    requires
        n <= keys.len() <= usize::MAX,
    ensures
        is_permutation_of_range(stable_order_prefix(keys, n), n),
        is_stably_sorted(stable_order_prefix(keys, n), keys),
        forall|k: usize| k < n ==> #[trigger] stable_order_prefix(keys, n).contains(k),
    decreases n,
{
    if n > 0 {
        let prev = stable_order_prefix(keys, (n - 1) as nat);
        lemma_stable_order_prefix(keys, (n - 1) as nat);
        lemma_choose_split(prev, (n - 1) as usize, keys);
        lemma_insert_properties(prev, (n - 1) as usize, keys, (n - 1) as nat);
        assert forall|k: usize| k < n implies #[trigger] stable_order_prefix(keys, n).contains(k) by {
            if k < n - 1 {
                assert(prev.contains(k));
            }
        }
    }
}

/// The stable order of all positions lists each once and is stably sorted.
pub proof fn lemma_stable_order(keys: Seq<(i128, i128)>)
    requires
        keys.len() <= usize::MAX,
    ensures
        is_permutation_of_range(stable_order(keys), keys.len()),
        is_stably_sorted(stable_order(keys), keys),
        forall|k: usize| k < keys.len() ==> #[trigger] stable_order(keys).contains(k),
{
    lemma_stable_order_prefix(keys, keys.len());
}

/// Positions of `keys` ordered by key, equal keys in position order.
pub fn stable_order_exec(keys: &Vec<(i128, i128)>) -> (r: Vec<usize>)
    ensures
        r@ == stable_order(keys@),
{
    let n = keys.len();
    let mut out: Vec<usize> = Vec::new();
    let mut i: usize = 0;
    while i < n
        invariant
            n == keys.len(),
            i <= n,
            out@ == stable_order_prefix(keys@, i as nat),
        decreases n - i,
    {
        proof {
            lemma_stable_order_prefix(keys@, i as nat);
        }
        let ghost before = out@;
        let mut j: usize = out.len();
        while j > 0 && !key_le_exec(keys[out[j - 1]], keys[i])
            invariant
                n == keys.len(),
                i < n,
                out@ == before,
                is_permutation_of_range(before, i as nat),
                j <= out.len(),
                forall|k: int| j <= k < out.len() ==> !key_le(keys@[out@[k] as int], keys@[i as int]),
            decreases j,
        {
            j -= 1;
        }
        proof {
            lemma_insert_split(before, i, keys@, j as int);
        }
        out.insert(j, i);
        assert(out@ =~= before.take(j as int) + seq![i] + before.skip(j as int));
        i += 1;
    }
    out
}

} // verus!
