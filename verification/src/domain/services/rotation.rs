//! Choice of the history entries to drop when the history grows too long.
use vstd::prelude::*;
use crate::domain::entities::{ClipboardItem, ItemId};
use crate::ordering::{is_permutation_of_range, is_stably_sorted, key_le, lemma_stable_order, stable_order, stable_order_exec};

verus! {

broadcast use vstd::seq_lib::group_filter_ensures;

pub open spec fn unpinned_pred() -> spec_fn(ClipboardItem) -> bool {
    |i: ClipboardItem| !i.is_pinned
}

pub open spec fn pinned_pred() -> spec_fn(ClipboardItem) -> bool {
    |i: ClipboardItem| i.is_pinned
}

/// The unpinned items, in their order.
pub open spec fn unpinned_items(items: Seq<ClipboardItem>) -> Seq<ClipboardItem> {
    items.filter(unpinned_pred())
}

/// How many items are pinned.
pub open spec fn pinned_count(items: Seq<ClipboardItem>) -> nat {
    items.filter(pinned_pred()).len()
}

/// How many unpinned items fit beside `pinned` pinned ones in `max` places.
pub open spec fn max_non_pinned(max: int, pinned: int) -> int {
    if pinned >= max {
        0
    } else {
        max - pinned
    }
}

/// Sort keys by time of last use, oldest first.
pub open spec fn last_used_keys(s: Seq<ClipboardItem>) -> Seq<(i128, i128)> {
    s.map_values(|i: ClipboardItem| (i.last_used_at.0 as i128, 0i128))
}

/// The identifiers to delete so that at most `max` items remain: when there
/// are more than `max` items and more unpinned ones than fit beside the pinned
/// ones, the surplus of unpinned items, least recently used first (equal
/// times in list order). Pinned items are never chosen.
pub open spec fn rotation_victims(items: Seq<ClipboardItem>, max: int) -> Seq<ItemId> {
    let u = unpinned_items(items);
    let keep = max_non_pinned(max, pinned_count(items) as int);
    if items.len() <= max || u.len() <= keep {
        seq![]
    } else {
        stable_order(last_used_keys(u)).take(u.len() - keep).map_values(|k: usize| u[k as int].id)
    }
}

/// `id` is the identifier of an unpinned item of `items`.
pub open spec fn is_unpinned_id(items: Seq<ClipboardItem>, id: ItemId) -> bool {
    exists|j: int| 0 <= j < items.len() && !items[j].is_pinned && items[j].id == id
}

/// Law: every identifier chosen for deletion is that of an unpinned item, and
/// as many are chosen as there are unpinned items beyond those that fit.
pub proof fn lemma_rotation_spares_pinned(items: Seq<ClipboardItem>, max: int)
    requires
        items.len() <= usize::MAX,
    ensures
        forall|k: int|
            0 <= k < rotation_victims(items, max).len() ==> is_unpinned_id(
                items,
                #[trigger] rotation_victims(items, max)[k],
            ),
        items.len() > max && unpinned_items(items).len() > max_non_pinned(
            max,
            pinned_count(items) as int,
        ) ==> rotation_victims(items, max).len() == unpinned_items(items).len() - max_non_pinned(
            max,
            pinned_count(items) as int,
        ),
{
    let u = unpinned_items(items);
    let keep = max_non_pinned(max, pinned_count(items) as int);
    if items.len() > max && u.len() > keep {
        let o = stable_order(last_used_keys(u));
        lemma_stable_order(last_used_keys(u));
        let v = rotation_victims(items, max);
        assert forall|k: int| 0 <= k < v.len() implies is_unpinned_id(items, #[trigger] v[k]) by {
            let p = o[k] as int;
            assert(0 <= p < u.len());
            assert(unpinned_pred()(u[p]));
            assert(u.contains(u[p]));
            items.lemma_filter_contains_rev(unpinned_pred(), u[p]);
            assert(items.contains(u[p]));
            let j = choose|j: int| 0 <= j < items.len() && items[j] == u[p];
            assert(items[j].id == v[k]);
        }
    }
}

/// Law: no item chosen for deletion was used more recently than an unpinned
/// item that stays.
pub proof fn lemma_rotation_oldest_first(items: Seq<ClipboardItem>, max: int)
    requires
        items.len() <= usize::MAX,
        items.len() > max,
        unpinned_items(items).len() > max_non_pinned(max, pinned_count(items) as int),
    ensures
        ({
            let u = unpinned_items(items);
            let o = stable_order(last_used_keys(u));
            let del = u.len() - max_non_pinned(max, pinned_count(items) as int);
            &&& is_permutation_of_range(o, u.len())
            &&& forall|a: int, b: int|
                0 <= a < del <= b < u.len() ==> u[o[a] as int].last_used_at.0 <= u[o[b] as int].last_used_at.0
        }),
{
    let u = unpinned_items(items);
    let o = stable_order(last_used_keys(u));
    lemma_stable_order(last_used_keys(u));
    let del = u.len() - max_non_pinned(max, pinned_count(items) as int);
    assert forall|a: int, b: int| 0 <= a < del <= b < u.len() implies u[o[a] as int].last_used_at.0
        <= u[o[b] as int].last_used_at.0 by {
        assert(key_le(last_used_keys(u)[o[a] as int], last_used_keys(u)[o[b] as int]));
    }
}

/// Chooses history entries to drop.
pub struct RotationService;

impl RotationService {
    /// The identifiers of the items to delete so that at most `max_items`
    /// remain, never a pinned one, least recently used first.
    pub fn items_to_delete(items: &[ClipboardItem], max_items: usize) -> (r: Vec<ItemId>)
        ensures
            r@ == rotation_victims(items@, max_items as int),
    {
        let total_count = items.len();
        if total_count <= max_items {
            return Vec::new();
        }
        let mut keys: Vec<(i128, i128)> = Vec::new();
        let mut ids: Vec<ItemId> = Vec::new();
        let mut pinned: usize = 0;
        let mut i: usize = 0;
        while i < items.len()
            invariant
                i <= items.len(),
                keys@ == last_used_keys(unpinned_items(items@.take(i as int))),
                ids@ == unpinned_items(items@.take(i as int)).map_values(|c: ClipboardItem| c.id),
                pinned == pinned_count(items@.take(i as int)),
                pinned <= i,
            decreases items.len() - i,
        {
            let ghost t = items@.take(i as int);
            assert(items@.take(i as int + 1) == t.push(items@[i as int]));
            proof {
                t.lemma_filter_push(items@[i as int], unpinned_pred());
                t.lemma_filter_push(items@[i as int], pinned_pred());
            }
            let it = &items[i];
            if it.is_pinned {
                pinned += 1;
            } else {
                keys.push((it.last_used_at.0 as i128, 0i128));
                ids.push(it.id);
                assert(keys@ =~= last_used_keys(unpinned_items(items@.take(i as int + 1))));
                assert(ids@ =~= unpinned_items(items@.take(i as int + 1)).map_values(
                    |c: ClipboardItem| c.id,
                ));
            }
            i += 1;
        }
        assert(items@.take(items@.len() as int) == items@);
        let ghost u = unpinned_items(items@);
        let max_non_pinned = Self::max_non_pinned_items(max_items, pinned);
        if ids.len() <= max_non_pinned {
            return Vec::new();
        }
        let order = stable_order_exec(&keys);
        proof {
            lemma_stable_order(keys@);
        }
        let to_delete_count = ids.len() - max_non_pinned;
        let mut out: Vec<ItemId> = Vec::new();
        let mut k: usize = 0;
        while k < to_delete_count
            invariant
                k <= to_delete_count <= ids.len(),
                ids.len() == u.len(),
                ids@ == u.map_values(|c: ClipboardItem| c.id),
                keys@ == last_used_keys(u),
                order@ == stable_order(keys@),
                is_permutation_of_range(order@, keys@.len()),
                out@ == order@.take(k as int).map_values(|p: usize| u[p as int].id),
            decreases to_delete_count - k,
        {
            let p = order[k];
            out.push(ids[p]);
            assert(out@ =~= order@.take(k as int + 1).map_values(|p: usize| u[p as int].id));
            k += 1;
        }
        out
    }

    pub fn should_rotate(total_count: usize, max_items: usize) -> (r: bool)
        ensures
            r == (total_count > max_items),
    {
        total_count > max_items
    }

    /// How many unpinned items fit beside `pinned_count` pinned ones.
    pub fn max_non_pinned_items(max_items: usize, pinned_count: usize) -> (r: usize)
        ensures
            r == max_non_pinned(max_items as int, pinned_count as int),
    {
        if pinned_count >= max_items {
            0
        } else {
            max_items - pinned_count
        }
    }
}

} // verus!
