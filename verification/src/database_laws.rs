//! What holds of the history store across its operations.
use vstd::prelude::*;
use crate::database::{
    history, history_keys, id_row, is_text_record, lemma_filter_wf, min, more_recent,
    new_text_record, other_id, pinned_record, pinned_rows, recency_rank, record_text, unpinned_record,
    lemma_rotation_bounds_unpinned, lemma_filter_filter, rotate_records, rows_wf, survives,
    text_recorded, text_row, toggle_record, above_unpinned, ItemRecord, MAX_HISTORY_ITEMS,
};
use crate::ordering::{is_permutation_of_range, is_stably_sorted, lemma_stable_order, stable_order};

verus! {

broadcast use vstd::seq_lib::group_filter_ensures;

proof fn lemma_filter_none(s: Seq<ItemRecord>, p: spec_fn(ItemRecord) -> bool)
    requires
        forall|i: int| 0 <= i < s.len() ==> !p(#[trigger] s[i]),
    ensures
        s.filter(p).len() == 0,
    decreases s.len(),
{
    reveal(Seq::filter);
    if s.len() > 0 {
        lemma_filter_none(s.drop_last(), p);
    }
}

/// Pinned rows are never dropped by rotation.
pub proof fn lemma_rotation_keeps_pinned(rows: Seq<ItemRecord>)
    ensures
        forall|i: int|
            0 <= i < rows.len() && rows[i].is_pinned ==> #[trigger] rotate_records(rows).contains(
                rows[i],
            ),
{
    assert forall|i: int| 0 <= i < rows.len() && rows[i].is_pinned implies #[trigger] rotate_records(
        rows,
    ).contains(rows[i]) by {
        rows.lemma_filter_contains(survives(rows), i);
    }
}

/// Recording a copied text keeps the store well formed: identifiers stay
/// distinct and increasing, and no text is held by two text rows. Copying a
/// text that a row already holds adds no row and hands out no identifier.
pub proof fn lemma_text_recorded_once(
    before: Seq<ItemRecord>,
    last_before: i64,
    t: Seq<char>,
    now: i64,
    after: Seq<ItemRecord>,
    last_after: i64,
    removed: Seq<Seq<char>>,
)
    requires
        rows_wf(before, last_before),
        text_recorded(before, last_before, t, now, after, last_after, removed),
    ensures
        rows_wf(after, last_after),
        forall|i: int, j: int|
            0 <= i < j < after.len() ==> !(is_text_record(after[i], t) && is_text_record(
                after[j],
                t,
            )),
        text_row(before, t) is Some ==> last_after == last_before && after.len() <= before.len(),
{
    let (mid, lid) = record_text(before, last_before, t, now)->0;
    lemma_record_text_wf(before, last_before, t, now);
    lemma_filter_wf(mid, survives(mid), lid);
}

/// The rows after a copy, before rotation, are well formed.
proof fn lemma_record_text_wf(rows: Seq<ItemRecord>, last_id: i64, t: Seq<char>, now: i64)
    requires
        rows_wf(rows, last_id),
    ensures
        record_text(rows, last_id, t, now) matches Some((mid, lid)) ==> rows_wf(mid, lid) && (
        text_row(rows, t) is Some ==> lid == last_id && mid.len() == rows.len()),
{
    match text_row(rows, t) {
        Some(i) => {
            let u = rows.update(i, ItemRecord { last_used_at: now, ..rows[i] });
            assert forall|a: int| 0 <= a < u.len() implies 1 <= #[trigger] u[a].id <= last_id by {
                assert(u[a].id == rows[a].id);
            }
            assert forall|a: int, b: int| 0 <= a < b < u.len() implies u[a].id < u[b].id by {
                assert(rows[a].id < rows[b].id);
            }
            assert forall|a: int, b: int|
                0 <= a < b < u.len() && u[a].data_type == crate::database::DataType::Text
                    && u[b].data_type == crate::database::DataType::Text && u[a].value_text is Some implies u[a].value_text
                != u[b].value_text by {
                assert(rows[a].value_text != rows[b].value_text);
            }
        },
        None => {
            if last_id < i64::MAX {
                let lid = (last_id + 1) as i64;
                let u = rows.push(new_text_record(lid, t, now));
                assert forall|a: int, b: int|
                    0 <= a < b < u.len() && u[a].data_type == crate::database::DataType::Text
                        && u[b].data_type == crate::database::DataType::Text && u[a].value_text is Some implies u[a].value_text
                    != u[b].value_text by {
                    if b == u.len() - 1 {
                        assert(!is_text_record(rows[a], t));
                    } else {
                        assert(rows[a].value_text != rows[b].value_text);
                    }
                }
                assert forall|a: int| 0 <= a < u.len() implies 1 <= #[trigger] u[a].id <= lid by {
                    if a < u.len() - 1 {
                        assert(u[a].id == rows[a].id);
                    }
                }
            }
        },
    }
}

/// Setting a row to one pinned alike keeps the number of pinned rows.
proof fn lemma_update_keeps_pinned(s: Seq<ItemRecord>, i: int, v: ItemRecord)
    requires
        0 <= i < s.len(),
        s[i].is_pinned == v.is_pinned,
    ensures
        pinned_rows(s.update(i, v)) == pinned_rows(s),
    decreases s.len(),
{
    reveal(Seq::filter);
    let u = s.update(i, v);
    if i == s.len() - 1 {
        assert(u.drop_last() =~= s.drop_last());
    } else {
        lemma_update_keeps_pinned(s.drop_last(), i, v);
        assert(u.drop_last() =~= s.drop_last().update(i, v));
    }
}

/// When the clock has moved past every recorded use and fewer than 200 rows
/// are pinned, a copied text is in the store afterwards, marked as used at
/// the time of the copy.
pub proof fn lemma_copied_text_kept(
    before: Seq<ItemRecord>,
    last_before: i64,
    t: Seq<char>,
    now: i64,
    after: Seq<ItemRecord>,
    last_after: i64,
    removed: Seq<Seq<char>>,
)
    requires
        rows_wf(before, last_before),
        text_recorded(before, last_before, t, now, after, last_after, removed),
        forall|i: int| 0 <= i < before.len() ==> #[trigger] before[i].last_used_at < now,
        pinned_rows(before) < MAX_HISTORY_ITEMS,
    ensures
        text_row(after, t) matches Some(i) && after[i].last_used_at == now,
{
    let (mid, lid) = record_text(before, last_before, t, now)->0;
    lemma_record_text_wf(before, last_before, t, now);
    match text_row(before, t) {
        Some(i) => lemma_update_keeps_pinned(
            before,
            i,
            ItemRecord { last_used_at: now, ..before[i] },
        ),
        None => before.lemma_filter_push(
            new_text_record((last_before + 1) as i64, t, now),
            pinned_record(),
        ),
    }
    assert(pinned_rows(mid) == pinned_rows(before));
    lemma_filter_wf(mid, survives(mid), lid);
    let k: int = match text_row(before, t) {
        Some(i) => i,
        None => before.len() as int,
    };
    assert(0 <= k < mid.len());
    assert(is_text_record(mid[k], t) && mid[k].last_used_at == now);
    let x = mid[k];
    assert forall|i: int| 0 <= i < mid.len() implies !(#[trigger] above_unpinned(x)(mid[i])) by {
        if i != k {
            assert(mid[i].last_used_at == before[i].last_used_at);
        }
    }
    lemma_filter_none(mid, above_unpinned(x));
    assert(recency_rank(mid, x) == 0);
    mid.lemma_filter_contains(survives(mid), k);
    assert(after.contains(x));
    let j = choose|j: int| 0 <= j < after.len() && after[j] == x;
    assert(is_text_record(after[j], t));
    let c = choose|c: int| 0 <= c < after.len() && is_text_record(after[c], t);
    assert(c == j) by {
        if c < j {
            assert(after[c].value_text != after[j].value_text);
        } else if c > j {
            assert(after[j].value_text != after[c].value_text);
        }
    }
}

/// Every row is pinned or not: the two counts add up to the number of rows.
proof fn lemma_pinned_split(s: Seq<ItemRecord>)
    ensures
        s.filter(pinned_record()).len() + s.filter(unpinned_record()).len() == s.len(),
    decreases s.len(),
{
    reveal(Seq::filter);
    if s.len() > 0 {
        lemma_pinned_split(s.drop_last());
    }
}

/// After rotation the store holds at most 200 rows while fewer are pinned.
proof fn lemma_rotated_size(rows: Seq<ItemRecord>, last_id: i64)
    requires
        rows_wf(rows, last_id),
        pinned_rows(rows) < MAX_HISTORY_ITEMS,
    ensures
        rotate_records(rows).len() <= MAX_HISTORY_ITEMS,
{
    let kept = rotate_records(rows);
    lemma_rotation_bounds_unpinned(rows, last_id);
    lemma_filter_filter(rows, survives(rows), pinned_record(), pinned_record());
    lemma_pinned_split(kept);
}

/// What is written is read back: when the clock has moved past every
/// recorded use and fewer than 200 rows are pinned, the history listed after
/// a text is copied shows that text, marked as used at the time of the copy.
pub proof fn lemma_copied_text_listed(
    before: Seq<ItemRecord>,
    last_before: i64,
    t: Seq<char>,
    now: i64,
    after: Seq<ItemRecord>,
    last_after: i64,
    removed: Seq<Seq<char>>,
)
    requires
        rows_wf(before, last_before),
        text_recorded(before, last_before, t, now, after, last_after, removed),
        forall|i: int| 0 <= i < before.len() ==> #[trigger] before[i].last_used_at < now,
        pinned_rows(before) < MAX_HISTORY_ITEMS,
    ensures
        exists|a: int|
            0 <= a < history(after).len() && is_text_record(#[trigger] history(after)[a], t)
                && history(after)[a].last_used_at == now,
{
    lemma_copied_text_kept(before, last_before, t, now, after, last_after, removed);
    let i = text_row(after, t)->0;
    let (mid, lid) = record_text(before, last_before, t, now)->0;
    lemma_record_text_wf(before, last_before, t, now);
    match text_row(before, t) {
        Some(j) => lemma_update_keeps_pinned(
            before,
            j,
            ItemRecord { last_used_at: now, ..before[j] },
        ),
        None => before.lemma_filter_push(
            new_text_record((last_before + 1) as i64, t, now),
            pinned_record(),
        ),
    }
    lemma_rotated_size(mid, lid);
    let keys = history_keys(after);
    lemma_stable_order(keys);
    let o = stable_order(keys);
    assert(o.contains(i as usize));
    let a = choose|a: int| 0 <= a < o.len() && o[a] == i as usize;
    assert(history(after)[a] == after[i]);
}

/// Flipping the pin of a row twice gives back the rows as they were.
pub proof fn lemma_toggle_twice(rows: Seq<ItemRecord>, last_id: i64, id: i64)
    requires
        rows_wf(rows, last_id),
        id_row(rows, id) is Some,
    ensures
        id_row(toggle_record(rows, id_row(rows, id)->0), id) == id_row(rows, id),
        toggle_record(toggle_record(rows, id_row(rows, id)->0), id_row(rows, id)->0) == rows,
{
    let i = id_row(rows, id)->0;
    let u = toggle_record(rows, i);
    assert(u[i].id == id);
    let c = choose|c: int| 0 <= c < u.len() && u[c].id == id;
    assert(c == i) by {
        if c < i {
            assert(rows[c].id < rows[i].id);
        } else if c > i {
            assert(rows[i].id < rows[c].id);
        }
    }
    assert(toggle_record(u, i) =~= rows);
}

/// Deleting by identifier removes exactly the row with that identifier.
pub proof fn lemma_delete_removes_only(rows: Seq<ItemRecord>, id: i64)
    ensures
        id_row(rows.filter(other_id(id)), id) is None,
        forall|r: ItemRecord| #[trigger]
            rows.filter(other_id(id)).contains(r) <==> rows.contains(r) && r.id != id,
{
    let f = rows.filter(other_id(id));
    assert forall|r: ItemRecord| #[trigger] f.contains(r) <==> rows.contains(r) && r.id != id by {
        if rows.contains(r) && r.id != id {
            let k = choose|k: int| 0 <= k < rows.len() && rows[k] == r;
            rows.lemma_filter_contains(other_id(id), k);
        }
        if f.contains(r) {
            let k = choose|k: int| 0 <= k < f.len() && f[k] == r;
            assert(other_id(id)(f[k]));
            rows.lemma_filter_contains_rev(other_id(id), r);
        }
    }
    if exists|i: int| 0 <= i < f.len() && f[i].id == id {
        let i = choose|i: int| 0 <= i < f.len() && f[i].id == id;
        assert(other_id(id)(f[i]));
    }
}

/// The history lists at most 200 rows of the store, each once: pinned rows
/// first, pinned rows by pin order, and unpinned rows of equal pin order most
/// recently used first.
pub proof fn lemma_history_order(rows: Seq<ItemRecord>, last_id: i64)
    requires
        rows_wf(rows, last_id),
        rows.len() <= usize::MAX,
    ensures
        history(rows).len() == min(rows.len() as int, MAX_HISTORY_ITEMS as int),
        forall|a: int| 0 <= a < history(rows).len() ==> rows.contains(#[trigger] history(rows)[a]),
        forall|a: int, b: int|
            0 <= a < b < history(rows).len() ==> history(rows)[a].id != history(rows)[b].id,
        forall|a: int, b: int|
            0 <= a < b < history(rows).len() && (#[trigger] history(rows)[b]).is_pinned
                ==> (#[trigger] history(rows)[a]).is_pinned,
        forall|a: int, b: int|
            0 <= a < b < history(rows).len() && (#[trigger] history(rows)[a]).is_pinned
                && (#[trigger] history(rows)[b]).is_pinned ==> history(rows)[a].pin_order
                <= history(rows)[b].pin_order,
        forall|a: int, b: int|
            0 <= a < b < history(rows).len() && !(#[trigger] history(rows)[a]).is_pinned
                && !(#[trigger] history(rows)[b]).is_pinned && history(rows)[a].pin_order
                == history(rows)[b].pin_order ==> history(rows)[a].last_used_at
                >= history(rows)[b].last_used_at,
{
    let keys = history_keys(rows);
    let o = stable_order(keys);
    lemma_stable_order(keys);
    let n = min(rows.len() as int, MAX_HISTORY_ITEMS as int);
    let h = history(rows);
    assert(h.len() == n);
    assert forall|a: int| 0 <= a < h.len() implies h[a] == rows[o[a] as int] && 0 <= o[a]
        < rows.len() by {}
    assert forall|a: int| 0 <= a < h.len() implies rows.contains(#[trigger] h[a]) by {
        assert(h[a] == rows[o[a] as int]);
    }
    assert forall|a: int, b: int| 0 <= a < b < h.len() implies h[a].id != h[b].id by {
        assert(o[a] != o[b]);
        let (x, y) = (o[a] as int, o[b] as int);
        if x < y {
            assert(rows[x].id < rows[y].id);
        } else {
            assert(rows[y].id < rows[x].id);
        }
    }
    assert forall|a: int, b: int| #![trigger h[a], h[b]] 0 <= a < b < h.len() implies key_ok(h[a], h[b]) by {
        assert(crate::ordering::key_le(keys[o[a] as int], keys[o[b] as int]));
    }
}

spec fn key_ok(x: ItemRecord, y: ItemRecord) -> bool {
    &&& y.is_pinned ==> x.is_pinned
    &&& x.is_pinned && y.is_pinned ==> x.pin_order <= y.pin_order
    &&& !x.is_pinned && !y.is_pinned && x.pin_order == y.pin_order ==> x.last_used_at
        >= y.last_used_at
}

} // verus!
