//! The popup's state: query, listed items, selection and recent queries.
use vstd::prelude::*;
use std::collections::VecDeque;
use super::item_view_model::ItemViewModel;
use crate::text::same_str;

verus! {

/// The position of the first query in `h` equal to `q`.
pub open spec fn first_query_pos(h: Seq<String>, q: Seq<char>) -> Option<int> {
    if exists|i: int| 0 <= i < h.len() && h[i]@ == q && forall|j: int| 0 <= j < i ==> #[trigger] h[j]@ != q {
        Some(choose|i: int| 0 <= i < h.len() && h[i]@ == q && forall|j: int| 0 <= j < i ==> #[trigger] h[j]@ != q)
    } else {
        None
    }
}

/// The recent queries after query `q` is used: an empty query changes
/// nothing; otherwise its first earlier occurrence is removed, it is put in
/// front, and the oldest is dropped when there are more than `max`.
pub open spec fn history_after_add(h: Seq<String>, q: String, max: usize) -> Seq<String> {
    if q@.len() == 0 {
        h
    } else {
        let removed = match first_query_pos(h, q@) {
            Some(i) => h.remove(i),
            None => h,
        };
        let pushed = seq![q] + removed;
        if pushed.len() > max {
            pushed.drop_last()
        } else {
            pushed
        }
    }
}

/// State `s` with query `q` set and the first item selected.
pub open spec fn with_query(s: PopupState, q: String) -> PopupState {
    PopupState { query: q, selected_index: 0, ..s }
}

/// The selection after the items become `n` long: kept when still in range,
/// else moved to the last item (to the first when there are none).
pub open spec fn clamp_selection(sel: usize, n: nat) -> usize {
    if sel >= n {
        if n == 0 {
            0
        } else {
            (n - 1) as usize
        }
    } else {
        sel
    }
}

/// The position of the first query in `h` equal to `q`.
fn position_of(h: &VecDeque<String>, q: &str) -> (r: Option<usize>)
    ensures
        match r {
            Some(p) => first_query_pos(h@, q@) == Some(p as int),
            None => first_query_pos(h@, q@) is None,
        },
{
    let mut i: usize = 0;
    while i < h.len()
        invariant
            i <= h@.len(),
            forall|j: int| 0 <= j < i ==> #[trigger] h@[j]@ != q@,
        decreases h@.len() - i,
    {
        if same_str(h[i].as_str(), q) {
            proof {
                let c = choose|c: int|
                    0 <= c < h@.len() && h@[c]@ == q@ && forall|j: int|
                        0 <= j < c ==> #[trigger] h@[j]@ != q@;
                if c > i {
                    assert(h@[i as int]@ == q@);
                }
            }
            return Some(i);
        }
        i += 1;
    }
    None
}

/// The popup's state.
#[derive(Debug, Clone)]
pub struct PopupState {
    /// The search query.
    pub query: String,
    /// The listed items.
    pub items: Vec<ItemViewModel>,
    /// The position of the selected item.
    pub selected_index: usize,
    /// How many items are shown at most.
    pub max_items: usize,
    /// Recent queries, most recent first.
    pub query_history: VecDeque<String>,
    /// How many recent queries are kept.
    pub max_history: usize,
}

impl PopupState {
    /// No query, no items, first item selected, no recent queries.
    pub fn new(max_items: usize, max_history: usize) -> (s: Self)
        ensures
            s.query@ == Seq::<char>::empty(),
            s.items@ == Seq::<ItemViewModel>::empty(),
            s.selected_index == 0,
            s.max_items == max_items,
            s.query_history@ == Seq::<String>::empty(),
            s.max_history == max_history,
    {
        PopupState {
            query: String::new(),
            items: Vec::new(),
            selected_index: 0,
            max_items,
            query_history: VecDeque::new(),
            max_history,
        }
    }

    /// Sets the query and selects the first item.
    pub fn set_query(&mut self, query: String)
        ensures
            *final(self) == (PopupState { query, selected_index: 0, ..*old(self) }),
    {
        self.query = query;
        self.selected_index = 0;
    }

    /// Lists `items`; the selection moves to the last item when it falls
    /// beyond them.
    pub fn set_items(&mut self, items: Vec<ItemViewModel>)
        ensures
            *final(self) == (PopupState {
                items,
                selected_index: clamp_selection(old(self).selected_index, items@.len()),
                ..*old(self)
            }),
    {
        self.items = items;
        if self.selected_index >= self.items.len() {
            self.selected_index = if self.items.len() > 0 {
                self.items.len() - 1
            } else {
                0
            };
        }
    }

    /// Selects the previous item, if any.
    pub fn move_selection_up(&mut self)
        ensures
            *final(self) == (PopupState {
                selected_index: if old(self).selected_index > 0 {
                    (old(self).selected_index - 1) as usize
                } else {
                    0
                },
                ..*old(self)
            }),
    {
        if self.selected_index > 0 {
            self.selected_index -= 1;
        }
    }

    /// Selects the next item, if any.
    pub fn move_selection_down(&mut self)
        ensures
            *final(self) == (PopupState {
                selected_index: if old(self).selected_index + 1 < old(self).items@.len() {
                    (old(self).selected_index + 1) as usize
                } else {
                    old(self).selected_index
                },
                ..*old(self)
            }),
    {
        let last = if self.items.len() > 0 {
            self.items.len() - 1
        } else {
            0
        };
        if self.selected_index < last {
            self.selected_index += 1;
        }
    }

    /// The selected item.
    pub fn get_selected_item(&self) -> (r: Option<&ItemViewModel>)
        ensures
            match r {
                Some(item) => self.selected_index < self.items@.len() && *item
                    == self.items@[self.selected_index as int],
                None => self.selected_index >= self.items@.len(),
            },
    {
        if self.selected_index < self.items.len() {
            Some(&self.items[self.selected_index])
        } else {
            None
        }
    }

    /// The identifier of the selected item.
    pub fn get_selected_id(&self) -> (r: Option<String>)
        ensures
            match r {
                Some(id) => self.selected_index < self.items@.len() && id@
                    == self.items@[self.selected_index as int].id@,
                None => self.selected_index >= self.items@.len(),
            },
    {
        match self.get_selected_item() {
            Some(item) => Some(item.id.clone()),
            None => None,
        }
    }

    /// Whether an item is selected.
    pub fn has_selection(&self) -> (r: bool)
        ensures
            r == (self.selected_index < self.items@.len()),
    {
        self.items.len() > 0 && self.selected_index < self.items.len()
    }

    /// Selects the first item.
    pub fn reset_selection(&mut self)
        ensures
            *final(self) == (PopupState { selected_index: 0, ..*old(self) }),
    {
        self.selected_index = 0;
    }

    /// Records `query` as the most recent query.
    pub fn add_to_history(&mut self, query: String)
        ensures
            final(self).query_history@ == history_after_add(
                old(self).query_history@,
                query,
                old(self).max_history,
            ),
            final(self).query == old(self).query,
            final(self).items == old(self).items,
            final(self).selected_index == old(self).selected_index,
            final(self).max_items == old(self).max_items,
            final(self).max_history == old(self).max_history,
    {
        if query.unicode_len() == 0 {
            return;
        }
        let pos = position_of(&self.query_history, query.as_str());
        match pos {
            Some(p) => {
                self.query_history.remove(p);
            },
            None => {},
        }
        self.query_history.push_front(query);
        if self.query_history.len() > self.max_history {
            self.query_history.pop_back();
        }
    }

    /// The most recent query.
    pub fn get_previous_query(&self) -> (r: Option<&String>)
        ensures
            match r {
                Some(q) => self.query_history@.len() > 0 && *q == self.query_history@[0],
                None => self.query_history@.len() == 0,
            },
    {
        if self.query_history.len() > 0 {
            Some(&self.query_history[0])
        } else {
            None
        }
    }

    /// Empties the query and selects the first item.
    pub fn clear_query(&mut self)
        ensures
            final(self).query@ == Seq::<char>::empty(),
            final(self).selected_index == 0,
            final(self).items == old(self).items,
            final(self).max_items == old(self).max_items,
            final(self).query_history == old(self).query_history,
            final(self).max_history == old(self).max_history,
    {
        self.query = String::new();
        self.selected_index = 0;
    }

    pub fn is_empty(&self) -> (r: bool)
        ensures
            r == (self.items@.len() == 0),
    {
        self.items.len() == 0
    }

    pub fn item_count(&self) -> (r: usize)
        ensures
            r == self.items@.len(),
    {
        self.items.len()
    }

    /// The first `max_items` items.
    pub fn get_visible_items(&self) -> (r: Vec<&ItemViewModel>)
        ensures
            r@.len() == if self.items@.len() < self.max_items {
                self.items@.len() as int
            } else {
                self.max_items as int
            },
            forall|i: int| 0 <= i < r@.len() ==> *r@[i] == self.items@[i],
    {
        let mut out: Vec<&ItemViewModel> = Vec::new();
        let mut i: usize = 0;
        while i < self.items.len() && i < self.max_items
            invariant
                i <= self.items.len(),
                i <= self.max_items,
                out@.len() == i,
                forall|k: int| 0 <= k < i ==> *out@[k] == self.items@[k],
            decreases self.items.len() - i,
        {
            out.push(&self.items[i]);
            i += 1;
        }
        out
    }

    /// Selects item `index`, if there is one.
    pub fn set_selected_index(&mut self, index: usize)
        ensures
            *final(self) == (PopupState {
                selected_index: if index < old(self).items@.len() {
                    index
                } else {
                    old(self).selected_index
                },
                ..*old(self)
            }),
    {
        if index < self.items.len() {
            self.selected_index = index;
        }
    }
}

impl Default for PopupState {
    /// Up to 100 items and 10 recent queries.
    fn default() -> (s: Self)
        ensures
            s.query@ == Seq::<char>::empty(),
            s.items@ == Seq::<ItemViewModel>::empty(),
            s.selected_index == 0,
            s.max_items == 100,
            s.query_history@ == Seq::<String>::empty(),
            s.max_history == 10,
    {
        Self::new(100, 10)
    }
}

} // verus!

verus! {

/// The selection points at an item, or at the first place when there are none.
pub open spec fn selection_ok(s: PopupState) -> bool {
    s.selected_index < s.items@.len() || (s.items@.len() == 0 && s.selected_index == 0)
}

/// Listing items always leaves the selection on an item, or at the first
/// place when there are none.
pub proof fn lemma_set_items_selection(sel: usize, n: nat)
    ensures
        clamp_selection(sel, n) < n || (n == 0 && clamp_selection(sel, n) == 0),
        sel < n ==> clamp_selection(sel, n) == sel,
{
}

/// Moving the selection up or down, or selecting by position, keeps it on an
/// item.
pub proof fn lemma_moves_keep_selection(s: PopupState, index: usize)
    requires
        selection_ok(s),
    ensures
        selection_ok(PopupState {
            selected_index: if s.selected_index > 0 {
                (s.selected_index - 1) as usize
            } else {
                0
            },
            ..s
        }),
        selection_ok(PopupState {
            selected_index: if s.selected_index + 1 < s.items@.len() {
                (s.selected_index + 1) as usize
            } else {
                s.selected_index
            },
            ..s
        }),
        selection_ok(PopupState {
            selected_index: if index < s.items@.len() {
                index
            } else {
                s.selected_index
            },
            ..s
        }),
{
}

/// No two recent queries are the same text.
pub open spec fn distinct_queries(h: Seq<String>) -> bool {
    forall|i: int, j: int| 0 <= i < j < h.len() ==> h[i]@ != h[j]@
}

/// Using a query puts it first among the recent queries, keeps them
/// distinct, and keeps at most `max` of them once there were no more.
pub proof fn lemma_history_after_add(h: Seq<String>, q: String, max: usize)
    requires
        distinct_queries(h),
    ensures
        distinct_queries(history_after_add(h, q, max)),
        h.len() <= max ==> history_after_add(h, q, max).len() <= max,
        q@.len() > 0 && max > 0 ==> history_after_add(h, q, max)[0] == q,
        q@.len() == 0 ==> history_after_add(h, q, max) == h,
        q@.len() > 0 ==> forall|i: int|
            0 <= i < history_after_add(h, q, max).len() ==> #[trigger] history_after_add(
                h,
                q,
                max,
            )[i] == q || h.contains(history_after_add(h, q, max)[i]),
{
    if q@.len() > 0 {
        let removed = match first_query_pos(h, q@) {
            Some(i) => h.remove(i),
            None => h,
        };
        assert(forall|k: int| 0 <= k < removed.len() ==> #[trigger] removed[k]@ != q@) by {
            match first_query_pos(h, q@) {
                Some(p) => {
                    assert forall|k: int| 0 <= k < removed.len() implies #[trigger] removed[k]@ != q@ by {
                        if k < p {
                            assert(removed[k] == h[k]);
                        } else {
                            assert(removed[k] == h[k + 1]);
                            assert(h[p]@ != h[k + 1]@);
                        }
                    }
                },
                None => {
                    assert forall|k: int| 0 <= k < removed.len() implies #[trigger] removed[k]@ != q@ by {
                        if h[k]@ == q@ {
                            let m = choose|m: int| 0 <= m <= k && h[m]@ == q@ && forall|j: int|
                                0 <= j < m ==> #[trigger] h[j]@ != q@;
                            assert(exists|m: int| 0 <= m <= k && h[m]@ == q@ && forall|j: int|
                                0 <= j < m ==> #[trigger] h[j]@ != q@) by {
                                lemma_first_match(h, q@, k);
                            }
                        }
                    }
                },
            }
        }
        assert(distinct_queries(removed)) by {
            match first_query_pos(h, q@) {
                Some(p) => {
                    assert forall|i: int, j: int| 0 <= i < j < removed.len() implies removed[i]@
                        != removed[j]@ by {
                        let a = if i < p { i } else { i + 1 };
                        let b = if j < p { j } else { j + 1 };
                        assert(removed[i] == h[a] && removed[j] == h[b]);
                    }
                },
                None => {},
            }
        }
        let pushed = seq![q] + removed;
        assert(distinct_queries(pushed)) by {
            assert forall|i: int, j: int| 0 <= i < j < pushed.len() implies pushed[i]@ != pushed[j]@ by {
                if i == 0 {
                    assert(pushed[j] == removed[j - 1]);
                } else {
                    assert(pushed[i] == removed[i - 1] && pushed[j] == removed[j - 1]);
                }
            }
        }
        assert forall|i: int| 0 <= i < pushed.len() implies #[trigger] pushed[i] == q || h.contains(
            pushed[i],
        ) by {
            if i > 0 {
                match first_query_pos(h, q@) {
                    Some(p) => {
                        let a = if i - 1 < p { i - 1 } else { i };
                        assert(pushed[i] == h[a]);
                    },
                    None => {
                        assert(pushed[i] == h[i - 1]);
                    },
                }
            }
        }
        if pushed.len() > max {
            let d = pushed.drop_last();
            assert forall|i: int, j: int| 0 <= i < j < d.len() implies d[i]@ != d[j]@ by {
                assert(d[i] == pushed[i] && d[j] == pushed[j]);
            }
            assert forall|i: int| 0 <= i < d.len() implies #[trigger] d[i] == q || h.contains(d[i]) by {
                assert(d[i] == pushed[i]);
            }
        }
    }
}

proof fn lemma_first_match(h: Seq<String>, q: Seq<char>, k: int)
    requires
        0 <= k < h.len(),
        h[k]@ == q,
    ensures
        exists|m: int| 0 <= m <= k && h[m]@ == q && forall|j: int| 0 <= j < m ==> #[trigger] h[j]@ != q,
    decreases k,
{
    if exists|j: int| 0 <= j < k && h[j]@ == q {
        let j = choose|j: int| 0 <= j < k && h[j]@ == q;
        lemma_first_match(h, q, j);
    } else {
        assert(forall|j: int| 0 <= j < k ==> #[trigger] h[j]@ != q);
    }
}

} // verus!
