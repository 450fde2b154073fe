//! The clipboard history store: one row per entry, the rules by which text is
//! recorded once, the rotation that keeps the history short, and the order in
//! which the history is listed. The rows live in memory here; keeping them on
//! disk is the caller's business.
use vstd::prelude::*;
use crate::domain::entities::{category_of, current_time_millis, Category as DomainCategory};
use crate::ordering::{
    is_permutation_of_range, is_stably_sorted, key_le, lemma_stable_order, stable_order,
    stable_order_exec,
};
use crate::shared::{MaccyError, Result};
use crate::text::{owned, same_str};

verus! {

broadcast use vstd::seq_lib::group_filter_ensures;

/// How many unpinned entries the history keeps, and how many it lists.
pub const MAX_HISTORY_ITEMS: usize = 200;

/// What a row holds.
#[derive(Debug, PartialEq, Eq, Clone, Copy, Structural)]
pub enum DataType {
    Text,
    Image,
}

/// Kind of a row's content, as the store records it.
#[derive(Debug, PartialEq, Eq, Clone, Copy, Structural)]
pub enum Category {
    Url,
    Email,
    Account,
    Picture,
    Other,
}

/// The stored form of a detected category.
pub open spec fn stored_category(c: DomainCategory) -> Category {
    match c {
        DomainCategory::Url => Category::Url,
        DomainCategory::Email => Category::Email,
        DomainCategory::Account => Category::Account,
        DomainCategory::Picture => Category::Picture,
        DomainCategory::Other => Category::Other,
    }
}

/// The name under which a category is stored.
pub open spec fn stored_category_name(c: Category) -> Seq<char> {
    match c {
        Category::Url => "Url"@,
        Category::Email => "Email"@,
        Category::Account => "Account"@,
        Category::Picture => "Picture"@,
        Category::Other => "Other"@,
    }
}

impl Category {
    /// The stored form of a detected category.
    pub fn from_domain(c: DomainCategory) -> (r: Category)
        ensures
            r == stored_category(c),
    {
        match c {
            DomainCategory::Url => Category::Url,
            DomainCategory::Email => Category::Email,
            DomainCategory::Account => Category::Account,
            DomainCategory::Picture => Category::Picture,
            DomainCategory::Other => Category::Other,
        }
    }

    /// The name under which the category is stored.
    #[allow(clippy::inherent_to_string)]
    pub fn to_string(&self) -> (r: String)
        ensures
            r@ == stored_category_name(*self),
    {
        match self {
            Category::Url => owned("Url"),
            Category::Email => owned("Email"),
            Category::Account => owned("Account"),
            Category::Picture => owned("Picture"),
            Category::Other => owned("Other"),
        }
    }
}

/// One row of the history.
#[derive(Debug, PartialEq, Clone)]
pub struct ClipboardItem {
    pub id: i64,
    pub value_text: Option<String>,
    pub image_path: Option<String>,
    pub data_type: DataType,
    pub raw_mime_type: String,
    pub category: Option<Category>,
    pub is_pinned: bool,
    pub pin_order: i64,
    pub last_used_at: i64,
}

/// A row, with its texts as character sequences.
pub ghost struct ItemRecord {
    pub id: i64,
    pub value_text: Option<Seq<char>>,
    pub image_path: Option<Seq<char>>,
    pub data_type: DataType,
    pub raw_mime_type: Seq<char>,
    pub category: Option<Category>,
    pub is_pinned: bool,
    pub pin_order: i64,
    pub last_used_at: i64,
}

pub open spec fn opt_view(o: Option<String>) -> Option<Seq<char>> {
    match o {
        Some(s) => Some(s@),
        None => None,
    }
}

impl View for ClipboardItem {
    type V = ItemRecord;

    open spec fn view(&self) -> ItemRecord {
        ItemRecord {
            id: self.id,
            value_text: opt_view(self.value_text),
            image_path: opt_view(self.image_path),
            data_type: self.data_type,
            raw_mime_type: self.raw_mime_type@,
            category: self.category,
            is_pinned: self.is_pinned,
            pin_order: self.pin_order,
            last_used_at: self.last_used_at,
        }
    }
}

fn copy_opt_string(o: &Option<String>) -> (r: Option<String>)
    ensures
        r == *o,
{
    match o {
        Some(s) => Some(s.clone()),
        None => None,
    }
}

impl ClipboardItem {
    /// A copy of the row.
    pub(crate) fn copied(&self) -> (r: Self)
        ensures
            r == *self,
    {
        ClipboardItem {
            id: self.id,
            value_text: copy_opt_string(&self.value_text),
            image_path: copy_opt_string(&self.image_path),
            data_type: self.data_type,
            raw_mime_type: self.raw_mime_type.clone(),
            category: self.category,
            is_pinned: self.is_pinned,
            pin_order: self.pin_order,
            last_used_at: self.last_used_at,
        }
    }
}

// ---------------------------------------------------------------------------
// The rules, over the rows' records
// ---------------------------------------------------------------------------

pub open spec fn records_of(rows: Seq<ClipboardItem>) -> Seq<ItemRecord> {
    rows.map_values(|r: ClipboardItem| r@)
}

/// Row `r` is a text row holding `t`.
pub open spec fn is_text_record(r: ItemRecord, t: Seq<char>) -> bool {
    r.data_type == DataType::Text && r.value_text == Some(t)
}

/// The rows are in insertion order with distinct increasing identifiers,
/// none above `last_id`, and no text is held by two text rows.
pub open spec fn rows_wf(rows: Seq<ItemRecord>, last_id: i64) -> bool {
    &&& 0 <= last_id
    &&& forall|i: int| 0 <= i < rows.len() ==> 1 <= #[trigger] rows[i].id <= last_id
    &&& forall|i: int, j: int| 0 <= i < j < rows.len() ==> rows[i].id < rows[j].id
    &&& forall|i: int, j: int|
        0 <= i < j < rows.len() && rows[i].data_type == DataType::Text && rows[j].data_type
            == DataType::Text && rows[i].value_text is Some ==> rows[i].value_text
            != rows[j].value_text
}

/// The position of the text row holding `t`, if there is one.
pub open spec fn text_row(rows: Seq<ItemRecord>, t: Seq<char>) -> Option<int> {
    if exists|i: int| 0 <= i < rows.len() && is_text_record(rows[i], t) {
        Some(choose|i: int| 0 <= i < rows.len() && is_text_record(rows[i], t))
    } else {
        None
    }
}

/// The position of the row with identifier `id`, if there is one.
pub open spec fn id_row(rows: Seq<ItemRecord>, id: i64) -> Option<int> {
    if exists|i: int| 0 <= i < rows.len() && rows[i].id == id {
        Some(choose|i: int| 0 <= i < rows.len() && rows[i].id == id)
    } else {
        None
    }
}

/// The row recorded for new text `t` copied at time `now`.
pub open spec fn new_text_record(id: i64, t: Seq<char>, now: i64) -> ItemRecord {
    ItemRecord {
        id,
        value_text: Some(t),
        image_path: None,
        data_type: DataType::Text,
        raw_mime_type: "text/plain"@,
        category: Some(stored_category(category_of(t))),
        is_pinned: false,
        pin_order: 0,
        last_used_at: now,
    }
}

/// The row recorded for an image stored at `path`.
pub open spec fn new_image_record(id: i64, path: Seq<char>, mime: Seq<char>, now: i64) -> ItemRecord {
    ItemRecord {
        id,
        value_text: None,
        image_path: Some(path),
        data_type: DataType::Image,
        raw_mime_type: mime,
        category: Some(Category::Picture),
        is_pinned: false,
        pin_order: 0,
        last_used_at: now,
    }
}

/// Row `a` ranks above row `b` in recency: used later, or at the same time
/// and added later.
pub open spec fn more_recent(a: ItemRecord, b: ItemRecord) -> bool {
    a.last_used_at > b.last_used_at || (a.last_used_at == b.last_used_at && a.id > b.id)
}

pub open spec fn above_unpinned(x: ItemRecord) -> spec_fn(ItemRecord) -> bool {
    |r: ItemRecord| !r.is_pinned && more_recent(r, x)
}

/// How many unpinned rows rank above `x` in recency.
pub open spec fn recency_rank(rows: Seq<ItemRecord>, x: ItemRecord) -> nat {
    rows.filter(above_unpinned(x)).len()
}

pub open spec fn pinned_record() -> spec_fn(ItemRecord) -> bool {
    |r: ItemRecord| r.is_pinned
}

pub open spec fn unpinned_record() -> spec_fn(ItemRecord) -> bool {
    |r: ItemRecord| !r.is_pinned
}

/// How many rows are pinned.
pub open spec fn pinned_rows(rows: Seq<ItemRecord>) -> nat {
    rows.filter(pinned_record()).len()
}

/// A row survives rotation when it is pinned or among the first 200 rows,
/// pinned rows counted first and the rest by recency.
pub open spec fn survives(rows: Seq<ItemRecord>) -> spec_fn(ItemRecord) -> bool {
    |r: ItemRecord| r.is_pinned || pinned_rows(rows) + recency_rank(rows, r) < MAX_HISTORY_ITEMS
}

pub open spec fn dropped_image(rows: Seq<ItemRecord>) -> spec_fn(ItemRecord) -> bool {
    |r: ItemRecord|
        !(r.is_pinned || pinned_rows(rows) + recency_rank(rows, r) < MAX_HISTORY_ITEMS)
            && r.image_path is Some
}

/// The rows that rotation keeps.
pub open spec fn rotate_records(rows: Seq<ItemRecord>) -> Seq<ItemRecord> {
    rows.filter(survives(rows))
}

/// The image files of the rows that rotation drops.
pub open spec fn rotated_out_images(rows: Seq<ItemRecord>) -> Seq<Seq<char>> {
    rows.filter(dropped_image(rows)).map_values(|r: ItemRecord| r.image_path->0)
}

/// Rows and last identifier after text `t` is copied at time `now`, before
/// rotation: the row that holds it is marked used, or a new row is added;
/// `None` when every identifier is taken.
pub open spec fn record_text(rows: Seq<ItemRecord>, last_id: i64, t: Seq<char>, now: i64) -> Option<
    (Seq<ItemRecord>, i64),
> {
    match text_row(rows, t) {
        Some(i) => Some((rows.update(i, ItemRecord { last_used_at: now, ..rows[i] }), last_id)),
        None => if last_id == i64::MAX {
            None
        } else {
            Some((rows.push(new_text_record((last_id + 1) as i64, t, now)), (last_id + 1) as i64))
        },
    }
}

/// Copying text `t` at time `now` takes rows `before` (last identifier
/// `last_before`) to rows `after` (last identifier `last_after`), the
/// rotation dropping the image files `removed`.
pub open spec fn text_recorded(
    before: Seq<ItemRecord>,
    last_before: i64,
    t: Seq<char>,
    now: i64,
    after: Seq<ItemRecord>,
    last_after: i64,
    removed: Seq<Seq<char>>,
) -> bool {
    record_text(before, last_before, t, now) matches Some((mid, lid)) && after == rotate_records(
        mid,
    ) && last_after == lid && removed == rotated_out_images(mid)
}

/// Storing an image at `path` with type `mime` at time `now` takes rows
/// `before` (last identifier `last_before`) to rows `after` (last identifier
/// `last_after`), the rotation dropping the image files `removed`.
pub open spec fn image_recorded(
    before: Seq<ItemRecord>,
    last_before: i64,
    path: Seq<char>,
    mime: Seq<char>,
    now: i64,
    after: Seq<ItemRecord>,
    last_after: i64,
    removed: Seq<Seq<char>>,
) -> bool {
    let mid = before.push(new_image_record((last_before + 1) as i64, path, mime, now));
    &&& last_before < i64::MAX
    &&& after == rotate_records(mid)
    &&& last_after == last_before + 1
    &&& removed == rotated_out_images(mid)
}

/// The listing order: pinned rows first by pin order, then the others; most
/// recently used first within equal pin orders; equal keys in row order.
pub open spec fn history_keys(rows: Seq<ItemRecord>) -> Seq<(i128, i128)> {
    rows.map_values(
        |r: ItemRecord|
            (
                if r.is_pinned {
                    r.pin_order as i128
                } else {
                    (0x1_0000_0000_0000_0000i128 + r.pin_order as i128) as i128
                },
                (-(r.last_used_at as i128)) as i128,
            ),
    )
}

pub open spec fn min(a: int, b: int) -> int {
    if a <= b {
        a
    } else {
        b
    }
}

/// The history as listed: at most 200 rows in listing order.
pub open spec fn history(rows: Seq<ItemRecord>) -> Seq<ItemRecord> {
    stable_order(history_keys(rows)).take(min(rows.len() as int, MAX_HISTORY_ITEMS as int)).map_values(
        |k: usize| rows[k as int],
    )
}

/// The rows after the row with identifier `id` has its pin flipped.
pub open spec fn toggle_record(rows: Seq<ItemRecord>, i: int) -> Seq<ItemRecord> {
    rows.update(i, ItemRecord { is_pinned: !rows[i].is_pinned, ..rows[i] })
}

pub open spec fn other_id(id: i64) -> spec_fn(ItemRecord) -> bool {
    |r: ItemRecord| r.id != id
}

/// The error that a lookup of a missing row gives.
pub open spec fn is_no_row_error(e: MaccyError) -> bool {
    e matches MaccyError::Database(m) && m@ == "Query returned no rows"@
}

/// The error that an insertion gives once every identifier is taken.
pub open spec fn is_full_error(e: MaccyError) -> bool {
    e matches MaccyError::Database(m) && m@ == "database or disk is full"@
}

// ---------------------------------------------------------------------------
// Laws
// ---------------------------------------------------------------------------

proof fn lemma_filter_implies_len(
    s: Seq<ItemRecord>,
    p: spec_fn(ItemRecord) -> bool,
    q: spec_fn(ItemRecord) -> bool,
)
    requires
        forall|r: ItemRecord| #[trigger] s.contains(r) && p(r) ==> q(r),
    ensures
        s.filter(p).len() <= s.filter(q).len(),
    decreases s.len(),
{
    reveal(Seq::filter);
    if s.len() > 0 {
        let t = s.drop_last();
        assert forall|r: ItemRecord| #[trigger] t.contains(r) && p(r) implies q(r) by {
            let k = choose|k: int| 0 <= k < t.len() && t[k] == r;
            assert(s[k] == r);
            assert(s.contains(r));
        }
        assert(s.contains(s.last()));
        lemma_filter_implies_len(t, p, q);
    }
}

proof fn lemma_filter_split_len(
    s: Seq<ItemRecord>,
    p: spec_fn(ItemRecord) -> bool,
    q: spec_fn(ItemRecord) -> bool,
    e: spec_fn(ItemRecord) -> bool,
    x: ItemRecord,
)
    requires
        forall|r: ItemRecord| #[trigger] q(r) == (p(r) && r != x),
        forall|r: ItemRecord| #[trigger] e(r) == (r == x),
    ensures
        s.filter(p).len() <= s.filter(q).len() + s.filter(e).len(),
    decreases s.len(),
{
    reveal(Seq::filter);
    if s.len() > 0 {
        lemma_filter_split_len(s.drop_last(), p, q, e, x);
    }
}

proof fn lemma_at_most_once(s: Seq<ItemRecord>, e: spec_fn(ItemRecord) -> bool, x: ItemRecord)
    requires
        forall|r: ItemRecord| #[trigger] e(r) == (r == x),
        forall|i: int, j: int| 0 <= i < j < s.len() ==> s[i].id < s[j].id,
    ensures
        s.filter(e).len() <= 1,
    decreases s.len(),
{
    reveal(Seq::filter);
    if s.len() > 0 {
        let t = s.drop_last();
        lemma_at_most_once(t, e, x);
        if s.last() == x {
            assert forall|k: int| 0 <= k < t.len() implies t[k] != x by {
                assert(t[k].id < s[s.len() - 1].id);
            }
            lemma_absent(t, e, x);
        }
    }
}

pub(crate) proof fn lemma_absent(s: Seq<ItemRecord>, e: spec_fn(ItemRecord) -> bool, x: ItemRecord)
    requires
        forall|r: ItemRecord| #[trigger] e(r) == (r == x),
        forall|k: int| 0 <= k < s.len() ==> s[k] != x,
    ensures
        s.filter(e).len() == 0,
    decreases s.len(),
{
    reveal(Seq::filter);
    if s.len() > 0 {
        lemma_absent(s.drop_last(), e, x);
    }
}

/// Finds, among the rows satisfying `p`, one that no other such row ranks below.
proof fn lemma_least_recent(s: Seq<ItemRecord>, p: spec_fn(ItemRecord) -> bool) -> (m: ItemRecord)
    requires
        s.filter(p).len() > 0,
    ensures
        s.contains(m),
        p(m),
        forall|r: ItemRecord| #[trigger] s.contains(r) && p(r) && r != m ==> !more_recent(m, r),
    decreases s.len(),
{
    reveal(Seq::filter);
    let t = s.drop_last();
    let x = s.last();
    if t.filter(p).len() > 0 {
        let m0 = lemma_least_recent(t, p);
        assert(s.contains(m0)) by {
            let k = choose|k: int| 0 <= k < t.len() && t[k] == m0;
            assert(s[k] == m0);
        }
        if p(x) && more_recent(m0, x) {
            assert forall|r: ItemRecord| #[trigger] s.contains(r) && p(r) && r != x implies !more_recent(
                x,
                r,
            ) by {
                let k = choose|k: int| 0 <= k < s.len() && s[k] == r;
                if k < s.len() - 1 {
                    assert(t[k] == r);
                    assert(t.contains(r));
                    if r != m0 {
                        assert(!more_recent(m0, r));
                    }
                }
            }
            assert(s.contains(x));
            x
        } else {
            assert forall|r: ItemRecord| #[trigger] s.contains(r) && p(r) && r != m0 implies !more_recent(
                m0,
                r,
            ) by {
                let k = choose|k: int| 0 <= k < s.len() && s[k] == r;
                if k < s.len() - 1 {
                    assert(t[k] == r);
                    assert(t.contains(r));
                }
            }
            m0
        }
    } else {
        assert(p(x));
        assert forall|r: ItemRecord| #[trigger] s.contains(r) && p(r) && r != x implies !more_recent(
            x,
            r,
        ) by {
            let k = choose|k: int| 0 <= k < s.len() && s[k] == r;
            if k < s.len() - 1 {
                assert(t[k] == r);
                assert(t.contains(r));
                assert(t.filter(p).contains(r)) by {
                    t.lemma_filter_contains(p, k);
                }
            }
        }
        assert(s.contains(x));
        x
    }
}

/// Law: after rotation pinned and unpinned rows together number at most
/// 200, unless the pinned ones alone are more; then no unpinned row remains.
pub proof fn lemma_rotation_bounds_unpinned(rows: Seq<ItemRecord>, last_id: i64)
    requires
        rows_wf(rows, last_id),
    ensures
        rotate_records(rows).filter(unpinned_record()).len() <= if pinned_rows(rows)
            < MAX_HISTORY_ITEMS {
            MAX_HISTORY_ITEMS - pinned_rows(rows)
        } else {
            0
        },
{
    let kept = |r: ItemRecord|
        !r.is_pinned && pinned_rows(rows) + recency_rank(rows, r) < MAX_HISTORY_ITEMS;
    lemma_filter_filter(rows, survives(rows), unpinned_record(), kept);
    if rows.filter(kept).len() > 0 {
        let m = lemma_least_recent(rows, kept);
        let others = |r: ItemRecord| kept(r) && r != m;
        let same = |r: ItemRecord| r == m;
        assert forall|r: ItemRecord| #[trigger] rows.contains(r) && others(r) implies above_unpinned(
            m,
        )(r) by {
            assert(!more_recent(m, r));
            let i = choose|i: int| 0 <= i < rows.len() && rows[i] == r;
            let j = choose|j: int| 0 <= j < rows.len() && rows[j] == m;
            assert(i != j);
            assert(r.id != m.id) by {
                if i < j {
                    assert(rows[i].id < rows[j].id);
                } else {
                    assert(rows[j].id < rows[i].id);
                }
            }
        }
        lemma_filter_implies_len(rows, others, above_unpinned(m));
        lemma_filter_split_len(rows, kept, others, same, m);
        lemma_at_most_once(rows, same, m);
    }
}

pub(crate) proof fn lemma_filter_filter(
    s: Seq<ItemRecord>,
    p: spec_fn(ItemRecord) -> bool,
    q: spec_fn(ItemRecord) -> bool,
    pq: spec_fn(ItemRecord) -> bool,
)
    requires
        forall|r: ItemRecord| #[trigger] pq(r) == (p(r) && q(r)),
    ensures
        s.filter(p).filter(q) == s.filter(pq),
    decreases s.len(),
{
    reveal(Seq::filter);
    if s.len() > 0 {
        lemma_filter_filter(s.drop_last(), p, q, pq);
        let t = s.drop_last();
        if p(s.last()) {
            t.filter(p).lemma_filter_push(s.last(), q);
        }
    }
}

// ---------------------------------------------------------------------------
// The store
// ---------------------------------------------------------------------------

pub(crate) proof fn lemma_filter_wf(s: Seq<ItemRecord>, p: spec_fn(ItemRecord) -> bool, last_id: i64)
    requires
        rows_wf(s, last_id),
    ensures
        rows_wf(s.filter(p), last_id),
        forall|r: ItemRecord| #[trigger] s.filter(p).contains(r) ==> s.contains(r),
    decreases s.len(),
{
    reveal(Seq::filter);
    if s.len() > 0 {
        let t = s.drop_last();
        let x = s.last();
        assert(rows_wf(t, last_id)) by {
            assert forall|i: int| 0 <= i < t.len() implies 1 <= #[trigger] t[i].id <= last_id by {
                assert(t[i] == s[i]);
            }
        }
        lemma_filter_wf(t, p, last_id);
        let ft = t.filter(p);
        assert forall|r: ItemRecord| #[trigger] s.filter(p).contains(r) implies s.contains(r) by {
            if ft.contains(r) {
                let k = choose|k: int| 0 <= k < t.len() && t[k] == r;
                assert(s[k] == r);
            } else {
                assert(r == x);
                assert(s[s.len() - 1] == x);
            }
        }
        if p(x) {
            let f = ft.push(x);
            assert forall|i: int| 0 <= i < ft.len() implies #[trigger] ft[i].id < x.id && (ft[
                i
            ].data_type == DataType::Text && x.data_type == DataType::Text && ft[i].value_text is Some
                ==> ft[i].value_text != x.value_text) by {
                assert(ft.contains(ft[i]));
                let k = choose|k: int| 0 <= k < t.len() && t[k] == ft[i];
                assert(s[k] == t[k]);
            }
            assert forall|i: int, j: int| 0 <= i < j < f.len() implies f[i].id < f[j].id by {
                if j == f.len() - 1 {
                    assert(f[i] == ft[i]);
                } else {
                    assert(f[i] == ft[i] && f[j] == ft[j]);
                }
            }
            assert forall|i: int, j: int|
                0 <= i < j < f.len() && f[i].data_type == DataType::Text && f[j].data_type
                    == DataType::Text && f[i].value_text is Some implies f[i].value_text
                != f[j].value_text by {
                if j == f.len() - 1 {
                    assert(f[i] == ft[i]);
                } else {
                    assert(f[i] == ft[i] && f[j] == ft[j]);
                }
            }
            assert forall|i: int| 0 <= i < f.len() implies 1 <= #[trigger] f[i].id <= last_id by {
                if i < f.len() - 1 {
                    assert(f[i] == ft[i]);
                } else {
                    assert(s[s.len() - 1] == x);
                }
            }
        }
    }
}

fn same_opt_string(a: &Option<String>, b: &Option<String>) -> (r: bool)
    ensures
        r == (opt_view(*a) == opt_view(*b)),
{
    match (a, b) {
        (Some(x), Some(y)) => same_str(x.as_str(), y.as_str()),
        (None, None) => true,
        _ => false,
    }
}

fn same_text(a: &Option<String>, t: &str) -> (r: bool)
    ensures
        r == (opt_view(*a) == Some(t@)),
{
    match a {
        Some(x) => same_str(x.as_str(), t),
        None => false,
    }
}

pub open spec fn strings_view(v: Seq<String>) -> Seq<Seq<char>> {
    v.map_values(|s: String| s@)
}

/// The clipboard history store.
pub struct Database {
    rows: Vec<ClipboardItem>,
    last_id: i64,
}

impl Database {
    #[verifier::type_invariant]
    spec fn inv(self) -> bool {
        rows_wf(records_of(self.rows@), self.last_id)
    }

    /// The rows, in insertion order.
    pub closed spec fn records(&self) -> Seq<ItemRecord> {
        records_of(self.rows@)
    }

    /// The largest identifier ever handed out.
    pub closed spec fn last_id_spec(&self) -> i64 {
        self.last_id
    }

    /// The category recorded for a copied text.
    pub fn detect_category(text: &str) -> (r: Option<Category>)
        ensures
            r == Some(stored_category(category_of(text@))),
    {
        Some(Category::from_domain(DomainCategory::from_text(text)))
    }

    /// An empty store.
    pub fn in_memory() -> (r: Result<Database>)
        ensures
            r matches Ok(db) && db.records() == Seq::<ItemRecord>::empty() && db.last_id_spec()
                == 0,
    {
        let db = Database { rows: Vec::new(), last_id: 0 };
        assert(records_of(db.rows@) =~= Seq::<ItemRecord>::empty());
        Ok(db)
    }

    /// A store holding saved rows, or `None` when they break the store's
    /// invariant.
    pub fn from_rows(rows: Vec<ClipboardItem>, last_id: i64) -> (r: Option<Database>)
        ensures
            r is Some <==> rows_wf(records_of(rows@), last_id),
            r matches Some(db) ==> db.records() == records_of(rows@) && db.last_id_spec()
                == last_id,
    {
        let ghost recs = records_of(rows@);
        if last_id < 0 {
            return None;
        }
        let n = rows.len();
        let mut i: usize = 0;
        while i < n
            invariant
                n == rows.len(),
                recs == records_of(rows@),
                i <= n,
                0 <= last_id,
                forall|k: int| 0 <= k < i ==> 1 <= #[trigger] recs[k].id <= last_id,
                forall|a: int, b: int| 0 <= a < b < i ==> recs[a].id < recs[b].id,
                forall|a: int, b: int|
                    0 <= a < b < i && recs[a].data_type == DataType::Text && recs[b].data_type
                        == DataType::Text && recs[a].value_text is Some ==> recs[a].value_text
                        != recs[b].value_text,
            decreases n - i,
        {
            let r = &rows[i];
            if r.id < 1 || r.id > last_id {
                return None;
            }
            if i > 0 && rows[i - 1].id >= r.id {
                return None;
            }
            let mut j: usize = 0;
            while j < i
                invariant
                    n == rows.len(),
                    recs == records_of(rows@),
                    i < n,
                    j <= i,
                    forall|a: int|
                        0 <= a < j && recs[a].data_type == DataType::Text && recs[i as int].data_type
                            == DataType::Text && recs[a].value_text is Some ==> recs[a].value_text
                            != recs[i as int].value_text,
                decreases i - j,
            {
                if rows[j].data_type == DataType::Text && rows[i].data_type == DataType::Text
                    && rows[j].value_text.is_some() && same_opt_string(
                    &rows[j].value_text,
                    &rows[i].value_text,
                ) {
                    assert(recs[j as int].value_text == recs[i as int].value_text);
                    return None;
                }
                j += 1;
            }
            assert forall|a: int, b: int| 0 <= a < b < i + 1 implies recs[a].id < recs[b].id by {
                if b == i && a < i - 1 {
                    assert(recs[a].id < recs[i - 1].id);
                }
            }
            i += 1;
        }
        Some(Database { rows, last_id })
    }

    /// The rows, in insertion order.
    pub fn rows(&self) -> (r: &Vec<ClipboardItem>)
        ensures
            records_of(r@) == self.records(),
    {
        &self.rows
    }

    /// The largest identifier ever handed out.
    pub fn last_id(&self) -> (r: i64)
        ensures
            r == self.last_id_spec(),
    {
        self.last_id
    }

    /// The position of the text row holding `text`.
    fn find_text_row(&self, text: &str) -> (r: Option<usize>)
        ensures
            match r {
                Some(i) => text_row(self.records(), text@) == Some(i as int) && i < self.rows@.len(),
                None => text_row(self.records(), text@) is None,
            },
    {
        proof {
            use_type_invariant(self);
        }
        let ghost recs = self.records();
        let mut i: usize = 0;
        while i < self.rows.len()
            invariant
                recs == records_of(self.rows@),
                rows_wf(recs, self.last_id),
                i <= self.rows.len(),
                forall|k: int| 0 <= k < i ==> !is_text_record(recs[k], text@),
            decreases self.rows.len() - i,
        {
            let r = &self.rows[i];
            if r.data_type == DataType::Text && same_text(&r.value_text, text) {
                proof {
                    assert(is_text_record(recs[i as int], text@));
                    let c = choose|c: int| 0 <= c < recs.len() && is_text_record(recs[c], text@);
                    assert(c == i) by {
                        if c < i {
                            assert(recs[c].value_text != recs[i as int].value_text);
                        } else if c > i {
                            assert(recs[i as int].value_text != recs[c].value_text);
                        }
                    }
                }
                return Some(i);
            }
            i += 1;
        }
        None
    }

    /// The position of the row with identifier `id`.
    fn find_id_row(&self, id: i64) -> (r: Option<usize>)
        ensures
            match r {
                Some(i) => id_row(self.records(), id) == Some(i as int) && i < self.rows@.len(),
                None => id_row(self.records(), id) is None,
            },
    {
        proof {
            use_type_invariant(self);
        }
        let ghost recs = self.records();
        let mut i: usize = 0;
        while i < self.rows.len()
            invariant
                recs == records_of(self.rows@),
                rows_wf(recs, self.last_id),
                i <= self.rows.len(),
                forall|k: int| 0 <= k < i ==> recs[k].id != id,
            decreases self.rows.len() - i,
        {
            if self.rows[i].id == id {
                proof {
                    let c = choose|c: int| 0 <= c < recs.len() && recs[c].id == id;
                    assert(c == i) by {
                        if c < i {
                            assert(recs[c].id < recs[i as int].id);
                        } else if c > i {
                            assert(recs[i as int].id < recs[c].id);
                        }
                    }
                }
                return Some(i);
            }
            i += 1;
        }
        None
    }

    /// How many unpinned rows of `rows` rank above row `x` in recency.
    fn rank_of(rows: &Vec<ClipboardItem>, x: &ClipboardItem) -> (r: usize)
        ensures
            r == recency_rank(records_of(rows@), x@),
    {
        let ghost recs = records_of(rows@);
        let mut count: usize = 0;
        let mut j: usize = 0;
        while j < rows.len()
            invariant
                recs == records_of(rows@),
                j <= rows.len(),
                count == recs.take(j as int).filter(above_unpinned(x@)).len(),
                count <= j,
            decreases rows.len() - j,
        {
            proof {
                assert(recs.take(j as int + 1) == recs.take(j as int).push(recs[j as int]));
                recs.take(j as int).lemma_filter_push(recs[j as int], above_unpinned(x@));
            }
            let r = &rows[j];
            if !r.is_pinned && (r.last_used_at > x.last_used_at || (r.last_used_at
                == x.last_used_at && r.id > x.id)) {
                count += 1;
            }
            j += 1;
        }
        assert(recs.take(rows.len() as int) == recs);
        count
    }

    /// How many of `rows` are pinned.
    fn pinned_count_of(rows: &Vec<ClipboardItem>) -> (r: usize)
        ensures
            r == pinned_rows(records_of(rows@)),
    {
        let ghost recs = records_of(rows@);
        let mut count: usize = 0;
        let mut j: usize = 0;
        while j < rows.len()
            invariant
                recs == records_of(rows@),
                j <= rows.len(),
                count == recs.take(j as int).filter(pinned_record()).len(),
                count <= j,
            decreases rows.len() - j,
        {
            proof {
                assert(recs.take(j as int + 1) == recs.take(j as int).push(recs[j as int]));
                recs.take(j as int).lemma_filter_push(recs[j as int], pinned_record());
            }
            if rows[j].is_pinned {
                count += 1;
            }
            j += 1;
        }
        assert(recs.take(rows.len() as int) == recs);
        count
    }

    /// The rows that rotation keeps, and the image files of those it drops.
    fn rotate(rows: &Vec<ClipboardItem>) -> (r: (Vec<ClipboardItem>, Vec<String>))
        ensures
            records_of(r.0@) == rotate_records(records_of(rows@)),
            strings_view(r.1@) == rotated_out_images(records_of(rows@)),
    {
        let ghost recs = records_of(rows@);
        let pinned = Self::pinned_count_of(rows);
        let mut kept: Vec<ClipboardItem> = Vec::new();
        let mut dropped: Vec<String> = Vec::new();
        let mut i: usize = 0;
        while i < rows.len()
            invariant
                recs == records_of(rows@),
                i <= rows.len(),
                records_of(kept@) == recs.take(i as int).filter(survives(recs)),
                strings_view(dropped@) == recs.take(i as int).filter(dropped_image(recs)).map_values(
                    |r: ItemRecord| r.image_path->0,
                ),
                pinned == pinned_rows(recs),
            decreases rows.len() - i,
        {
            proof {
                assert(recs.take(i as int + 1) == recs.take(i as int).push(recs[i as int]));
                recs.take(i as int).lemma_filter_push(recs[i as int], survives(recs));
                recs.take(i as int).lemma_filter_push(recs[i as int], dropped_image(recs));
            }
            let r = &rows[i];
            let keep = r.is_pinned || (pinned < MAX_HISTORY_ITEMS && Self::rank_of(rows, r)
                < MAX_HISTORY_ITEMS - pinned);
            if keep {
                kept.push(r.copied());
                assert(records_of(kept@) =~= recs.take(i as int + 1).filter(survives(recs)));
            } else {
                match &r.image_path {
                    Some(p) => {
                        let ghost before = dropped@;
                        let ghost a = recs.take(i as int).filter(dropped_image(recs));
                        assert(dropped_image(recs)(recs[i as int]));
                        dropped.push(p.clone());
                        proof {
                            let f = |r: ItemRecord| r.image_path->0;
                            assert(recs.take(i as int + 1).filter(dropped_image(recs)) == a.push(
                                recs[i as int],
                            ));
                            assert(a.push(recs[i as int]).map_values(f) =~= a.map_values(f).push(
                                f(recs[i as int]),
                            ));
                            assert(strings_view(dropped@) =~= strings_view(before).push(p@));
                        }
                    },
                    None => {},
                }
            }
            i += 1;
        }
        assert(recs.take(rows.len() as int) == recs);
        (kept, dropped)
    }

    /// Records that `text` was copied: the row holding it is marked used now,
    /// or a new row is added; then the history is rotated. Returns the image
    /// files of the rows that rotation dropped, for the caller to remove. Fails
    /// only when a new row is needed and every identifier is taken.
    pub fn add_text_item(&mut self, text: &str) -> (r: Result<Vec<String>>)
        ensures
            r is Ok <==> (text_row(old(self).records(), text@) is Some || old(self).last_id_spec()
                < i64::MAX),
            r matches Err(e) ==> is_full_error(e) && final(self).records() == old(self).records()
                && final(self).last_id_spec() == old(self).last_id_spec(),
            r matches Ok(removed) ==> exists|now: i64|
                #[trigger] text_recorded(
                    old(self).records(),
                    old(self).last_id_spec(),
                    text@,
                    now,
                    final(self).records(),
                    final(self).last_id_spec(),
                    strings_view(removed@),
                ),
    {
        proof {
            use_type_invariant(&*self);
        }
        let now = current_time_millis();
        let category = Category::from_domain(DomainCategory::from_text(text));
        let ghost recs0 = self.records();
        let mut rows = self.copy_rows();
        let mut last_id = self.last_id;
        match self.find_text_row(text) {
            Some(i) => {
                let mut row = rows[i].copied();
                row.last_used_at = now;
                rows.set(i, row);
                assert(records_of(rows@) =~= recs0.update(
                    i as int,
                    ItemRecord { last_used_at: now, ..recs0[i as int] },
                ));
                proof {
                    let u = records_of(rows@);
                    assert forall|a: int, b: int| 0 <= a < b < u.len() implies u[a].id < u[b].id by {
                        assert(recs0[a].id < recs0[b].id);
                    }
                    assert forall|a: int, b: int|
                        0 <= a < b < u.len() && u[a].data_type == DataType::Text && u[b].data_type
                            == DataType::Text && u[a].value_text is Some implies u[a].value_text
                        != u[b].value_text by {
                        assert(recs0[a].value_text != recs0[b].value_text);
                    }
                    assert forall|a: int| 0 <= a < u.len() implies 1 <= #[trigger] u[a].id
                        <= last_id by {
                        assert(u[a].id == recs0[a].id);
                    }
                }
            },
            None => {
                if last_id == i64::MAX {
                    return Err(MaccyError::Database(owned("database or disk is full")));
                }
                last_id = last_id + 1;
                rows.push(
                    ClipboardItem {
                        id: last_id,
                        value_text: Some(owned(text)),
                        image_path: None,
                        data_type: DataType::Text,
                        raw_mime_type: owned("text/plain"),
                        category: Some(category),
                        is_pinned: false,
                        pin_order: 0,
                        last_used_at: now,
                    },
                );
                assert(records_of(rows@) =~= recs0.push(new_text_record(last_id, text@, now)));
                proof {
                    let u = records_of(rows@);
                    assert forall|a: int, b: int|
                        0 <= a < b < u.len() && u[a].data_type == DataType::Text && u[b].data_type
                            == DataType::Text && u[a].value_text is Some implies u[a].value_text
                        != u[b].value_text by {
                        if b == u.len() - 1 {
                            assert(!is_text_record(recs0[a], text@));
                        } else {
                            assert(recs0[a].value_text != recs0[b].value_text);
                        }
                    }
                    assert forall|a: int| 0 <= a < u.len() implies 1 <= #[trigger] u[a].id
                        <= last_id by {
                        if a < u.len() - 1 {
                            assert(u[a].id == recs0[a].id);
                        }
                    }
                }
            },
        }
        let ghost mid = records_of(rows@);
        let ghost old_last = self.last_id;
        assert(record_text(recs0, self.last_id, text@, now) == Some((mid, last_id)));
        assert(rows_wf(mid, last_id));
        let (kept, dropped) = Self::rotate(&rows);
        proof {
            lemma_filter_wf(mid, survives(mid), last_id);
        }
        *self = Database { rows: kept, last_id };
        assert(text_recorded(
            recs0,
            old_last,
            text@,
            now,
            self.records(),
            self.last_id_spec(),
            strings_view(dropped@),
        ));
        assert(recs0 == old(self).records() && old_last == old(self).last_id_spec());
        let ghost dr = dropped@;
        let res: Result<Vec<String>> = Ok(dropped);
        assert(res matches Ok(removed) ==> removed@ == dr);
        assert(res matches Ok(removed) ==> final(self).records() == self.records());
        assert(res matches Ok(removed) ==> exists|t: i64|
            #[trigger] text_recorded(
                old(self).records(),
                old(self).last_id_spec(),
                text@,
                t,
                final(self).records(),
                final(self).last_id_spec(),
                strings_view(removed@),
            ));
        res
    }

    /// Records an image stored at `image_path`: a new row is added, then the
    /// history is rotated. Returns the image files of the rows that rotation
    /// dropped, for the caller to remove. Fails only when every identifier is
    /// taken.
    pub fn add_image_item(&mut self, image_path: String, mime_type: &str) -> (r: Result<Vec<String>>)
        ensures
            r is Ok <==> old(self).last_id_spec() < i64::MAX,
            r matches Err(e) ==> is_full_error(e) && final(self).records() == old(self).records()
                && final(self).last_id_spec() == old(self).last_id_spec(),
            r matches Ok(removed) ==> exists|now: i64|
                #[trigger] image_recorded(
                    old(self).records(),
                    old(self).last_id_spec(),
                    image_path@,
                    mime_type@,
                    now,
                    final(self).records(),
                    final(self).last_id_spec(),
                    strings_view(removed@),
                ),
    {
        proof {
            use_type_invariant(&*self);
        }
        let now = current_time_millis();
        let ghost recs0 = self.records();
        let ghost old_last = self.last_id;
        if self.last_id == i64::MAX {
            return Err(MaccyError::Database(owned("database or disk is full")));
        }
        let mut rows = self.copy_rows();
        let last_id = self.last_id + 1;
        let ghost path = image_path@;
        rows.push(
            ClipboardItem {
                id: last_id,
                value_text: None,
                image_path: Some(image_path),
                data_type: DataType::Image,
                raw_mime_type: owned(mime_type),
                category: Some(Category::Picture),
                is_pinned: false,
                pin_order: 0,
                last_used_at: now,
            },
        );
        let ghost mid = records_of(rows@);
        assert(mid =~= recs0.push(new_image_record(last_id, path, mime_type@, now)));
        proof {
            assert forall|a: int| 0 <= a < mid.len() implies 1 <= #[trigger] mid[a].id <= last_id by {
                if a < mid.len() - 1 {
                    assert(mid[a].id == recs0[a].id);
                }
            }
        }
        assert(rows_wf(mid, last_id));
        let (kept, dropped) = Self::rotate(&rows);
        proof {
            lemma_filter_wf(mid, survives(mid), last_id);
        }
        *self = Database { rows: kept, last_id };
        assert(image_recorded(
            recs0,
            old_last,
            path,
            mime_type@,
            now,
            self.records(),
            self.last_id_spec(),
            strings_view(dropped@),
        ));
        assert(recs0 == old(self).records() && old_last == old(self).last_id_spec());
        let ghost dr = dropped@;
        let res: Result<Vec<String>> = Ok(dropped);
        assert(res matches Ok(removed) ==> removed@ == dr);
        assert(res matches Ok(removed) ==> final(self).records() == self.records());
        assert(res matches Ok(removed) ==> exists|t: i64|
            #[trigger] image_recorded(
                old(self).records(),
                old(self).last_id_spec(),
                path,
                mime_type@,
                t,
                final(self).records(),
                final(self).last_id_spec(),
                strings_view(removed@),
            ));
        res
    }

    /// The history as listed: pinned rows first by pin order, then the rest,
    /// most recently used first; at most 200 rows.
    pub fn get_history(&self) -> (r: Result<Vec<ClipboardItem>>)
        ensures
            r matches Ok(items) && records_of(items@) == history(self.records()),
    {
        let ghost recs = self.records();
        let mut keys: Vec<(i128, i128)> = Vec::new();
        let mut i: usize = 0;
        while i < self.rows.len()
            invariant
                recs == records_of(self.rows@),
                i <= self.rows.len(),
                keys@ == history_keys(recs).take(i as int),
            decreases self.rows.len() - i,
        {
            let r = &self.rows[i];
            let first: i128 = if r.is_pinned {
                r.pin_order as i128
            } else {
                0x1_0000_0000_0000_0000i128 + r.pin_order as i128
            };
            let second: i128 = -(r.last_used_at as i128);
            keys.push((first, second));
            assert(history_keys(recs).take(i as int + 1) =~= history_keys(recs).take(i as int).push(
                (first, second),
            ));
            i += 1;
        }
        assert(history_keys(recs).take(self.rows.len() as int) =~= history_keys(recs));
        let order = stable_order_exec(&keys);
        proof {
            lemma_stable_order(keys@);
        }
        let n = if order.len() < MAX_HISTORY_ITEMS {
            order.len()
        } else {
            MAX_HISTORY_ITEMS
        };
        let mut items: Vec<ClipboardItem> = Vec::new();
        let mut k: usize = 0;
        while k < n
            invariant
                recs == records_of(self.rows@),
                order@ == stable_order(keys@),
                keys@ == history_keys(recs),
                is_permutation_of_range(order@, keys@.len()),
                n <= order.len(),
                n == min(recs.len() as int, MAX_HISTORY_ITEMS as int),
                k <= n,
                records_of(items@) == order@.take(k as int).map_values(|j: usize| recs[j as int]),
            decreases n - k,
        {
            let j = order[k];
            let ghost before = items@;
            items.push(self.rows[j].copied());
            proof {
                let f = |j: usize| recs[j as int];
                assert(order@.take(k as int + 1) =~= order@.take(k as int).push(j));
                assert(order@.take(k as int).push(j).map_values(f) =~= order@.take(
                    k as int,
                ).map_values(f).push(recs[j as int]));
                assert(records_of(items@) =~= records_of(before).push(recs[j as int]));
            }
            k += 1;
        }
        Ok(items)
    }

    /// Flips the pin of the row with identifier `id`. Fails when there is no
    /// such row.
    pub fn toggle_pin(&mut self, id: i64) -> (r: Result<()>)
        ensures
            r is Ok <==> id_row(old(self).records(), id) is Some,
            r matches Err(e) ==> is_no_row_error(e) && final(self).records() == old(
                self,
            ).records(),
            r is Ok ==> final(self).records() == toggle_record(
                old(self).records(),
                id_row(old(self).records(), id)->0,
            ),
            final(self).last_id_spec() == old(self).last_id_spec(),
    {
        proof {
            use_type_invariant(&*self);
        }
        match self.find_id_row(id) {
            None => Err(MaccyError::Database(owned("Query returned no rows"))),
            Some(i) => {
                let ghost recs0 = self.records();
                let mut rows = self.copy_rows();
                let mut row = rows[i].copied();
                row.is_pinned = !row.is_pinned;
                rows.set(i, row);
                let ghost u = records_of(rows@);
                assert(u =~= toggle_record(recs0, i as int));
                proof {
                    assert forall|a: int| 0 <= a < u.len() implies 1 <= #[trigger] u[a].id
                        <= self.last_id by {
                        assert(u[a].id == recs0[a].id);
                    }
                    assert forall|a: int, b: int| 0 <= a < b < u.len() implies u[a].id < u[b].id by {
                        assert(recs0[a].id < recs0[b].id);
                    }
                    assert forall|a: int, b: int|
                        0 <= a < b < u.len() && u[a].data_type == DataType::Text && u[b].data_type
                            == DataType::Text && u[a].value_text is Some implies u[a].value_text
                        != u[b].value_text by {
                        assert(recs0[a].value_text != recs0[b].value_text);
                    }
                }
                let last_id = self.last_id;
                *self = Database { rows, last_id };
                Ok(())
            },
        }
    }

    /// Removes the row with identifier `id`, if there is one, and returns its
    /// image file, for the caller to remove. Removing a missing row changes
    /// nothing.
    pub fn delete_item(&mut self, id: i64) -> (r: Result<Option<String>>)
        ensures
            r matches Ok(path) && opt_view(path) == match id_row(old(self).records(), id) {
                Some(i) => old(self).records()[i].image_path,
                None => None,
            },
            final(self).records() == old(self).records().filter(other_id(id)),
            final(self).last_id_spec() == old(self).last_id_spec(),
    {
        proof {
            use_type_invariant(&*self);
        }
        let ghost recs = self.records();
        let path = match self.find_id_row(id) {
            Some(i) => copy_opt_string(&self.rows[i].image_path),
            None => None,
        };
        let mut kept: Vec<ClipboardItem> = Vec::new();
        let mut i: usize = 0;
        while i < self.rows.len()
            invariant
                recs == records_of(self.rows@),
                i <= self.rows.len(),
                records_of(kept@) == recs.take(i as int).filter(other_id(id)),
            decreases self.rows.len() - i,
        {
            proof {
                assert(recs.take(i as int + 1) == recs.take(i as int).push(recs[i as int]));
                recs.take(i as int).lemma_filter_push(recs[i as int], other_id(id));
            }
            if self.rows[i].id != id {
                kept.push(self.rows[i].copied());
                assert(records_of(kept@) =~= recs.take(i as int + 1).filter(other_id(id)));
            }
            i += 1;
        }
        assert(recs.take(self.rows.len() as int) == recs);
        proof {
            lemma_filter_wf(recs, other_id(id), self.last_id);
        }
        let last_id = self.last_id;
        *self = Database { rows: kept, last_id };
        Ok(path)
    }

    /// A copy of the rows.
    fn copy_rows(&self) -> (r: Vec<ClipboardItem>)
        ensures
            r@ == self.rows@,
    {
        let mut out: Vec<ClipboardItem> = Vec::new();
        let mut i: usize = 0;
        while i < self.rows.len()
            invariant
                i <= self.rows.len(),
                out@ == self.rows@.take(i as int),
            decreases self.rows.len() - i,
        {
            out.push(self.rows[i].copied());
            assert(self.rows@.take(i as int + 1) == self.rows@.take(i as int).push(
                self.rows@[i as int],
            ));
            i += 1;
        }
        assert(self.rows@.take(self.rows.len() as int) == self.rows@);
        out
    }
}

} // verus!
